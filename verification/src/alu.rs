//! The operation table: what each of the thirty-two operations computes
//! from two narrow operands, and the bit-level helpers it is built on.

use crate::instruction::Operation;
use vstd::arithmetic::div_mod::lemma_mul_mod_noop_general;
use vstd::arithmetic::power::{lemma_pow_adds, lemma_pow_mod_noop, lemma_pow_multiplies, pow};
use vstd::prelude::*;

verus! {

/// How many digits one the binary numeral of `x` has.
pub open spec fn ones(x: nat) -> nat
    decreases x,
{
    if x == 0 {
        0
    } else {
        (x % 2) + ones(x / 2)
    }
}

/// The `n` lowest bits of `x` in mirrored order, placed at the top of the
/// word: bit `i` of `x` stands at bit `31 - i`, for every `i` below `n`.
pub open spec fn mirrored(x: u32, n: nat) -> u32
    decreases n,
{
    if n == 0 {
        0
    } else {
        mirrored(x, (n - 1) as nat) | (((x >> ((n - 1) as u32)) & 1) << ((32 - n) as u32))
    }
}

/// `x` with the order of its 32 bits reversed.
pub open spec fn reversed(x: u32) -> u32 {
    mirrored(x, 32)
}

/// `x` rotated to the left by `n` bits; only `n` modulo 32 matters.
pub open spec fn rotated_left(x: u32, n: u32) -> u32 {
    let k = n % 32;
    if k == 0 {
        x
    } else {
        (x << k) | (x >> ((32 - k) as u32))
    }
}

/// `x` rotated to the right by `n` bits; only `n` modulo 32 matters.
pub open spec fn rotated_right(x: u32, n: u32) -> u32 {
    let k = n % 32;
    if k == 0 {
        x
    } else {
        (x >> k) | (x << ((32 - k) as u32))
    }
}

/// `a` to the power `b`, modulo two to the 32.
pub open spec fn power(a: u32, b: u32) -> u32 {
    (pow(a as int, b as nat) % 0x1_0000_0000) as u32
}

/// The divisor that `b` stands for: zero counts as one, so that no
/// division is by zero.
pub open spec fn divisor(b: u32) -> u32 {
    if b == 0 {
        1
    } else {
        b
    }
}

/// The result of an operation on narrow operands `a` and `b`. Unary
/// operations read `b` alone.
pub open spec fn evaluate(op: Operation, a: u32, b: u32) -> u32 {
    match op {
        Operation::Copy => b,
        Operation::Not => !b,
        Operation::Neg => (u32::MAX - b) as u32,
        Operation::Reverse => reversed(b),
        Operation::Numzeros => (32 - ones(b as nat)) as u32,
        Operation::Numones => ones(b as nat) as u32,
        Operation::And => a & b,
        Operation::Or => a | b,
        Operation::Xor => a ^ b,
        Operation::Shl => if b < 32 {
            a << b
        } else {
            0
        },
        Operation::Shlm => a << (b % 32),
        Operation::Shr => if b < 32 {
            a >> b
        } else {
            0
        },
        Operation::Shrm => a >> (b % 32),
        Operation::Rotl => rotated_left(a, b),
        Operation::Rotr => rotated_right(a, b),
        Operation::Addc => if a + b > u32::MAX {
            u32::MAX
        } else {
            (a + b) as u32
        },
        Operation::Addm => ((a + b) % 0x1_0000_0000) as u32,
        Operation::Subc => if a < b {
            0
        } else {
            (a - b) as u32
        },
        Operation::Subm => ((a - b) % 0x1_0000_0000) as u32,
        Operation::Absdiff => if a < b {
            (b - a) as u32
        } else {
            (a - b) as u32
        },
        Operation::Mulc => if a * b > u32::MAX {
            u32::MAX
        } else {
            (a * b) as u32
        },
        Operation::Mulm => ((a * b) % 0x1_0000_0000) as u32,
        Operation::Div => a / divisor(b),
        Operation::Mod => a % divisor(b),
        Operation::Powm => power(a, b),
        Operation::Powc => power(a, b),
        Operation::Gt => if a > b {
            1
        } else {
            0
        },
        Operation::Ge => if a >= b {
            1
        } else {
            0
        },
        Operation::Lt => if a < b {
            1
        } else {
            0
        },
        Operation::Le => if a <= b {
            1
        } else {
            0
        },
        Operation::Eq => if a == b {
            1
        } else {
            0
        },
        Operation::Ne => if a != b {
            1
        } else {
            0
        },
    }
}

/// A number below two to the `n` has at most `n` digits one.
pub proof fn lemma_ones_bound(x: nat, n: nat)
    requires
        x < vstd::arithmetic::power2::pow2(n),
    ensures
        ones(x) <= n,
    decreases n,
{
    if n == 0 {
        vstd::arithmetic::power2::lemma2_to64();
    } else if x != 0 {
        vstd::arithmetic::power2::lemma_pow2_unfold(n);
        lemma_ones_bound(x / 2, (n - 1) as nat);
    }
}

/// The divisor that `b` stands for: zero counts as one.
pub fn at_least_one(b: u32) -> (d: u32)
    ensures
        d == divisor(b),
        d > 0,
{
    if b == 0 {
        1
    } else {
        b
    }
}

/// Counts the bits of `x` that are one.
pub fn count_ones(x: u32) -> (r: u32)
    ensures
        r == ones(x as nat),
        r <= 32,
{
    let mut rest: u32 = x;
    let mut count: u32 = 0;
    proof {
        vstd::arithmetic::power2::lemma2_to64();
        lemma_ones_bound(x as nat, 32);
    }
    while rest != 0
        invariant
            count + ones(rest as nat) == ones(x as nat),
            ones(x as nat) <= 32,
        decreases rest,
    {
        count = count + rest % 2;
        rest = rest / 2;
    }
    count
}

/// Reverses the order of the 32 bits of `x`.
pub fn reverse_bits(x: u32) -> (r: u32)
    ensures
        r == reversed(x),
{
    let mut r: u32 = 0;
    let mut i: u32 = 0;
    while i < 32
        invariant
            i <= 32,
            r == mirrored(x, i as nat),
        decreases 32 - i,
    {
        r = r | (((x >> i) & 1) << (31 - i));
        i = i + 1;
    }
    r
}

/// Bit `31 - i` of the reversed word is bit `i` of the word.
pub proof fn lemma_reversed_bit(x: u32, i: u32)
    requires
        i < 32,
    ensures
        (reversed(x) >> ((31 - i) as u32)) & 1 == (x >> i) & 1,
{
    lemma_mirrored_bit(x, 32, i);
}

/// Bit `31 - i` of the word that mirrors the `n` lowest bits of `x` is bit
/// `i` of `x` where `i` is below `n`, and zero elsewhere.
proof fn lemma_mirrored_bit(x: u32, n: nat, i: u32)
    requires
        n <= 32,
        i < 32,
    ensures
        (mirrored(x, n) >> ((31 - i) as u32)) & 1 == if i < n {
            (x >> i) & 1
        } else {
            0
        },
    decreases n,
{
    let p: u32 = (31 - i) as u32;
    if n == 0 {
        assert((0u32 >> p) & 1 == 0) by (bit_vector);
    } else {
        let m: u32 = (n - 1) as u32;
        let q: u32 = (32 - n) as u32;
        let before = mirrored(x, m as nat);
        lemma_mirrored_bit(x, m as nat, i);
        assert(((before | (((x >> m) & 1) << q)) >> p) & 1 == if p == q {
            ((before >> p) & 1) | ((x >> m) & 1)
        } else {
            (before >> p) & 1
        }) by (bit_vector)
            requires
                p < 32,
                q < 32,
        ;
        assert(0 | ((x >> m) & 1) == (x >> m) & 1) by (bit_vector);
    }
}

/// Rotates `x` to the left by `n` bits.
pub fn rotate_left(x: u32, n: u32) -> (r: u32)
    ensures
        r == rotated_left(x, n),
{
    let k = n % 32;
    if k == 0 {
        x
    } else {
        (x << k) | (x >> (32 - k))
    }
}

/// Rotates `x` to the right by `n` bits.
pub fn rotate_right(x: u32, n: u32) -> (r: u32)
    ensures
        r == rotated_right(x, n),
{
    let k = n % 32;
    if k == 0 {
        x
    } else {
        (x >> k) | (x << (32 - k))
    }
}

/// Raises `a` to the power `b`, keeping the 32 low bits of the result.
pub fn wrapping_pow(a: u32, b: u32) -> (r: u32)
    ensures
        r == power(a, b),
{
    let mut base: u32 = a;
    let mut exponent: u32 = b;
    let mut r: u32 = 1;
    proof {
        vstd::arithmetic::power::lemma_pow1(a as int);
    }
    while exponent > 0
        invariant
            (r * pow(base as int, exponent as nat)) % 0x1_0000_0000 == pow(a as int, b as nat)
                % 0x1_0000_0000,
        decreases exponent,
    {
        proof {
            lemma_power_step(r as int, base as int, exponent as nat, 0x1_0000_0000);
        }
        if exponent % 2 == 1 {
            r = r.wrapping_mul(base);
        }
        base = base.wrapping_mul(base);
        exponent = exponent / 2;
    }
    proof {
        vstd::arithmetic::power::lemma_pow0(base as int);
    }
    r
}

/// One round of exponentiation by squaring, modulo `m`: the exponent is
/// halved, the base squared, and an odd exponent moves one factor into the
/// accumulator.
pub proof fn lemma_power_step(r: int, base: int, e: nat, m: int)
    requires
        e > 0,
        m > 0,
    ensures
        ((if e % 2 == 1 {
            (r * base) % m
        } else {
            r
        }) * pow((base * base) % m, e / 2)) % m == (r * pow(base, e)) % m,
{
    let h = e / 2;
    let sq = base * base;
    // pow(base, e) in terms of the squared base
    vstd::arithmetic::power::lemma_pow1(base);
    assert(pow(base, 2) == sq) by {
        lemma_pow_adds(base, 1, 1);
    }
    lemma_pow_multiplies(base, 2, h);
    lemma_pow_mod_noop(sq, h, m);
    let t = pow(sq % m, h);
    let u = pow(sq, h);
    if e % 2 == 1 {
        lemma_pow_adds(base, 1, 2 * h);
        lemma_mul_mod_noop_general((r * base) % m, t, m);
        lemma_mul_mod_noop_general(r * base, t, m);
        lemma_mul_mod_noop_general(r * base, u, m);
        assert((r * base) * u == r * (base * u)) by (nonlinear_arith);
    } else {
        lemma_mul_mod_noop_general(r, t, m);
        lemma_mul_mod_noop_general(r, u, m);
    }
}

} // verus!
