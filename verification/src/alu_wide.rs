//! The operation table on wide operands: every operation means what it
//! means on narrow ones, at a width of 64 bits.

use crate::alu::{lemma_ones_bound, lemma_power_step, ones};
use crate::instruction::Operation;
use vstd::arithmetic::power::pow;
use vstd::prelude::*;

verus! {

/// The `n` lowest bits of `x` in mirrored order, placed at the top of the
/// word: bit `i` of `x` stands at bit `63 - i`, for every `i` below `n`.
pub open spec fn mirrored_wide(x: u64, n: nat) -> u64
    decreases n,
{
    if n == 0 {
        0
    } else {
        mirrored_wide(x, (n - 1) as nat) | (((x >> ((n - 1) as u64)) & 1) << ((64 - n) as u64))
    }
}

/// `x` with the order of its 64 bits reversed.
pub open spec fn reversed_wide(x: u64) -> u64 {
    mirrored_wide(x, 64)
}

/// `x` rotated to the left by `n` bits; only `n` modulo 64 matters.
pub open spec fn rotated_left_wide(x: u64, n: u64) -> u64 {
    let k = n % 64;
    if k == 0 {
        x
    } else {
        (x << k) | (x >> ((64 - k) as u64))
    }
}

/// `x` rotated to the right by `n` bits; only `n` modulo 64 matters.
pub open spec fn rotated_right_wide(x: u64, n: u64) -> u64 {
    let k = n % 64;
    if k == 0 {
        x
    } else {
        (x >> k) | (x << ((64 - k) as u64))
    }
}

/// `a` to the power `b`, modulo two to the 64.
pub open spec fn power_wide(a: u64, b: u64) -> u64 {
    (pow(a as int, b as nat) % 0x1_0000_0000_0000_0000) as u64
}

/// The divisor that `b` stands for: zero counts as one, so that no
/// division is by zero.
pub open spec fn divisor_wide(b: u64) -> u64 {
    if b == 0 {
        1
    } else {
        b
    }
}

/// The result of an operation on wide operands `a` and `b`. Unary
/// operations read `b` alone.
pub open spec fn evaluate_wide(op: Operation, a: u64, b: u64) -> u64 {
    match op {
        Operation::Copy => b,
        Operation::Not => !b,
        Operation::Neg => (u64::MAX - b) as u64,
        Operation::Reverse => reversed_wide(b),
        Operation::Numzeros => (64 - ones(b as nat)) as u64,
        Operation::Numones => ones(b as nat) as u64,
        Operation::And => a & b,
        Operation::Or => a | b,
        Operation::Xor => a ^ b,
        Operation::Shl => if b < 64 {
            a << b
        } else {
            0
        },
        Operation::Shlm => a << (b % 64),
        Operation::Shr => if b < 64 {
            a >> b
        } else {
            0
        },
        Operation::Shrm => a >> (b % 64),
        Operation::Rotl => rotated_left_wide(a, b),
        Operation::Rotr => rotated_right_wide(a, b),
        Operation::Addc => if a + b > u64::MAX {
            u64::MAX
        } else {
            (a + b) as u64
        },
        Operation::Addm => ((a + b) % 0x1_0000_0000_0000_0000) as u64,
        Operation::Subc => if a < b {
            0
        } else {
            (a - b) as u64
        },
        Operation::Subm => ((a - b) % 0x1_0000_0000_0000_0000) as u64,
        Operation::Absdiff => if a < b {
            (b - a) as u64
        } else {
            (a - b) as u64
        },
        Operation::Mulc => if a * b > u64::MAX {
            u64::MAX
        } else {
            (a * b) as u64
        },
        Operation::Mulm => ((a * b) % 0x1_0000_0000_0000_0000) as u64,
        Operation::Div => a / divisor_wide(b),
        Operation::Mod => a % divisor_wide(b),
        Operation::Powm => power_wide(a, b),
        Operation::Powc => power_wide(a, b),
        Operation::Gt => if a > b {
            1
        } else {
            0
        },
        Operation::Ge => if a >= b {
            1
        } else {
            0
        },
        Operation::Lt => if a < b {
            1
        } else {
            0
        },
        Operation::Le => if a <= b {
            1
        } else {
            0
        },
        Operation::Eq => if a == b {
            1
        } else {
            0
        },
        Operation::Ne => if a != b {
            1
        } else {
            0
        },
    }
}

/// The divisor that `b` stands for: zero counts as one.
pub fn at_least_one_wide(b: u64) -> (d: u64)
    ensures
        d == divisor_wide(b),
        d > 0,
{
    if b == 0 {
        1
    } else {
        b
    }
}

/// Counts the bits of `x` that are one.
pub fn count_ones_wide(x: u64) -> (r: u64)
    ensures
        r == ones(x as nat),
        r <= 64,
{
    let mut rest: u64 = x;
    let mut count: u64 = 0;
    proof {
        vstd::arithmetic::power2::lemma2_to64();
        lemma_ones_bound(x as nat, 64);
    }
    while rest != 0
        invariant
            count + ones(rest as nat) == ones(x as nat),
            ones(x as nat) <= 64,
        decreases rest,
    {
        count = count + rest % 2;
        rest = rest / 2;
    }
    count
}

/// Reverses the order of the 64 bits of `x`.
pub fn reverse_bits_wide(x: u64) -> (r: u64)
    ensures
        r == reversed_wide(x),
{
    let mut r: u64 = 0;
    let mut i: u64 = 0;
    while i < 64
        invariant
            i <= 64,
            r == mirrored_wide(x, i as nat),
        decreases 64 - i,
    {
        r = r | (((x >> i) & 1) << (63 - i));
        i = i + 1;
    }
    r
}

/// Bit `63 - i` of the reversed word is bit `i` of the word.
pub proof fn lemma_reversed_bit_wide(x: u64, i: u64)
    requires
        i < 64,
    ensures
        (reversed_wide(x) >> ((63 - i) as u64)) & 1 == (x >> i) & 1,
{
    lemma_mirrored_bit_wide(x, 64, i);
}

/// Bit `63 - i` of the word that mirrors the `n` lowest bits of `x` is bit
/// `i` of `x` where `i` is below `n`, and zero elsewhere.
proof fn lemma_mirrored_bit_wide(x: u64, n: nat, i: u64)
    requires
        n <= 64,
        i < 64,
    ensures
        (mirrored_wide(x, n) >> ((63 - i) as u64)) & 1 == if i < n {
            (x >> i) & 1
        } else {
            0
        },
    decreases n,
{
    let p: u64 = (63 - i) as u64;
    if n == 0 {
        assert((0u64 >> p) & 1 == 0) by (bit_vector);
    } else {
        let m: u64 = (n - 1) as u64;
        let q: u64 = (64 - n) as u64;
        let before = mirrored_wide(x, m as nat);
        lemma_mirrored_bit_wide(x, m as nat, i);
        assert(((before | (((x >> m) & 1) << q)) >> p) & 1 == if p == q {
            ((before >> p) & 1) | ((x >> m) & 1)
        } else {
            (before >> p) & 1
        }) by (bit_vector)
            requires
                p < 64,
                q < 64,
        ;
        assert(0 | ((x >> m) & 1) == (x >> m) & 1) by (bit_vector);
    }
}

/// Rotates `x` to the left by `n` bits.
pub fn rotate_left_wide(x: u64, n: u64) -> (r: u64)
    ensures
        r == rotated_left_wide(x, n),
{
    let k = n % 64;
    if k == 0 {
        x
    } else {
        (x << k) | (x >> (64 - k))
    }
}

/// Rotates `x` to the right by `n` bits.
pub fn rotate_right_wide(x: u64, n: u64) -> (r: u64)
    ensures
        r == rotated_right_wide(x, n),
{
    let k = n % 64;
    if k == 0 {
        x
    } else {
        (x >> k) | (x << (64 - k))
    }
}

/// Raises `a` to the power `b`, keeping the 64 low bits of the result.
pub fn wrapping_pow_wide(a: u64, b: u64) -> (r: u64)
    ensures
        r == power_wide(a, b),
{
    let mut base: u64 = a;
    let mut exponent: u64 = b;
    let mut r: u64 = 1;
    proof {
        vstd::arithmetic::power::lemma_pow1(a as int);
    }
    while exponent > 0
        invariant
            (r * pow(base as int, exponent as nat)) % 0x1_0000_0000_0000_0000 == pow(a as int, b as nat)
                % 0x1_0000_0000_0000_0000,
        decreases exponent,
    {
        proof {
            lemma_power_step(r as int, base as int, exponent as nat, 0x1_0000_0000_0000_0000);
        }
        if exponent % 2 == 1 {
            r = r.wrapping_mul(base);
        }
        base = base.wrapping_mul(base);
        exponent = exponent / 2;
    }
    proof {
        vstd::arithmetic::power::lemma_pow0(base as int);
    }
    r
}

} // verus!
