use lemurs::instruction::Operation;
use lemurs::machine::Machine;

fn eval(op: Operation, a: u32, b: u32) -> u32 {
    Machine::evaluate_operation(op, a, b)
}

fn eval_wide(op: Operation, a: u64, b: u64) -> u64 {
    Machine::evaluate_operation_wide(op, a, b)
}

#[test]
fn saturating_and_wrapping_addition() {
    assert_eq!(eval(Operation::Addc, 0xFFFF_FFFF, 1), 0xFFFF_FFFF);
    assert_eq!(eval(Operation::Addm, 0xFFFF_FFFF, 1), 0);
    assert_eq!(eval(Operation::Addc, 2, 3), 5);
    assert_eq!(eval(Operation::Addm, 2, 3), 5);
    assert_eq!(eval_wide(Operation::Addc, u64::MAX, 1), u64::MAX);
    assert_eq!(eval_wide(Operation::Addm, u64::MAX, 2), 1);
}

#[test]
fn checked_and_masked_shifts() {
    assert_eq!(eval(Operation::Shl, 1, 32), 0);
    assert_eq!(eval(Operation::Shlm, 1, 32), 1);
    assert_eq!(eval(Operation::Shl, 1, 31), 0x8000_0000);
    assert_eq!(eval(Operation::Shl, 3, 31), 0x8000_0000);
    assert_eq!(eval(Operation::Shr, 0x8000_0000, 31), 1);
    assert_eq!(eval(Operation::Shr, 0x8000_0000, 32), 0);
    assert_eq!(eval(Operation::Shrm, 0x8000_0000, 33), 0x4000_0000);
    assert_eq!(eval(Operation::Shlm, 1, 33), 2);
    assert_eq!(eval_wide(Operation::Shl, 1, 63), 0x8000_0000_0000_0000);
    assert_eq!(eval_wide(Operation::Shl, 1, 64), 0);
    assert_eq!(eval_wide(Operation::Shl, 1, 1 << 32), 0);
    assert_eq!(eval_wide(Operation::Shr, u64::MAX, 1 << 40), 0);
    assert_eq!(eval_wide(Operation::Shlm, 1, 64), 1);
    assert_eq!(eval_wide(Operation::Shrm, 4, 65), 2);
}

#[test]
fn division_by_zero_divides_by_one() {
    assert_eq!(eval(Operation::Div, 10, 0), 10);
    assert_eq!(eval(Operation::Mod, 10, 0), 0);
    assert_eq!(eval(Operation::Div, 10, 3), 3);
    assert_eq!(eval(Operation::Mod, 10, 3), 1);
    assert_eq!(eval_wide(Operation::Div, 10, 0), 10);
    assert_eq!(eval_wide(Operation::Mod, 10, 4), 2);
}

#[test]
fn rotations() {
    assert_eq!(eval(Operation::Rotl, 0x8000_0000, 1), 1);
    assert_eq!(eval(Operation::Rotr, 1, 1), 0x8000_0000);
    assert_eq!(eval(Operation::Rotl, 0x1234_5678, 32), 0x1234_5678);
    assert_eq!(eval(Operation::Rotl, 0x1234_5678, 36), 0x2345_6781);
    assert_eq!(eval(Operation::Rotr, 0x1234_5678, 4), 0x8123_4567);
    assert_eq!(eval_wide(Operation::Rotl, 0x8000_0000_0000_0000, 1), 1);
    assert_eq!(eval_wide(Operation::Rotr, 1, 65), 0x8000_0000_0000_0000);
}

#[test]
fn unary_operations_read_the_second_operand() {
    assert_eq!(eval(Operation::Copy, 1, 2), 2);
    assert_eq!(eval(Operation::Not, 1, 0x0F0F_0F0F), 0xF0F0_F0F0);
    assert_eq!(eval(Operation::Neg, 1, 5), 0xFFFF_FFFA);
    assert_eq!(eval(Operation::Reverse, 7, 1), 0x8000_0000);
    assert_eq!(eval(Operation::Reverse, 7, 0x0000_00F1), 0x8F00_0000);
    assert_eq!(eval(Operation::Numones, 7, 0xF0F0), 8);
    assert_eq!(eval(Operation::Numzeros, 7, 0xF0F0), 24);
    assert_eq!(eval(Operation::Numzeros, 7, 0), 32);
    assert_eq!(eval(Operation::Numones, 7, u32::MAX), 32);
    assert_eq!(eval_wide(Operation::Neg, 1, 5), u64::MAX - 5);
    assert_eq!(eval_wide(Operation::Reverse, 7, 1), 0x8000_0000_0000_0000);
    assert_eq!(eval_wide(Operation::Numones, 7, u64::MAX), 64);
    assert_eq!(eval_wide(Operation::Numzeros, 7, 1), 63);
}

#[test]
fn operations_agree_with_the_integer_methods() {
    let samples: [u32; 9] = [0, 1, 2, 3, 31, 32, 0x8000_0000, 0xDEAD_BEEF, u32::MAX];
    for &a in samples.iter() {
        for &b in samples.iter() {
            assert_eq!(eval(Operation::Reverse, a, b), b.reverse_bits());
            assert_eq!(eval(Operation::Numones, a, b), b.count_ones());
            assert_eq!(eval(Operation::Numzeros, a, b), b.count_zeros());
            assert_eq!(eval(Operation::Not, a, b), !b);
            assert_eq!(eval(Operation::And, a, b), a & b);
            assert_eq!(eval(Operation::Or, a, b), a | b);
            assert_eq!(eval(Operation::Xor, a, b), a ^ b);
            assert_eq!(eval(Operation::Shl, a, b), a.checked_shl(b).unwrap_or(0));
            assert_eq!(eval(Operation::Shr, a, b), a.checked_shr(b).unwrap_or(0));
            assert_eq!(eval(Operation::Shlm, a, b), a.wrapping_shl(b));
            assert_eq!(eval(Operation::Shrm, a, b), a.wrapping_shr(b));
            assert_eq!(eval(Operation::Rotl, a, b), a.rotate_left(b));
            assert_eq!(eval(Operation::Rotr, a, b), a.rotate_right(b));
            assert_eq!(eval(Operation::Addc, a, b), a.saturating_add(b));
            assert_eq!(eval(Operation::Addm, a, b), a.wrapping_add(b));
            assert_eq!(eval(Operation::Subc, a, b), a.saturating_sub(b));
            assert_eq!(eval(Operation::Subm, a, b), a.wrapping_sub(b));
            assert_eq!(eval(Operation::Absdiff, a, b), a.abs_diff(b));
            assert_eq!(eval(Operation::Mulc, a, b), a.saturating_mul(b));
            assert_eq!(eval(Operation::Mulm, a, b), a.wrapping_mul(b));
            assert_eq!(eval(Operation::Div, a, b), a / b.max(1));
            assert_eq!(eval(Operation::Mod, a, b), a % b.max(1));
            assert_eq!(eval(Operation::Powm, a, b), a.wrapping_pow(b));
            assert_eq!(eval(Operation::Powc, a, b), a.wrapping_pow(b));
            assert_eq!(eval(Operation::Gt, a, b), (a > b) as u32);
            assert_eq!(eval(Operation::Ge, a, b), (a >= b) as u32);
            assert_eq!(eval(Operation::Lt, a, b), (a < b) as u32);
            assert_eq!(eval(Operation::Le, a, b), (a <= b) as u32);
            assert_eq!(eval(Operation::Eq, a, b), (a == b) as u32);
            assert_eq!(eval(Operation::Ne, a, b), (a != b) as u32);
        }
    }
}

#[test]
fn wide_operations_agree_with_the_integer_methods() {
    let samples: [u64; 9] = [0, 1, 2, 3, 63, 64, 0x8000_0000_0000_0000, 0xDEAD_BEEF_0BAD_F00D, u64::MAX];
    for &a in samples.iter() {
        for &b in samples.iter() {
            assert_eq!(eval_wide(Operation::Reverse, a, b), b.reverse_bits());
            assert_eq!(eval_wide(Operation::Numones, a, b), b.count_ones() as u64);
            assert_eq!(eval_wide(Operation::Numzeros, a, b), b.count_zeros() as u64);
            assert_eq!(eval_wide(Operation::Not, a, b), !b);
            assert_eq!(eval_wide(Operation::Shlm, a, b), a.wrapping_shl(b as u32));
            assert_eq!(eval_wide(Operation::Shrm, a, b), a.wrapping_shr(b as u32));
            assert_eq!(eval_wide(Operation::Rotl, a, b), a.rotate_left(b as u32));
            assert_eq!(eval_wide(Operation::Rotr, a, b), a.rotate_right(b as u32));
            assert_eq!(eval_wide(Operation::Addc, a, b), a.saturating_add(b));
            assert_eq!(eval_wide(Operation::Addm, a, b), a.wrapping_add(b));
            assert_eq!(eval_wide(Operation::Subc, a, b), a.saturating_sub(b));
            assert_eq!(eval_wide(Operation::Subm, a, b), a.wrapping_sub(b));
            assert_eq!(eval_wide(Operation::Absdiff, a, b), a.abs_diff(b));
            assert_eq!(eval_wide(Operation::Mulc, a, b), a.saturating_mul(b));
            assert_eq!(eval_wide(Operation::Mulm, a, b), a.wrapping_mul(b));
            assert_eq!(eval_wide(Operation::Div, a, b), a / b.max(1));
            assert_eq!(eval_wide(Operation::Mod, a, b), a % b.max(1));
            assert_eq!(eval_wide(Operation::Eq, a, b), (a == b) as u64);
            assert_eq!(eval_wide(Operation::Lt, a, b), (a < b) as u64);
        }
    }
}

#[test]
fn both_powers_wrap() {
    assert_eq!(eval(Operation::Powm, 2, 31), 0x8000_0000);
    assert_eq!(eval(Operation::Powm, 2, 32), 0);
    assert_eq!(eval(Operation::Powc, 2, 32), 0);
    assert_eq!(eval(Operation::Powm, 3, 21), 1_870_418_611);
    assert_eq!(eval(Operation::Powc, 3, 21), 1_870_418_611);
    assert_eq!(eval(Operation::Powm, 0, 0), 1);
    assert_eq!(eval(Operation::Powm, 7, 1), 7);
    assert_eq!(eval_wide(Operation::Powm, 2, 63), 0x8000_0000_0000_0000);
    assert_eq!(eval_wide(Operation::Powc, 2, 64), 0);
    assert_eq!(eval_wide(Operation::Powm, 3, 41), 3u64.wrapping_pow(41));
    // The exponent of a wide power is all of the second operand.
    assert_eq!(eval_wide(Operation::Powm, 1, 1 << 40), 1);
    assert_eq!(eval_wide(Operation::Powm, 2, 1 << 40), 0);
    assert_eq!(
        eval_wide(Operation::Powc, 3, (1 << 32) + 1),
        3u64.wrapping_pow(1 << 31).wrapping_mul(3u64.wrapping_pow(1 << 31)).wrapping_mul(3)
    );
}
