// The fixed-point scalar kernel: one raw unit is 1/65536.

use cyclone::fixed::{exp_neg, fdiv, fmul, fpow, fsqrt, isqrt_u128, SCALE};

#[test]
fn fmul_rounds_toward_zero() {
    assert_eq!(fmul(3 * SCALE, 2 * SCALE), 6 * SCALE);
    assert_eq!(fmul(SCALE / 2, SCALE / 2), SCALE / 4);
    assert_eq!(fmul(-3 * SCALE, 2 * SCALE), -6 * SCALE);
    // 1/3 * 3 rounds down by the residue of 1/3 itself
    assert_eq!(fmul(21845, 3 * SCALE), 65535);
    assert_eq!(fmul(-21845, 3 * SCALE), -65535);
}

#[test]
fn fdiv_rounds_toward_zero() {
    assert_eq!(fdiv(6 * SCALE, 2 * SCALE), 3 * SCALE);
    assert_eq!(fdiv(SCALE, 3 * SCALE), 21845);
    assert_eq!(fdiv(-SCALE, 3 * SCALE), -21845);
    assert_eq!(fdiv(SCALE, -3 * SCALE), -21845);
}

#[test]
fn isqrt_brackets() {
    assert_eq!(isqrt_u128(0), 0);
    assert_eq!(isqrt_u128(1), 1);
    assert_eq!(isqrt_u128(3), 1);
    assert_eq!(isqrt_u128(4), 2);
    assert_eq!(isqrt_u128(1_000_000), 1000);
    assert_eq!(isqrt_u128((1u128 << 64) - 1), (1u128 << 32) - 1);
}

#[test]
fn fsqrt_exact_squares() {
    assert_eq!(fsqrt(4 * SCALE), 2 * SCALE);
    assert_eq!(fsqrt(SCALE), SCALE);
    assert_eq!(fsqrt(SCALE / 4), SCALE / 2);
    assert_eq!(fsqrt(0), 0);
}

#[test]
fn fpow_one_is_identity_base() {
    assert_eq!(fpow(SCALE, SCALE), SCALE);
    assert_eq!(fpow(SCALE, 10 * SCALE), SCALE);
    assert_eq!(fpow(SCALE, SCALE / 2), SCALE);
}

#[test]
fn fpow_whole_and_fractional_exponents() {
    // 0.5^2 = 0.25
    assert_eq!(fpow(SCALE / 2, 2 * SCALE), SCALE / 4);
    // 0.25^0.5 = 0.5
    assert_eq!(fpow(SCALE / 4, SCALE / 2), SCALE / 2);
    // 0^t = 0 for positive t
    assert_eq!(fpow(0, SCALE), 0);
}

#[test]
fn exp_neg_values() {
    assert_eq!(exp_neg(0), SCALE);
    // e^-1 on the grid
    assert_eq!(exp_neg(-SCALE), 24109);
    // decreasing in the exponent's size
    assert!(exp_neg(-2 * SCALE) < exp_neg(-SCALE));
}
