//! The fixed-point scalar layer: exact products, quotients, remainders
//! and interpolation steps.

use cal3d::scalar::{fp_add, fp_blend, fp_clamp01, fp_div, fp_mul, fp_rem, fp_sub, FP_ONE};

#[test]
fn products_rescale_and_truncate() {
    // 0.5 * 0.5 = 0.25
    assert_eq!(fp_mul(500_000, 500_000), 250_000);
    // 1.0 is the unit
    assert_eq!(fp_mul(FP_ONE, 123_456), 123_456);
    assert_eq!(fp_mul(123_456, FP_ONE), 123_456);
    // truncation is toward zero for both signs
    assert_eq!(fp_mul(1, 1), 0);
    assert_eq!(fp_mul(-1, 1), 0);
    assert_eq!(fp_mul(-1_500_000, 333_333), -499_999);
}

#[test]
fn quotients_rescale_and_truncate() {
    assert_eq!(fp_div(250_000, 500_000), 500_000);
    assert_eq!(fp_div(1_000_000, 3_000_000), 333_333);
    assert_eq!(fp_div(-1_000_000, 3_000_000), -333_333);
}

#[test]
fn sums_saturate_instead_of_wrapping() {
    assert_eq!(fp_add(i64::MAX, 1), i64::MAX);
    assert_eq!(fp_sub(i64::MIN, 1), i64::MIN);
    assert_eq!(fp_add(2_000_000, 3_000_000), 5_000_000);
}

#[test]
fn remainder_follows_the_dividend() {
    assert_eq!(fp_rem(5_500_000, 2_000_000), 1_500_000);
    assert_eq!(fp_rem(-5_500_000, 2_000_000), -1_500_000);
}

#[test]
fn lerp_is_exact_on_exact_fractions() {
    // halfway from 0 to 1
    assert_eq!(fp_blend(0, 500_000, FP_ONE), 500_000);
    // a quarter of the way from 2 to 6
    assert_eq!(fp_blend(2_000_000, 250_000, 6_000_000), 3_000_000);
    // zero fraction is the start, unit fraction is the target
    assert_eq!(fp_blend(777, 0, 999_999), 777);
    assert_eq!(fp_blend(777, FP_ONE, 999_999), 999_999);
}

#[test]
fn clamp_into_the_unit_interval() {
    assert_eq!(fp_clamp01(-5), 0);
    assert_eq!(fp_clamp01(250_000), 250_000);
    assert_eq!(fp_clamp01(2_000_000), FP_ONE);
}
