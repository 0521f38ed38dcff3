use rayutils::fixed::{fx_add, fx_div, fx_mul, fx_neg, fx_sqrt, fx_sub, FX_MAX, HALF, ONE, TWO};

#[test]
fn add_and_sub_are_exact_in_range() {
    assert_eq!(fx_add(ONE, HALF), 1_500_000);
    assert_eq!(fx_sub(ONE, HALF), HALF);
    assert_eq!(fx_add(-ONE, ONE), 0);
}

#[test]
fn add_saturates_symmetrically() {
    assert_eq!(fx_add(FX_MAX, FX_MAX), FX_MAX);
    assert_eq!(fx_sub(-FX_MAX, FX_MAX), -FX_MAX);
    assert_eq!(fx_neg(-FX_MAX), FX_MAX);
    assert_eq!(fx_neg(i64::MIN), FX_MAX);
}

#[test]
fn mul_truncates_toward_zero() {
    assert_eq!(fx_mul(HALF, HALF), 250_000);
    assert_eq!(fx_mul(TWO, 300_000), 600_000);
    assert_eq!(fx_mul(-HALF, HALF), -250_000);
    // 0.0000015 * 0.0000015 truncates to zero
    assert_eq!(fx_mul(1, 1), 0);
    assert_eq!(fx_mul(-1, 1), 0);
}

#[test]
fn div_matches_fixed_point_quotients() {
    assert_eq!(fx_div(ONE, TWO), HALF);
    assert_eq!(fx_div(-ONE, TWO), -HALF);
    assert_eq!(fx_div(ONE, -TWO), -HALF);
    assert_eq!(fx_div(1_000_000_000, 3_000_000), 333_333_333);
}

#[test]
fn sqrt_is_exact_on_squares() {
    assert_eq!(fx_sqrt(ONE), ONE);
    assert_eq!(fx_sqrt(4 * ONE), TWO);
    assert_eq!(fx_sqrt(250_000), HALF);
    assert_eq!(fx_sqrt(0), 0);
    assert_eq!(fx_sqrt(-ONE), 0);
}

#[test]
fn sqrt_rounds_down() {
    // sqrt(2) = 1.414213...
    assert_eq!(fx_sqrt(TWO), 1_414_213);
}
