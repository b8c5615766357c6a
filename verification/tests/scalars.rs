use boids::fixp::{div_count, fmul, isqrt, mul_div, sat_add, sat_sub};

#[test]
fn saturating_sum_and_difference() {
    assert_eq!(sat_add(2, 3), 5);
    assert_eq!(sat_add(i64::MAX, 1), i64::MAX);
    assert_eq!(sat_add(i64::MIN, -1), i64::MIN);
    assert_eq!(sat_sub(2, 5), -3);
    assert_eq!(sat_sub(i64::MIN, 1), i64::MIN);
    assert_eq!(sat_sub(i64::MAX, -1), i64::MAX);
}

#[test]
fn fixed_point_product_rescales_and_truncates_toward_zero() {
    // 2.0 * 0.5 = 1.0
    assert_eq!(fmul(20000, 5000), 10000);
    // 0.0003 * 0.0005 truncates to zero
    assert_eq!(fmul(3, 5), 0);
    // truncation is toward zero for negative products
    assert_eq!(fmul(-3, 5), 0);
    assert_eq!(fmul(-20000, 5000), -10000);
    // saturation at the representation's bounds
    assert_eq!(fmul(i64::MAX, i64::MAX), i64::MAX);
    assert_eq!(fmul(i64::MAX, i64::MIN), i64::MIN);
}

#[test]
fn ratio_scaling_truncates_toward_zero() {
    assert_eq!(mul_div(40000, 30000, 40000), 30000);
    assert_eq!(mul_div(-40000, 30000, 40000), -30000);
    assert_eq!(mul_div(7, 3, 2), 10);
    assert_eq!(mul_div(-7, 3, 2), -10);
}

#[test]
fn count_division_truncates_toward_zero() {
    assert_eq!(div_count(7, 2), 3);
    assert_eq!(div_count(-7, 2), -3);
    assert_eq!(div_count(0, 5), 0);
}

#[test]
fn integer_square_root() {
    assert_eq!(isqrt(0), 0);
    assert_eq!(isqrt(1), 1);
    assert_eq!(isqrt(99), 9);
    assert_eq!(isqrt(100), 10);
    assert_eq!(isqrt(2500000000), 50000);
    assert_eq!(isqrt(u128::from(u64::MAX)), 4294967295);
}
