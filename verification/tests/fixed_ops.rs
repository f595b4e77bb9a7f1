use rkf45::fixed::{
    fx_add, fx_div, fx_div_sat, fx_mul, fx_mul_sat, fx_neg, fx_root5, fx_sqrt, fx_sub, isqrt_u128,
    SCALE,
};

#[test]
fn scale_is_two_to_the_32() {
    assert_eq!(SCALE, 4294967296);
}

#[test]
fn add_sub_neg_exact() {
    assert_eq!(fx_add(1, 2), Some(3));
    assert_eq!(fx_add(i64::MAX, 1), None);
    assert_eq!(fx_sub(1, 2), Some(-1));
    assert_eq!(fx_sub(i64::MIN, 1), None);
    assert_eq!(fx_neg(5), Some(-5));
    assert_eq!(fx_neg(i64::MIN), None);
}

#[test]
fn mul_rounds_toward_negative_infinity() {
    // 1.5 * 0.2 in Q32.32: the exact product is just below 0.3
    assert_eq!(fx_mul(6442450944, 858993459), Some(1288490188));
    assert_eq!(fx_mul(-6442450944, 858993459), Some(-1288490189));
    // 0.5 * 0.5 is exact
    assert_eq!(fx_mul(2147483648, 2147483648), Some(1073741824));
    // overflow of the scaled product
    assert_eq!(fx_mul(i64::MAX, i64::MAX), None);
}

#[test]
fn div_exact_and_by_zero() {
    // 1 / 3
    assert_eq!(fx_div(4294967296, 12884901888), Some(1431655765));
    assert_eq!(fx_div(4294967296, 0), None);
    // quotient too large for the representation
    assert_eq!(fx_div(i64::MAX, 1), None);
}

#[test]
fn sqrt_exact() {
    // sqrt(2) and sqrt(4) in Q32.32
    assert_eq!(fx_sqrt(8589934592), 6074000999);
    assert_eq!(fx_sqrt(17179869184), 8589934592);
    assert_eq!(fx_sqrt(0), 0);
}

#[test]
fn saturating_ops_clamp_at_the_top() {
    // 1.0 / 2.0 is exact and far from the clamp
    assert_eq!(fx_div_sat(4294967296, 8589934592), 2147483648);
    assert_eq!(fx_div_sat(i64::MAX, 1), i64::MAX);
    // 1.5 * 2.0 is exact
    assert_eq!(fx_mul_sat(6442450944, 8589934592), 12884901888);
    assert_eq!(fx_mul_sat(i64::MAX, i64::MAX), i64::MAX);
}

#[test]
fn wide_integer_square_root() {
    assert_eq!(isqrt_u128(0), 0);
    assert_eq!(isqrt_u128(15), 3);
    assert_eq!(isqrt_u128(16), 4);
    assert_eq!(isqrt_u128(u128::MAX), 18446744073709551615);
}

#[test]
fn fifth_root_exact() {
    // 32^(1/5) == 2 exactly in the floored chain
    assert_eq!(fx_root5(137438953472), 8589934592);
    // 1^(1/5) == 1
    assert_eq!(fx_root5(4294967296), 4294967296);
    // the floored fifth power is zero on a long prefix, whose top this is
    assert_eq!(fx_root5(0), 50943144);
}
