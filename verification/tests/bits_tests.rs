use h5o3::fbits::{
    gt_float, is_finite_val, is_nan_val, is_zero_val, le_float, leq_bits, lt_float, NEG_ZERO,
    POS_ZERO, QUIET_NAN,
};

#[test]
fn classification_of_common_patterns() {
    assert!(is_finite_val(0.0f64.to_bits()));
    assert!(is_finite_val((-0.0f64).to_bits()));
    assert!(is_finite_val(1.5f64.to_bits()));
    assert!(is_finite_val(f64::MIN_POSITIVE.to_bits()));
    assert!(!is_finite_val(f64::INFINITY.to_bits()));
    assert!(!is_finite_val(f64::NEG_INFINITY.to_bits()));
    assert!(!is_finite_val(f64::NAN.to_bits()));
    assert!(is_nan_val(f64::NAN.to_bits()));
    assert!(!is_nan_val(f64::INFINITY.to_bits()));
    assert!(is_zero_val(POS_ZERO));
    assert!(is_zero_val(NEG_ZERO));
    assert!(!is_zero_val(1.0f64.to_bits()));
    assert!(is_nan_val(QUIET_NAN));
    assert!(f64::from_bits(QUIET_NAN).is_nan());
    assert_eq!(POS_ZERO, 0.0f64.to_bits());
    assert_eq!(NEG_ZERO, (-0.0f64).to_bits());
}

#[test]
fn value_order_matches_float_comparison() {
    let samples = [
        f64::NEG_INFINITY,
        -100.25,
        -1.0,
        -f64::MIN_POSITIVE,
        -0.0,
        0.0,
        f64::MIN_POSITIVE,
        0.5,
        1.0,
        3.5e300,
        f64::INFINITY,
    ];
    for &x in samples.iter() {
        for &y in samples.iter() {
            assert_eq!(le_float(x.to_bits(), y.to_bits()), x <= y);
            assert_eq!(lt_float(x.to_bits(), y.to_bits()), x < y);
            assert_eq!(gt_float(x.to_bits(), y.to_bits()), x > y);
        }
    }
}

#[test]
fn value_order_rejects_nan_on_either_side() {
    let nan = f64::NAN.to_bits();
    let one = 1.0f64.to_bits();
    assert!(!le_float(nan, one));
    assert!(!le_float(one, nan));
    assert!(!lt_float(nan, nan));
    assert!(!gt_float(nan, one));
    assert!(!gt_float(one, nan));
}

#[test]
fn zeros_compare_equal_in_the_value_order() {
    assert!(le_float(POS_ZERO, NEG_ZERO));
    assert!(le_float(NEG_ZERO, POS_ZERO));
    assert!(!lt_float(POS_ZERO, NEG_ZERO));
    assert!(!gt_float(POS_ZERO, NEG_ZERO));
}

#[test]
fn sort_order_is_total_on_non_finite_patterns() {
    // every positive not-a-number pattern sorts above positive infinity
    assert!(leq_bits(f64::INFINITY.to_bits(), f64::NAN.to_bits()));
    assert!(!leq_bits(f64::NAN.to_bits(), f64::INFINITY.to_bits()));
    // and below it every finite value
    assert!(leq_bits(1.0e308f64.to_bits(), f64::NAN.to_bits()));
    // a negative not-a-number sorts below negative infinity
    let neg_nan = f64::NAN.to_bits() | 0x8000_0000_0000_0000;
    assert!(leq_bits(neg_nan, f64::NEG_INFINITY.to_bits()));
    // reflexive and antisymmetric on equal keys
    assert!(leq_bits(POS_ZERO, NEG_ZERO) != leq_bits(NEG_ZERO, POS_ZERO));
    assert!(leq_bits(POS_ZERO, POS_ZERO));
}

#[test]
fn sort_order_agrees_with_total_cmp_on_ordinary_values() {
    let samples = [-2.0f64, -0.5, 0.0, 0.25, 7.0, f64::INFINITY, f64::NEG_INFINITY];
    for &x in samples.iter() {
        for &y in samples.iter() {
            let expected = x.total_cmp(&y) != std::cmp::Ordering::Greater;
            assert_eq!(leq_bits(x.to_bits(), y.to_bits()), expected);
        }
    }
}
