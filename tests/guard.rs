use shapira_fp::{below_threshold, DENOMINATOR_EPSILON, TAN_EPSILON};

#[test]
fn thresholds_are_one_trillionth() {
    assert_eq!(f64::from_bits(TAN_EPSILON), 1e-12);
    assert_eq!(f64::from_bits(DENOMINATOR_EPSILON), 1e-12);
}

#[test]
fn zero_of_either_sign_is_below() {
    assert!(below_threshold(0.0f64.to_bits(), TAN_EPSILON));
    assert!(below_threshold((-0.0f64).to_bits(), TAN_EPSILON));
}

#[test]
fn small_values_of_either_sign_are_below() {
    assert!(below_threshold(1e-13f64.to_bits(), TAN_EPSILON));
    assert!(below_threshold((-9.99e-13f64).to_bits(), DENOMINATOR_EPSILON));
    assert!(below_threshold(f64::MIN_POSITIVE.to_bits(), TAN_EPSILON));
    assert!(below_threshold((5e-324f64).to_bits(), TAN_EPSILON));
}

#[test]
fn the_limit_itself_is_not_below() {
    assert!(!below_threshold(1e-12f64.to_bits(), TAN_EPSILON));
    assert!(!below_threshold((-1e-12f64).to_bits(), TAN_EPSILON));
}

#[test]
fn neighbours_of_the_limit() {
    let up = f64::from_bits(TAN_EPSILON + 1);
    let down = f64::from_bits(TAN_EPSILON - 1);
    assert!(!below_threshold(up.to_bits(), TAN_EPSILON));
    assert!(below_threshold(down.to_bits(), TAN_EPSILON));
    assert!(below_threshold((-down).to_bits(), TAN_EPSILON));
}

#[test]
fn larger_values_are_not_below() {
    // tan(0.0001 degrees), far above the limit
    let t = 0.0001f64.to_radians().tan();
    assert!(!below_threshold(t.to_bits(), TAN_EPSILON));
    assert!(!below_threshold(42.86250f64.to_bits(), DENOMINATOR_EPSILON));
    assert!(!below_threshold((-1.0f64).to_bits(), DENOMINATOR_EPSILON));
    assert!(!below_threshold(f64::MAX.to_bits(), DENOMINATOR_EPSILON));
}

#[test]
fn infinities_and_nan_are_not_below() {
    assert!(!below_threshold(f64::INFINITY.to_bits(), TAN_EPSILON));
    assert!(!below_threshold(f64::NEG_INFINITY.to_bits(), TAN_EPSILON));
    assert!(!below_threshold(f64::NAN.to_bits(), DENOMINATOR_EPSILON));
    assert!(!below_threshold((-f64::NAN).to_bits(), DENOMINATOR_EPSILON));
}

#[test]
fn agrees_with_float_comparison() {
    let limit = f64::from_bits(TAN_EPSILON);
    let samples = [
        0.0, -0.0, 1e-300, -3e-15, 7.5e-13, 1e-12, 1.0000001e-12, 2e-12, 1.0, -1e-3, 1e300,
        f64::INFINITY, f64::NAN,
    ];
    for &x in samples.iter() {
        assert_eq!(below_threshold(x.to_bits(), TAN_EPSILON), x.abs() < limit);
    }
}
