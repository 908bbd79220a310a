use insights_core::validation::{
    validate_corridor_filters, validate_filter, FilterParam, ValidationFailure,
    SUCCESS_RATE_MAX_BITS, VOLUME_MAX_BITS, ZERO_BITS,
};

fn check(
    success_rate_min: Option<f64>,
    success_rate_max: Option<f64>,
    volume_min: Option<f64>,
    volume_max: Option<f64>,
) -> Result<(), ValidationFailure> {
    validate_corridor_filters(
        success_rate_min.map(f64::to_bits),
        success_rate_max.map(f64::to_bits),
        volume_min.map(f64::to_bits),
        volume_max.map(f64::to_bits),
    )
}

#[test]
fn test_validate_corridor_filters_ok() {
    assert!(check(Some(95.0), Some(100.0), Some(1e5), Some(1e7)).is_ok());
    assert!(check(None, None, None, None).is_ok());
    assert!(check(Some(0.0), Some(100.0), Some(0.0), None).is_ok());
}

#[test]
fn test_validate_corridor_filters_nan() {
    assert!(check(Some(f64::NAN), None, None, None).is_err());
    assert!(check(None, Some(f64::NAN), None, None).is_err());
    assert!(check(None, None, Some(f64::NAN), None).is_err());
    assert!(check(None, None, None, Some(f64::NAN)).is_err());
}

#[test]
fn test_validate_corridor_filters_infinity() {
    assert!(check(Some(f64::INFINITY), None, None, None).is_err());
    assert!(check(None, None, Some(f64::NEG_INFINITY), None).is_err());
}

#[test]
fn test_validate_corridor_filters_negative() {
    assert!(check(Some(-1.0), None, None, None).is_err());
    assert!(check(None, None, Some(-100.0), None).is_err());
}

#[test]
fn test_validate_corridor_filters_success_rate_range() {
    assert!(check(Some(101.0), None, None, None).is_err());
    assert!(check(None, Some(150.0), None, None).is_err());
}

#[test]
fn test_validate_corridor_filters_min_max_order() {
    assert!(check(Some(100.0), Some(95.0), None, None).is_err());
    assert!(check(None, None, Some(1e7), Some(1e5)).is_err());
}

#[test]
fn range_constants_encode_the_documented_bounds() {
    assert_eq!(ZERO_BITS, 0.0f64.to_bits());
    assert_eq!(SUCCESS_RATE_MAX_BITS, 100.0f64.to_bits());
    assert_eq!(VOLUME_MAX_BITS, 1e18f64.to_bits());
}

#[test]
fn failures_name_the_parameter_and_the_value() {
    assert_eq!(
        check(Some(f64::NAN), None, None, None),
        Err(ValidationFailure::NotFinite { param: FilterParam::SuccessRateMin, nan: true })
    );
    assert_eq!(
        check(None, None, Some(f64::NEG_INFINITY), None),
        Err(ValidationFailure::NotFinite { param: FilterParam::VolumeMin, nan: false })
    );
    assert_eq!(
        check(None, Some(150.0), None, None),
        Err(ValidationFailure::OutOfRange {
            param: FilterParam::SuccessRateMax,
            value: 150.0f64.to_bits()
        })
    );
    assert_eq!(
        check(None, None, Some(1e7), Some(1e5)),
        Err(ValidationFailure::MinAboveMax {
            min: FilterParam::VolumeMin,
            max: FilterParam::VolumeMax
        })
    );
}

#[test]
fn first_broken_rule_wins() {
    assert_eq!(
        check(Some(100.0), Some(95.0), Some(-1.0), None),
        Err(ValidationFailure::OutOfRange { param: FilterParam::VolumeMin, value: (-1.0f64).to_bits() })
    );
    assert_eq!(
        check(Some(100.0), Some(95.0), Some(2.0), Some(1.0)),
        Err(ValidationFailure::MinAboveMax {
            min: FilterParam::SuccessRateMin,
            max: FilterParam::SuccessRateMax
        })
    );
}

#[test]
fn boundaries_are_inclusive_and_zeros_are_equal() {
    assert!(check(Some(0.0), Some(0.0), Some(1e18), Some(1e18)).is_ok());
    assert!(check(Some(-0.0), Some(0.0), Some(0.0), Some(-0.0)).is_ok());
    assert!(check(None, None, Some(1.0000000000000002e18), None).is_err());
    assert!(check(Some(100.00000000000001), None, None, None).is_err());
    assert!(check(Some(f64::MIN_POSITIVE), Some(5e-324), None, None).is_err());
    assert!(check(Some(5e-324), Some(f64::MIN_POSITIVE), None, None).is_ok());
}

#[test]
fn verdict_agrees_with_float_comparison() {
    let samples = [
        -1e300, -100.0, -1.0, -5e-324, -0.0, 0.0, 5e-324, 0.5, 1.0, 94.99, 95.0, 99.999, 100.0,
        100.5, 1e5, 1e7, 1e17, 1e18, 1e19, f64::MAX,
    ];
    for &v in samples.iter() {
        let expected = v >= 0.0 && v <= 100.0;
        let got = validate_filter(
            Some(v.to_bits()),
            ZERO_BITS,
            SUCCESS_RATE_MAX_BITS,
            FilterParam::SuccessRateMin,
        );
        assert_eq!(got.is_ok(), expected, "value {}", v);
        for &w in samples.iter() {
            let both_valid = v >= 0.0 && v <= 1e18 && w >= 0.0 && w <= 1e18;
            let verdict = check(None, None, Some(v), Some(w));
            assert_eq!(verdict.is_ok(), both_valid && v <= w, "pair {} {}", v, w);
        }
    }
}
