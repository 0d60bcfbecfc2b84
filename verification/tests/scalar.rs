use gep_toolkit::scalar::{Scalar, MAX_BITS, ZERO_BITS};

fn num(x: f64) -> Scalar {
    Scalar::from_bits(x.to_bits())
}

fn float(s: Scalar) -> f64 {
    f64::from_bits(s.to_bits())
}

#[test]
fn bit_patterns_of_zero_and_max() {
    assert_eq!(ZERO_BITS, 0.0_f64.to_bits());
    assert_eq!(MAX_BITS, f64::MAX.to_bits());
    assert_eq!(float(Scalar::zero()), 0.0);
    assert_eq!(float(Scalar::max()), f64::MAX);
}

#[test]
fn classification_agrees_with_floats() {
    let samples = [
        0.0,
        -0.0,
        1.0,
        -1.5,
        f64::MAX,
        f64::MIN,
        f64::MIN_POSITIVE,
        f64::EPSILON,
        5e-324,
        f64::INFINITY,
        f64::NEG_INFINITY,
        f64::NAN,
        -f64::NAN,
        0.0 / 0.0,
        1.0 / 0.0,
        -1.0 / 0.0,
    ];
    for x in samples {
        assert_eq!(num(x).is_nan(), x.is_nan());
        assert_eq!(num(x).is_infinite(), x.is_infinite());
        assert_eq!(num(x).is_finite(), x.is_finite());
    }
    assert!(Scalar::from_bits(0x7ff0_0000_0000_0001).is_nan());
    assert!(Scalar::from_bits(0xffff_ffff_ffff_ffff).is_nan());
}

#[test]
fn infinite_becomes_max() {
    assert_eq!(float(num(1.0 / 0.0).sanitized()), f64::MAX);
    assert_eq!(float(num(-1.0 / 0.0).sanitized()), f64::MAX);
}

#[test]
fn nan_becomes_zero() {
    let zero = num(0.0 / 0.0).sanitized();
    assert_eq!(zero.to_bits(), 0);
    assert_eq!(float(zero), 0.0);
}

#[test]
fn finite_numbers_stay() {
    for x in [0.0, -0.0, 1.0, -26.0, 2100.0, f64::MAX, f64::MIN, 5e-324] {
        assert_eq!(num(x).sanitized(), num(x));
        assert!(num(x).sanitized().is_finite());
    }
}
