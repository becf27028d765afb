//! The bit-pattern model of doubles against real `f64` behaviour.

use tui_calculator::value::{ComplexNumber, Real, StackValue, MILLION_BITS, TWO_POW_63_BITS};
use tui_calculator::value::f64_bits_of_i64;

fn dbl(f: f64) -> Real {
    Real::from_bits(f.to_bits())
}

#[test]
fn constants_match_doubles() {
    assert_eq!(MILLION_BITS, 1.0e6f64.to_bits());
    assert_eq!(TWO_POW_63_BITS, (i64::MAX as f64).to_bits());
    assert_eq!(TWO_POW_63_BITS, 9223372036854775808.0f64.to_bits());
}

#[test]
fn is_zero_matches_zero_comparison() {
    for f in [0.0, -0.0, 1.0, -1.0, f64::NAN, f64::INFINITY, 5e-324] {
        assert_eq!(dbl(f).is_zero(), f == 0.0, "for {f}");
    }
}

#[test]
fn negated_matches_float_negation() {
    for f in [0.0, -0.0, 1.5, -2.25, 1e300, f64::INFINITY, 5e-324] {
        assert_eq!(dbl(f).negated().to_bits(), (-f).to_bits(), "for {f}");
    }
}

#[test]
fn ge_zero_matches_comparison() {
    for f in [0.0, -0.0, 1.0, -1.0, f64::NAN, f64::INFINITY, f64::NEG_INFINITY] {
        assert_eq!(dbl(f).ge_zero(), f >= 0.0, "for {f}");
    }
}

#[test]
fn abs_ge_million_matches_comparison() {
    for f in [
        0.0, 999999.0, 999999.999, 1.0e6, -1.0e6, 1000000.001, 1e300, f64::INFINITY,
        f64::NEG_INFINITY, f64::NAN,
    ] {
        assert_eq!(dbl(f).abs_ge_million(), f.abs() >= 1e6, "for {f}");
    }
}

#[test]
fn is_integral_matches_fract() {
    for f in [
        0.0, -0.0, 1.0, -1.0, 0.5, -0.5, 3.0, 3.5, 1e15, 1e15 + 0.5, 9007199254740993.0,
        5e-324, 1e300, f64::INFINITY, f64::NEG_INFINITY, f64::NAN, 2.5e-1,
    ] {
        assert_eq!(dbl(f).is_integral(), f.fract() == 0.0, "for {f}");
    }
}

#[test]
fn abs_le_i64_max_matches_comparison() {
    for f in [
        0.0, 1.0, -1.0, 9.2e18, 9.3e18, i64::MAX as f64, -(i64::MAX as f64), 1e300,
        f64::INFINITY, f64::NAN,
    ] {
        assert_eq!(dbl(f).abs_le_i64_max(), f.abs() <= i64::MAX as f64, "for {f}");
    }
}

#[test]
fn as_i64_matches_cast() {
    for f in [
        0.0, -0.0, 0.5, -0.5, 1.0, -1.0, 3.7, -3.7, 1e15, 1.5e15, 9.2e18, -9.2e18, 1e300,
        -1e300, f64::INFINITY, f64::NEG_INFINITY, f64::NAN, i64::MAX as f64,
        -(i64::MAX as f64), -9.223372036854776e18, 4294967296.5,
    ] {
        assert_eq!(dbl(f).as_i64(), f as i64, "for {f}");
    }
}

#[test]
fn i64_to_double_bits_matches_cast() {
    for n in [
        0i64,
        1,
        -1,
        255,
        -255,
        (1i64 << 52) + 1,
        (1i64 << 53) - 1,
        (1i64 << 53) + 1,
        (1i64 << 53) + 3,
        i64::MAX,
        i64::MIN,
        i64::MAX - 1,
        i64::MIN + 1,
        6148914691236517205,
        -6148914691236517205,
    ] {
        assert_eq!(f64_bits_of_i64(n), (n as f64).to_bits(), "for {n}");
    }
}

#[test]
fn as_real_accepts_reals_and_zero_imag_complex() {
    let v = StackValue::Real(dbl(4.0));
    assert_eq!(v.as_real(), Some(dbl(4.0)));
    let c = StackValue::Complex(ComplexNumber::new(dbl(4.0), dbl(0.0)));
    assert_eq!(c.as_real(), Some(dbl(4.0)));
    let cneg = StackValue::Complex(ComplexNumber::new(dbl(4.0), dbl(-0.0)));
    assert_eq!(cneg.as_real(), Some(dbl(4.0)));
    let ci = StackValue::Complex(ComplexNumber::new(dbl(4.0), dbl(2.0)));
    assert_eq!(ci.as_real(), None);
}

#[test]
fn as_complex_widens_reals() {
    let v = StackValue::Real(dbl(4.0));
    let c = v.as_complex();
    assert_eq!(c.real, dbl(4.0));
    assert_eq!(c.imag.to_bits(), 0);
}

#[test]
fn negate_stack_value_flips_components() {
    let v = StackValue::Real(dbl(5.0)).negated();
    assert_eq!(v, StackValue::Real(dbl(-5.0)));
    let c = StackValue::Complex(ComplexNumber::new(dbl(1.0), dbl(-2.0))).negated();
    assert_eq!(c, StackValue::Complex(ComplexNumber::new(dbl(-1.0), dbl(2.0))));
}
