use interp::number::{Comparison, Number};
use std::cmp::Ordering;

fn samples() -> Vec<f64> {
    vec![
        0.0,
        -0.0,
        1.0,
        -1.0,
        0.5,
        -0.5,
        2.0,
        1e308,
        -1e308,
        5e-324,
        -5e-324,
        f64::MIN_POSITIVE,
        f64::MAX,
        f64::MIN,
        f64::INFINITY,
        f64::NEG_INFINITY,
        f64::NAN,
        -f64::NAN,
        f64::from_bits(0x7ff0_0000_0000_0001),
        f64::from_bits(0xfff8_0000_0000_0000),
        3.141592653589793,
        -2.718281828459045,
    ]
}

fn n(x: f64) -> Number {
    Number::from_bits(x.to_bits())
}

#[test]
fn equality_is_that_of_doubles() {
    for a in samples() {
        for b in samples() {
            assert_eq!(n(a).equals(n(b)), a == b, "{a:?} == {b:?}");
        }
    }
}

#[test]
fn order_is_that_of_doubles() {
    for a in samples() {
        for b in samples() {
            let expected = match a.partial_cmp(&b) {
                Some(Ordering::Less) => Some(Comparison::Less),
                Some(Ordering::Equal) => Some(Comparison::Equal),
                Some(Ordering::Greater) => Some(Comparison::Greater),
                None => None,
            };
            assert_eq!(n(a).compare(n(b)), expected, "{a:?} ? {b:?}");
        }
    }
}

#[test]
fn negation_is_that_of_doubles() {
    for a in samples() {
        assert_eq!(n(a).negate().bits, (-a).to_bits(), "-{a:?}");
    }
}

#[test]
fn zero_and_nan_are_told() {
    for a in samples() {
        assert_eq!(n(a).zero(), a == 0.0, "{a:?}");
        assert_eq!(n(a).nan(), a.is_nan(), "{a:?}");
    }
}

#[test]
fn nan_is_not_equal_to_itself() {
    assert!(!n(f64::NAN).equals(n(f64::NAN)));
    assert_eq!(n(f64::NAN).compare(n(1.0)), None);
}
