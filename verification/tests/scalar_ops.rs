use mlom::parameters;
use mlom::scalar::{
    add_scalar, div_scalar, eq_scalar, finite_scalar, floor_scalar, le_scalar, lt_scalar,
    mul_scalar, of_nat_scalar, parse_scalar, sub_scalar,
};
use mlom::sqrt::sqrt_scalar;

fn b(x: f64) -> u64 {
    x.to_bits()
}

#[test]
fn arithmetic_matches_hardware() {
    let samples: [f64; 10] = [
        0.0, 1.0, -1.0, 0.2, 3.5, -42.0, 1.0e-300, 1.0e300, 123456.789, -0.001953125,
    ];
    // the sign and payload of a NaN result are not pinned by IEEE 754, so
    // a NaN result is only checked to be one
    fn check(got: u64, expected: f64, what: &str) {
        if expected.is_nan() {
            assert!(f64::from_bits(got).is_nan(), "{what}");
        } else {
            assert_eq!(got, expected.to_bits(), "{what}");
        }
    }
    for &x in samples.iter() {
        for &y in samples.iter() {
            check(add_scalar(b(x), b(y)), x + y, "add");
            check(sub_scalar(b(x), b(y)), x - y, "sub");
            check(mul_scalar(b(x), b(y)), x * y, "mul");
            check(div_scalar(b(x), b(y)), x / y, "div");
            assert_eq!(lt_scalar(b(x), b(y)), x < y, "lt {x} {y}");
            assert_eq!(le_scalar(b(x), b(y)), x <= y, "le {x} {y}");
            assert_eq!(eq_scalar(b(x), b(y)), x == y, "eq {x} {y}");
        }
        assert_eq!(floor_scalar(b(x)), b(x.floor()), "floor {x}");
        assert_eq!(finite_scalar(b(x)), x.is_finite(), "finite {x}");
    }
    assert_eq!(eq_scalar(b(0.0), b(-0.0)), true);
    assert_eq!(finite_scalar(b(f64::INFINITY)), false);
    assert_eq!(finite_scalar(b(f64::NAN)), false);
}

#[test]
fn square_root_matches_hardware() {
    let samples: [f64; 12] = [
        0.0,
        1.0,
        2.0,
        25.0,
        0.3,
        9.0,
        1.0e-300,
        1.0e300,
        12345.6789,
        5.0e-324,
        2.2250738585072014e-308,
        1.7976931348623157e308,
    ];
    for &x in samples.iter() {
        assert_eq!(sqrt_scalar(b(x)), b(x.sqrt()), "sqrt {x}");
    }
    // a zero keeps its sign, an infinity stays
    assert_eq!(sqrt_scalar(b(-0.0)), b(-0.0));
    assert_eq!(sqrt_scalar(b(f64::INFINITY)), b(f64::INFINITY));
    // a negative or NaN operand gives a quiet NaN
    assert!(f64::from_bits(sqrt_scalar(b(-4.0))).is_nan());
    assert!(f64::from_bits(sqrt_scalar(b(f64::NAN))).is_nan());
    assert!(f64::from_bits(sqrt_scalar(b(f64::NEG_INFINITY))).is_nan());
    // a dense sweep around interesting magnitudes
    let mut x: f64 = 1.0e-3;
    while x < 1.0e3 {
        assert_eq!(sqrt_scalar(b(x)), b(x.sqrt()), "sqrt sweep {x}");
        x *= 1.618;
    }
}

#[test]
fn integer_conversion_matches_hardware() {
    for n in [0u128, 1, 2, 27, 64, 1_000_000, u64::MAX as u128] {
        assert_eq!(of_nat_scalar(n), b(n as f64), "of_nat {n}");
    }
}

#[test]
fn decimal_parse_matches_hardware() {
    for s in ["0", "1", "3.0", "-2.25e1", "0.1", "1e-300", "42.0", "+7.5"] {
        let expected: f64 = s.parse().unwrap();
        assert_eq!(parse_scalar(s), Some(b(expected)), "parse {s}");
    }
    assert_eq!(parse_scalar("abc"), None);
    assert_eq!(parse_scalar(""), None);
    assert_eq!(parse_scalar("1.2.3"), None);
    // a long token is still converted with correct rounding
    let long = format!("1{}", "0".repeat(300));
    let expected: f64 = long.parse().unwrap();
    assert_eq!(parse_scalar(&long), Some(b(expected)));
    let tiny = format!("0.{}1", "0".repeat(320));
    let expected: f64 = tiny.parse().unwrap();
    assert_eq!(parse_scalar(&tiny), Some(b(expected)));
}

#[test]
fn constants_decode_to_their_values() {
    assert_eq!(f64::from_bits(parameters::R_STAR), 3.0);
    assert_eq!(f64::from_bits(parameters::EPSILON_STAR), 0.2);
    assert_eq!(f64::from_bits(parameters::TWO_EPSILON_STAR), 0.4);
    assert_eq!(parameters::TWO_EPSILON_STAR, (2.0f64 * 0.2).to_bits());
    assert_eq!(f64::from_bits(parameters::R_CUT), 10.0);
    assert_eq!(f64::from_bits(parameters::FAR_AWAY), 99999999.0);
    assert_eq!(f64::from_bits(parameters::BOX_SIDE), 42.0);
    assert_eq!(f64::from_bits(parameters::R_CONSTANT), 0.00199);
    assert_eq!(f64::from_bits(parameters::T_0), 300.0);
    assert_eq!(f64::from_bits(parameters::DELTA_TIME), 0.1);
    assert_eq!(f64::from_bits(parameters::PARTICLE_MASS), 18.0);
    assert_eq!(f64::from_bits(parameters::CONVERSION_FORCE), 1.0 / 9.0);
    assert_eq!(f64::from_bits(parameters::SC_HALF), 0.5);
    assert_eq!(f64::from_bits(parameters::SC_MINUS_48), -48.0);
    assert_eq!(f64::from_bits(parameters::SC_TWO_POW_63), 9223372036854775808.0);
}
