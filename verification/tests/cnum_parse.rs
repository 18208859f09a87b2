//! Tests for standalone complex-number parsing.

use fractal_toolkit::cnum::parse_complex_number;
use fractal_toolkit::palette::parse_hex_color;
use fractal_toolkit::complex::ComplexValue;
use fractal_toolkit::error::EvaluationError;
use fractal_toolkit::fixed::FX_SCALE;

fn cv(a: i64, b: i64) -> ComplexValue {
    ComplexValue::from_ints(a, b)
}

#[test]
fn plain_forms() {
    assert_eq!(parse_complex_number("1").unwrap(), cv(1, 0));
    assert_eq!(parse_complex_number("-2").unwrap(), cv(-2, 0));
    assert_eq!(parse_complex_number("i").unwrap(), cv(0, 1));
    assert_eq!(parse_complex_number("-i").unwrap(), cv(0, -1));
    assert_eq!(parse_complex_number("2i").unwrap(), cv(0, 2));
    assert_eq!(parse_complex_number("-3i").unwrap(), cv(0, -3));
    assert_eq!(parse_complex_number("  7  ").unwrap(), cv(7, 0));
}

#[test]
fn pair_forms() {
    assert_eq!(parse_complex_number("1+2i").unwrap(), cv(1, 2));
    assert_eq!(parse_complex_number("1-2i").unwrap(), cv(1, -2));
    assert_eq!(parse_complex_number("1+i").unwrap(), cv(1, 1));
    assert_eq!(parse_complex_number("1-i").unwrap(), cv(1, -1));
    assert_eq!(parse_complex_number("-1.5+0.5i").unwrap().re.m, -3 * FX_SCALE / 2);
    assert_eq!(parse_complex_number("-1.5+0.5i").unwrap().im.m, FX_SCALE / 2);
}

#[test]
fn rejected_forms() {
    assert!(matches!(
        parse_complex_number("hello"),
        Err(EvaluationError::UnparsableComplex(_))
    ));
    assert!(matches!(
        parse_complex_number("1+2j+3"),
        Err(EvaluationError::InvalidNumber(_))
    ));
    let e = parse_complex_number("hello").unwrap_err();
    assert_eq!(e.message(), "Unable to parse complex number: hello");
}

#[test]
fn hex_colors() {
    assert_eq!(parse_hex_color("#FF0000").unwrap(), [255, 0, 0]);
    assert_eq!(parse_hex_color("00ff7f").unwrap(), [0, 255, 127]);
    assert_eq!(parse_hex_color("#1A2b3C").unwrap(), [26, 43, 60]);
    assert!(parse_hex_color("#FF00").is_err());
    assert!(parse_hex_color("#GG0000").is_err());
    let e = parse_hex_color("#xyz").unwrap_err();
    assert_eq!(e.message(), "Invalid hex color: #xyz");
}
