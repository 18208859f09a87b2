//! Arithmetic-layer tests: the fixed-point scalar, the generalized complex
//! product and the tagged complex type.

use fractal_toolkit::complex::ComplexValue;
use fractal_toolkit::customc::{custom_complex_multiply, custom_complex_square, CustomComplex};
use fractal_toolkit::fixed::{Fx, FX_SAT, FX_SCALE};
use fractal_toolkit::power::complex_pow;

fn fx(n: i64) -> Fx {
    Fx::from_int(n)
}

fn cv(a: i64, b: i64) -> ComplexValue {
    ComplexValue::from_ints(a, b)
}

fn std_i2() -> ComplexValue {
    cv(-1, 0)
}

#[test]
fn test_complex_norm_sqr() {
    let z = CustomComplex::new(fx(3), fx(4), std_i2());
    assert_eq!(z.norm_sqr(), fx(25));
}

#[test]
fn fixed_point_basics() {
    assert_eq!(fx(3).add(fx(4)), fx(7));
    assert_eq!(fx(3).sub(fx(5)), fx(-2));
    assert_eq!(fx(3).mul(fx(4)), fx(12));
    assert_eq!(fx(12).div(fx(4)), fx(3));
    assert_eq!(fx(-12).div(fx(4)), fx(-3));
    // truncation toward zero
    assert_eq!(fx(7).div(fx(2)).m, 7 * FX_SCALE / 2);
    // saturation at the representable bound
    assert_eq!(Fx::from_int(i64::MAX).m, FX_SAT);
    assert_eq!(Fx::from_int(i64::MIN).m, -FX_SAT);
}

#[test]
fn split_complex_unit_square() {
    // with i_squared = 1 + 0i (split-complex), i * i must be exactly 1 + 0i
    let split = cv(1, 0);
    let unit = CustomComplex::new(fx(0), fx(1), split);
    let sq = unit.multiply(&unit);
    assert_eq!(sq.to_standard(), cv(1, 0));
}

#[test]
fn standard_unit_square() {
    // with the standard system, i * i is exactly -1 + 0i
    let unit = cv(0, 1);
    assert_eq!(custom_complex_multiply(unit, unit, std_i2()), cv(-1, 0));
    assert_eq!(custom_complex_square(unit, std_i2()), cv(-1, 0));
}

#[test]
fn custom_unit_square_arbitrary() {
    // the square of the unit is the i_squared value itself, here 1 + 1i
    let i2 = cv(1, 1);
    let unit = cv(0, 1);
    assert_eq!(custom_complex_multiply(unit, unit, i2), i2);
}

#[test]
fn standard_multiplication() {
    // (1 + 2i) * (3 - 1i) = 5 + 5i in the standard system
    let r = custom_complex_multiply(cv(1, 2), cv(3, -1), std_i2());
    assert_eq!(r, cv(5, 5));
}

#[test]
fn complex_division_exact() {
    // (1 + 2i) / i = 2 - 1i
    let a = CustomComplex::new(fx(1), fx(2), std_i2());
    let b = CustomComplex::new(fx(0), fx(1), std_i2());
    let q = a.divide(&b).unwrap();
    assert_eq!(q.to_standard(), cv(2, -1));
}

#[test]
fn complex_division_by_zero() {
    let a = CustomComplex::new(fx(1), fx(2), std_i2());
    let b = CustomComplex::new(fx(0), fx(0), std_i2());
    assert!(a.divide(&b).is_err());
}

#[test]
fn complex_pow_edge_rules() {
    // 0^0 is 1 by convention
    assert_eq!(complex_pow(cv(0, 0), cv(0, 0)), cv(1, 0));
    // 0^w is 0 for nondegenerate w
    assert_eq!(complex_pow(cv(0, 0), cv(2, 0)), cv(0, 0));
    // small whole exponents are exact
    assert_eq!(complex_pow(cv(3, 0), cv(2, 0)), cv(9, 0));
    assert_eq!(complex_pow(cv(0, 1), cv(2, 0)), cv(-1, 0));
    // a real-exponent result beyond norm 10 is rescaled to norm 10
    assert_eq!(complex_pow(cv(4, 0), cv(2, 0)), cv(10, 0));
}

#[test]
fn complex_pow_always_bounded() {
    // no finite input produces an unrepresentable result: the sentinel
    // substitution and saturation fire instead
    let samples = [
        (cv(0, 0), cv(0, 0)),
        (cv(1000, 1000), cv(900, 0)),
        (cv(-7, 3), cv(5, -11)),
        (cv(2, 0), cv(0, 1)),
        (cv(100000, 0), cv(100000, 0)),
    ];
    for (b, e) in samples {
        let r = complex_pow(b, e);
        assert!(r.re.m.abs() <= FX_SAT);
        assert!(r.im.m.abs() <= FX_SAT);
    }
}

#[test]
fn norm_and_arg() {
    let z = CustomComplex::new(fx(3), fx(4), std_i2());
    assert_eq!(z.norm(), fx(5));
    // arg(1 + 0i) = 0; arg(0 + 1i) = pi/2 (about 1.5708 on the grid)
    let one = CustomComplex::new(fx(1), fx(0), std_i2());
    assert_eq!(one.arg(), fx(0));
    let unit = CustomComplex::new(fx(0), fx(1), std_i2());
    let half_pi = unit.arg().m;
    assert!((half_pi - 26353589).abs() < 20, "arg(i) = {half_pi}");
}

#[test]
fn sqrt_and_cbrt() {
    let four = CustomComplex::new(fx(4), fx(0), std_i2());
    let r = four.sqrt().to_standard();
    assert!((r.re.m - 2 * FX_SCALE).abs() < 4 && r.im.m == 0);
    let eight = CustomComplex::new(fx(8), fx(0), std_i2());
    let c = eight.cbrt().to_standard();
    assert!((c.re.m - 2 * FX_SCALE).abs() < 4 && c.im.m == 0);
}
