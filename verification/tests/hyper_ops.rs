//! Hyperoperation tests: identity at height one, shallow towers, safe
//! defaults and the overflow sentinel.

use fractal_toolkit::complex::ComplexValue;
use fractal_toolkit::fixed::FX_SCALE;
use fractal_toolkit::hyper::{hexation, pentation, tetration, HYPER_SENT_M};

fn cv(a: i64, b: i64) -> ComplexValue {
    ComplexValue::from_ints(a, b)
}

fn std_i2() -> ComplexValue {
    cv(-1, 0)
}

#[test]
fn height_one_is_identity() {
    let bases = [cv(2, 0), cv(0, 1), cv(-3, 5), cv(7, -7)];
    let one = cv(1, 0);
    for b in bases {
        assert_eq!(tetration(b, one, std_i2()), b);
        assert_eq!(pentation(b, one, std_i2()), b);
        assert_eq!(hexation(b, one, std_i2()), b);
    }
}

#[test]
fn shallow_towers() {
    // 2^^2 = 2^2 = 4, 2^^3 = 2^4 = 16, up to power-function rounding
    let two = cv(2, 0);
    let t2 = tetration(two, cv(2, 0), std_i2());
    assert!((t2.re.m - 4 * FX_SCALE).abs() < 8 && t2.im.m.abs() < 8);
    let t3 = tetration(two, cv(3, 0), std_i2());
    assert!((t3.re.m - 16 * FX_SCALE).abs() < 64 && t3.im.m.abs() < 64);
    // 2^^^2 = 2^^2
    let p2 = pentation(two, cv(2, 0), std_i2());
    assert_eq!(p2, t2);
    // 2^^^^2 = 2^^^2
    let h2 = hexation(two, cv(2, 0), std_i2());
    assert_eq!(h2, p2);
}

#[test]
fn out_of_range_heights_are_safe() {
    let b = cv(2, 0);
    let one = cv(1, 0);
    // non-integer, negative, zero, complex and too-large heights all give 1
    for h in [cv(0, 0), cv(-1, 0), cv(6, 0), cv(2, 1)] {
        assert_eq!(tetration(b, h, std_i2()), one);
    }
    // a half-step height is not whole
    let half = ComplexValue { re: fractal_toolkit::Fx { m: FX_SCALE / 2 }, im: fractal_toolkit::Fx { m: 0 } };
    assert_eq!(tetration(b, half, std_i2()), one);
    assert_eq!(pentation(b, cv(4, 0), std_i2()), one);
    assert_eq!(pentation(b, cv(3, 0), std_i2()), one);
    assert_eq!(hexation(b, cv(3, 0), std_i2()), one);
}

#[test]
fn overflow_sentinel_fires() {
    // 10^^2 = 10^10, whose squared norm passes 1e10, so the sentinel
    // 1e5 + 1e5 i is substituted
    let r = tetration(cv(10, 0), cv(2, 0), std_i2());
    assert_eq!(r.re.m, HYPER_SENT_M);
    assert_eq!(r.im.m, HYPER_SENT_M);
}
