//! Trusted bridge to `num_complex` for the transcendental functions.
//!
//! A grid value is sent to `num_complex::Complex64` (components divided by
//! the grid scale), the library function is applied, and each component of
//! the outcome is brought back to a raw mantissa through `num_traits::cast`,
//! which yields `None` when the component is not finite or not representable.
//! Each outcome is named by an uninterpreted spec function: the contracts
//! take the result to depend on the argument alone.
//!
//! The verified function beside each wrapper applies the engine's
//! substitution rule: an unrepresentable outcome becomes `0 + 0i`, and a
//! representable one is saturated onto the grid (see [`crate::fixed`]).

use vstd::prelude::*;
use crate::complex::ComplexValue;
use crate::fixed::{Fx, fx_sat, FX_SCALE};

verus! {

/// What `Complex64::sin` returns on a grid value, as raw mantissas.
pub uninterp spec fn sin_of(z: ComplexValue) -> Option<(i128, i128)>;

/// What `Complex64::cos` returns on a grid value, as raw mantissas.
pub uninterp spec fn cos_of(z: ComplexValue) -> Option<(i128, i128)>;

/// What `Complex64::tan` returns on a grid value, as raw mantissas.
pub uninterp spec fn tan_of(z: ComplexValue) -> Option<(i128, i128)>;

/// What `Complex64::asin` returns on a grid value, as raw mantissas.
pub uninterp spec fn asin_of(z: ComplexValue) -> Option<(i128, i128)>;

/// What `Complex64::acos` returns on a grid value, as raw mantissas.
pub uninterp spec fn acos_of(z: ComplexValue) -> Option<(i128, i128)>;

/// What `Complex64::atan` returns on a grid value, as raw mantissas.
pub uninterp spec fn atan_of(z: ComplexValue) -> Option<(i128, i128)>;

/// What `Complex64::sinh` returns on a grid value, as raw mantissas.
pub uninterp spec fn sinh_of(z: ComplexValue) -> Option<(i128, i128)>;

/// What `Complex64::cosh` returns on a grid value, as raw mantissas.
pub uninterp spec fn cosh_of(z: ComplexValue) -> Option<(i128, i128)>;

/// What `Complex64::tanh` returns on a grid value, as raw mantissas.
pub uninterp spec fn tanh_of(z: ComplexValue) -> Option<(i128, i128)>;

/// What `Complex64::exp` returns on a grid value, as raw mantissas.
pub uninterp spec fn exp_of(z: ComplexValue) -> Option<(i128, i128)>;

/// What `Complex64::ln` returns on a grid value, as raw mantissas.
pub uninterp spec fn ln_of(z: ComplexValue) -> Option<(i128, i128)>;

/// What `Complex64::sqrt` returns on a grid value, as raw mantissas.
pub uninterp spec fn sqrt_of(z: ComplexValue) -> Option<(i128, i128)>;

/// What `Complex64::cbrt` returns on a grid value, as raw mantissas.
pub uninterp spec fn cbrt_of(z: ComplexValue) -> Option<(i128, i128)>;

/// What `Complex64::powf` returns on a grid base and a grid real exponent.
pub uninterp spec fn powf_of(z: ComplexValue, e: Fx) -> Option<(i128, i128)>;

/// What `Complex64::powc` returns on a grid base and a grid exponent.
pub uninterp spec fn powc_of(z: ComplexValue, w: ComplexValue) -> Option<(i128, i128)>;

/// What `Complex64::arg` returns on a grid value, as a raw mantissa.
/// `arg` is `f64::atan2`, whose documented range is `[-pi, pi]`, so a
/// representable outcome is bounded by `pi` on the grid.
pub uninterp spec fn arg_of(z: ComplexValue) -> Option<i128>;

/// Largest mantissa magnitude an argument can have: `pi` on the grid,
/// rounded up.
pub const ARG_BOUND_M: i128 = 52707179;

/// The engine's reading of a raw outcome: unrepresentable components become
/// `0 + 0i`; representable ones are saturated onto the grid.
pub open spec fn interp_raw(o: Option<(i128, i128)>) -> ComplexValue {
    match o {
        Option::Some((a, b)) => ComplexValue {
            re: Fx { m: fx_sat(a as int) as i128 },
            im: Fx { m: fx_sat(b as int) as i128 },
        },
        Option::None => ComplexValue { re: Fx { m: 0 }, im: Fx { m: 0 } },
    }
}

/// Saturate a raw outcome, or substitute zero for an unrepresentable one.
fn interp(o: Option<(i128, i128)>) -> (r: ComplexValue)
    ensures
        r == interp_raw(o),
        r.wf(),
{
    match o {
        Option::Some((a, b)) => {
            let rm: i128 = crate::fixed::sat_exec(a);
            let im: i128 = crate::fixed::sat_exec(b);
            ComplexValue { re: Fx { m: rm }, im: Fx { m: im } }
        },
        Option::None => ComplexValue::zero(),
    }
}

/// Relies on `num_complex::Complex64::sin`.
#[verifier::external_body]
fn sin_raw(z: &ComplexValue) -> (r: Option<(i128, i128)>)
    ensures
        r == sin_of(*z),
{
    let sc = num_traits::cast(FX_SCALE).unwrap_or_default();
    let w = num_complex::Complex64::new(
        num_traits::cast(z.re.m).unwrap_or_default(),
        num_traits::cast(z.im.m).unwrap_or_default(),
    ).unscale(sc).sin().scale(sc);
    match (num_traits::cast(w.re), num_traits::cast(w.im)) {
        (Some(a), Some(b)) => Some((a, b)),
        _ => None,
    }
}

/// Relies on `num_complex::Complex64::cos`.
#[verifier::external_body]
fn cos_raw(z: &ComplexValue) -> (r: Option<(i128, i128)>)
    ensures
        r == cos_of(*z),
{
    let sc = num_traits::cast(FX_SCALE).unwrap_or_default();
    let w = num_complex::Complex64::new(
        num_traits::cast(z.re.m).unwrap_or_default(),
        num_traits::cast(z.im.m).unwrap_or_default(),
    ).unscale(sc).cos().scale(sc);
    match (num_traits::cast(w.re), num_traits::cast(w.im)) {
        (Some(a), Some(b)) => Some((a, b)),
        _ => None,
    }
}

/// Relies on `num_complex::Complex64::tan`.
#[verifier::external_body]
fn tan_raw(z: &ComplexValue) -> (r: Option<(i128, i128)>)
    ensures
        r == tan_of(*z),
{
    let sc = num_traits::cast(FX_SCALE).unwrap_or_default();
    let w = num_complex::Complex64::new(
        num_traits::cast(z.re.m).unwrap_or_default(),
        num_traits::cast(z.im.m).unwrap_or_default(),
    ).unscale(sc).tan().scale(sc);
    match (num_traits::cast(w.re), num_traits::cast(w.im)) {
        (Some(a), Some(b)) => Some((a, b)),
        _ => None,
    }
}

/// Relies on `num_complex::Complex64::asin`.
#[verifier::external_body]
fn asin_raw(z: &ComplexValue) -> (r: Option<(i128, i128)>)
    ensures
        r == asin_of(*z),
{
    let sc = num_traits::cast(FX_SCALE).unwrap_or_default();
    let w = num_complex::Complex64::new(
        num_traits::cast(z.re.m).unwrap_or_default(),
        num_traits::cast(z.im.m).unwrap_or_default(),
    ).unscale(sc).asin().scale(sc);
    match (num_traits::cast(w.re), num_traits::cast(w.im)) {
        (Some(a), Some(b)) => Some((a, b)),
        _ => None,
    }
}

/// Relies on `num_complex::Complex64::acos`.
#[verifier::external_body]
fn acos_raw(z: &ComplexValue) -> (r: Option<(i128, i128)>)
    ensures
        r == acos_of(*z),
{
    let sc = num_traits::cast(FX_SCALE).unwrap_or_default();
    let w = num_complex::Complex64::new(
        num_traits::cast(z.re.m).unwrap_or_default(),
        num_traits::cast(z.im.m).unwrap_or_default(),
    ).unscale(sc).acos().scale(sc);
    match (num_traits::cast(w.re), num_traits::cast(w.im)) {
        (Some(a), Some(b)) => Some((a, b)),
        _ => None,
    }
}

/// Relies on `num_complex::Complex64::atan`.
#[verifier::external_body]
fn atan_raw(z: &ComplexValue) -> (r: Option<(i128, i128)>)
    ensures
        r == atan_of(*z),
{
    let sc = num_traits::cast(FX_SCALE).unwrap_or_default();
    let w = num_complex::Complex64::new(
        num_traits::cast(z.re.m).unwrap_or_default(),
        num_traits::cast(z.im.m).unwrap_or_default(),
    ).unscale(sc).atan().scale(sc);
    match (num_traits::cast(w.re), num_traits::cast(w.im)) {
        (Some(a), Some(b)) => Some((a, b)),
        _ => None,
    }
}

/// Relies on `num_complex::Complex64::sinh`.
#[verifier::external_body]
fn sinh_raw(z: &ComplexValue) -> (r: Option<(i128, i128)>)
    ensures
        r == sinh_of(*z),
{
    let sc = num_traits::cast(FX_SCALE).unwrap_or_default();
    let w = num_complex::Complex64::new(
        num_traits::cast(z.re.m).unwrap_or_default(),
        num_traits::cast(z.im.m).unwrap_or_default(),
    ).unscale(sc).sinh().scale(sc);
    match (num_traits::cast(w.re), num_traits::cast(w.im)) {
        (Some(a), Some(b)) => Some((a, b)),
        _ => None,
    }
}

/// Relies on `num_complex::Complex64::cosh`.
#[verifier::external_body]
fn cosh_raw(z: &ComplexValue) -> (r: Option<(i128, i128)>)
    ensures
        r == cosh_of(*z),
{
    let sc = num_traits::cast(FX_SCALE).unwrap_or_default();
    let w = num_complex::Complex64::new(
        num_traits::cast(z.re.m).unwrap_or_default(),
        num_traits::cast(z.im.m).unwrap_or_default(),
    ).unscale(sc).cosh().scale(sc);
    match (num_traits::cast(w.re), num_traits::cast(w.im)) {
        (Some(a), Some(b)) => Some((a, b)),
        _ => None,
    }
}

/// Relies on `num_complex::Complex64::tanh`.
#[verifier::external_body]
fn tanh_raw(z: &ComplexValue) -> (r: Option<(i128, i128)>)
    ensures
        r == tanh_of(*z),
{
    let sc = num_traits::cast(FX_SCALE).unwrap_or_default();
    let w = num_complex::Complex64::new(
        num_traits::cast(z.re.m).unwrap_or_default(),
        num_traits::cast(z.im.m).unwrap_or_default(),
    ).unscale(sc).tanh().scale(sc);
    match (num_traits::cast(w.re), num_traits::cast(w.im)) {
        (Some(a), Some(b)) => Some((a, b)),
        _ => None,
    }
}

/// Relies on `num_complex::Complex64::exp`.
#[verifier::external_body]
fn exp_raw(z: &ComplexValue) -> (r: Option<(i128, i128)>)
    ensures
        r == exp_of(*z),
{
    let sc = num_traits::cast(FX_SCALE).unwrap_or_default();
    let w = num_complex::Complex64::new(
        num_traits::cast(z.re.m).unwrap_or_default(),
        num_traits::cast(z.im.m).unwrap_or_default(),
    ).unscale(sc).exp().scale(sc);
    match (num_traits::cast(w.re), num_traits::cast(w.im)) {
        (Some(a), Some(b)) => Some((a, b)),
        _ => None,
    }
}

/// Relies on `num_complex::Complex64::ln` (principal branch).
#[verifier::external_body]
fn ln_raw(z: &ComplexValue) -> (r: Option<(i128, i128)>)
    ensures
        r == ln_of(*z),
{
    let sc = num_traits::cast(FX_SCALE).unwrap_or_default();
    let w = num_complex::Complex64::new(
        num_traits::cast(z.re.m).unwrap_or_default(),
        num_traits::cast(z.im.m).unwrap_or_default(),
    ).unscale(sc).ln().scale(sc);
    match (num_traits::cast(w.re), num_traits::cast(w.im)) {
        (Some(a), Some(b)) => Some((a, b)),
        _ => None,
    }
}

/// Relies on `num_complex::Complex64::sqrt` (principal branch).
#[verifier::external_body]
fn sqrt_raw(z: &ComplexValue) -> (r: Option<(i128, i128)>)
    ensures
        r == sqrt_of(*z),
{
    let sc = num_traits::cast(FX_SCALE).unwrap_or_default();
    let w = num_complex::Complex64::new(
        num_traits::cast(z.re.m).unwrap_or_default(),
        num_traits::cast(z.im.m).unwrap_or_default(),
    ).unscale(sc).sqrt().scale(sc);
    match (num_traits::cast(w.re), num_traits::cast(w.im)) {
        (Some(a), Some(b)) => Some((a, b)),
        _ => None,
    }
}

/// Relies on `num_complex::Complex64::cbrt` (principal branch).
#[verifier::external_body]
fn cbrt_raw(z: &ComplexValue) -> (r: Option<(i128, i128)>)
    ensures
        r == cbrt_of(*z),
{
    let sc = num_traits::cast(FX_SCALE).unwrap_or_default();
    let w = num_complex::Complex64::new(
        num_traits::cast(z.re.m).unwrap_or_default(),
        num_traits::cast(z.im.m).unwrap_or_default(),
    ).unscale(sc).cbrt().scale(sc);
    match (num_traits::cast(w.re), num_traits::cast(w.im)) {
        (Some(a), Some(b)) => Some((a, b)),
        _ => None,
    }
}

/// Relies on `num_complex::Complex64::powf`.
#[verifier::external_body]
fn powf_raw(z: &ComplexValue, e: Fx) -> (r: Option<(i128, i128)>)
    ensures
        r == powf_of(*z, e),
{
    let sc = num_traits::cast(FX_SCALE).unwrap_or_default();
    let w = num_complex::Complex64::new(
        num_traits::cast(z.re.m).unwrap_or_default(),
        num_traits::cast(z.im.m).unwrap_or_default(),
    );
    let es = num_complex::Complex64::new(
        num_traits::cast(e.m).unwrap_or_default(),
        num_traits::cast(0i128).unwrap_or_default(),
    ).unscale(sc);
    let w = w.unscale(sc).powf(es.re).scale(sc);
    match (num_traits::cast(w.re), num_traits::cast(w.im)) {
        (Some(a), Some(b)) => Some((a, b)),
        _ => None,
    }
}

/// Relies on `num_complex::Complex64::powc`.
#[verifier::external_body]
fn powc_raw(z: &ComplexValue, e: &ComplexValue) -> (r: Option<(i128, i128)>)
    ensures
        r == powc_of(*z, *e),
{
    let sc = num_traits::cast(FX_SCALE).unwrap_or_default();
    let w = num_complex::Complex64::new(
        num_traits::cast(z.re.m).unwrap_or_default(),
        num_traits::cast(z.im.m).unwrap_or_default(),
    ).unscale(sc).powc(num_complex::Complex64::new(
        num_traits::cast(e.re.m).unwrap_or_default(),
        num_traits::cast(e.im.m).unwrap_or_default(),
    ).unscale(sc)).scale(sc);
    match (num_traits::cast(w.re), num_traits::cast(w.im)) {
        (Some(a), Some(b)) => Some((a, b)),
        _ => None,
    }
}

/// Relies on `num_complex::Complex64::arg` (principal argument): it is
/// `f64::atan2`, documented to return a value in `[-pi, pi]`.
#[verifier::external_body]
fn arg_raw(z: &ComplexValue) -> (r: Option<i128>)
    ensures
        r == arg_of(*z),
        r matches Some(a) ==> -ARG_BOUND_M <= a <= ARG_BOUND_M,
{
    let sc = num_traits::cast(FX_SCALE).unwrap_or_default();
    let a = num_complex::Complex64::new(
        num_traits::cast(z.re.m).unwrap_or_default(),
        num_traits::cast(z.im.m).unwrap_or_default(),
    ).unscale(sc).arg();
    num_traits::cast(a * sc)
}

/// Complex sine, with the engine's substitution rule applied.
pub fn sin_c(z: &ComplexValue) -> (r: ComplexValue)
    ensures
        r == interp_raw(sin_of(*z)),
        r.wf(),
{
    interp(sin_raw(z))
}

/// Complex cosine, with the engine's substitution rule applied.
pub fn cos_c(z: &ComplexValue) -> (r: ComplexValue)
    ensures
        r == interp_raw(cos_of(*z)),
        r.wf(),
{
    interp(cos_raw(z))
}

/// Complex tangent, with the engine's substitution rule applied.
pub fn tan_c(z: &ComplexValue) -> (r: ComplexValue)
    ensures
        r == interp_raw(tan_of(*z)),
        r.wf(),
{
    interp(tan_raw(z))
}

/// Complex arcsine, with the engine's substitution rule applied.
pub fn asin_c(z: &ComplexValue) -> (r: ComplexValue)
    ensures
        r == interp_raw(asin_of(*z)),
        r.wf(),
{
    interp(asin_raw(z))
}

/// Complex arccosine, with the engine's substitution rule applied.
pub fn acos_c(z: &ComplexValue) -> (r: ComplexValue)
    ensures
        r == interp_raw(acos_of(*z)),
        r.wf(),
{
    interp(acos_raw(z))
}

/// Complex arctangent, with the engine's substitution rule applied.
pub fn atan_c(z: &ComplexValue) -> (r: ComplexValue)
    ensures
        r == interp_raw(atan_of(*z)),
        r.wf(),
{
    interp(atan_raw(z))
}

/// Complex hyperbolic sine, with the engine's substitution rule applied.
pub fn sinh_c(z: &ComplexValue) -> (r: ComplexValue)
    ensures
        r == interp_raw(sinh_of(*z)),
        r.wf(),
{
    interp(sinh_raw(z))
}

/// Complex hyperbolic cosine, with the engine's substitution rule applied.
pub fn cosh_c(z: &ComplexValue) -> (r: ComplexValue)
    ensures
        r == interp_raw(cosh_of(*z)),
        r.wf(),
{
    interp(cosh_raw(z))
}

/// Complex hyperbolic tangent, with the engine's substitution rule applied.
pub fn tanh_c(z: &ComplexValue) -> (r: ComplexValue)
    ensures
        r == interp_raw(tanh_of(*z)),
        r.wf(),
{
    interp(tanh_raw(z))
}

/// Complex exponential, with the engine's substitution rule applied.
pub fn exp_c(z: &ComplexValue) -> (r: ComplexValue)
    ensures
        r == interp_raw(exp_of(*z)),
        r.wf(),
{
    interp(exp_raw(z))
}

/// Principal natural logarithm, with the engine's substitution rule applied.
pub fn ln_c(z: &ComplexValue) -> (r: ComplexValue)
    ensures
        r == interp_raw(ln_of(*z)),
        r.wf(),
{
    interp(ln_raw(z))
}

/// Principal square root, with the engine's substitution rule applied.
pub fn sqrt_c(z: &ComplexValue) -> (r: ComplexValue)
    ensures
        r == interp_raw(sqrt_of(*z)),
        r.wf(),
{
    interp(sqrt_raw(z))
}

/// Principal cube root, with the engine's substitution rule applied.
pub fn cbrt_c(z: &ComplexValue) -> (r: ComplexValue)
    ensures
        r == interp_raw(cbrt_of(*z)),
        r.wf(),
{
    interp(cbrt_raw(z))
}

/// Real power of a complex base, with the substitution rule applied.
pub fn powf_c(z: &ComplexValue, e: Fx) -> (r: ComplexValue)
    ensures
        r == interp_raw(powf_of(*z, e)),
        r.wf(),
{
    interp(powf_raw(z, e))
}

/// Complex power of a complex base, with the substitution rule applied.
pub fn powc_c(z: &ComplexValue, e: &ComplexValue) -> (r: ComplexValue)
    ensures
        r == interp_raw(powc_of(*z, *e)),
        r.wf(),
{
    interp(powc_raw(z, e))
}

/// Principal argument as a grid scalar; an unrepresentable outcome (which
/// `arg` itself never yields on finite input) becomes zero.  The result is
/// within `[-pi, pi]` on the grid.
pub fn arg_c(z: &ComplexValue) -> (r: Fx)
    ensures
        r.m == (match arg_of(*z) {
            Option::Some(a) => fx_sat(a as int),
            Option::None => 0int,
        }),
        -ARG_BOUND_M <= r.m <= ARG_BOUND_M,
        r.wf(),
{
    match arg_raw(z) {
        Option::Some(a) => Fx { m: crate::fixed::sat_exec(a) },
        Option::None => Fx::zero(),
    }
}

} // verus!
