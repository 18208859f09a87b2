//! The tagged generalized complex number.
//!
//! A [`CustomComplex`] is a `(re, im)` pair carrying the `i_squared` of its
//! number system.  Multiplication respects the tag; addition and
//! subtraction are componentwise; `norm_sqr`, `arg`, `norm` and division
//! treat the pair as ordinary Euclidean coordinates, independent of the
//! tag, as does the power operation, which computes in the standard system
//! and re-tags its result.  Callers must keep one `i_squared` per
//! computation: `multiply` takes the tag of its right operand, so mixing
//! tags silently adopts that one.

use vstd::prelude::*;
use crate::complex::{ComplexValue, c_add, c_div, c_mul, c_nsq_raw, c_sub};
use crate::error::{EvaluationError, SpecError};
use crate::fixed::{Fx, fx_sat, FX_SCALE, FX_SAT};
use crate::power::{DEGEN_RAW_MAX, pow_spec, sqrt_floor, std_i2};

verus! {

/// A complex number tagged with what the square of the imaginary unit
/// equals in its system.
#[derive(Debug, Clone, Copy, PartialEq, Eq, Structural)]
pub struct CustomComplex {
    /// Real component.
    pub re: Fx,
    /// Imaginary component.
    pub im: Fx,
    /// The value that the square of the imaginary unit equals.
    pub i_squared: ComplexValue,
}

impl CustomComplex {
    /// All components and the tag are admissible.
    pub open spec fn wf(self) -> bool {
        self.re.wf() && self.im.wf() && self.i_squared.wf()
    }

    /// The untagged value.
    pub open spec fn val(self) -> ComplexValue {
        ComplexValue { re: self.re, im: self.im }
    }

    /// Build from components and a tag.
    pub fn new(re: Fx, im: Fx, i_squared: ComplexValue) -> (r: CustomComplex)
        ensures
            r == (CustomComplex { re, im, i_squared }),
    {
        CustomComplex { re, im, i_squared }
    }

    /// Tag a plain value with an `i_squared`.
    pub fn from_standard(z: ComplexValue, i_squared: ComplexValue) -> (r: CustomComplex)
        ensures
            r == (CustomComplex { re: z.re, im: z.im, i_squared }),
    {
        CustomComplex { re: z.re, im: z.im, i_squared }
    }

    /// The components as a plain value, the tag dropped.
    pub fn to_standard(&self) -> (r: ComplexValue)
        ensures
            r == self.val(),
    {
        ComplexValue { re: self.re, im: self.im }
    }

    /// Generalized product; the result takes the right operand's tag.
    pub fn multiply(&self, other: &CustomComplex) -> (r: CustomComplex)
        requires
            self.wf(),
            other.wf(),
        ensures
            r.val() == c_mul(self.val(), other.val(), other.i_squared),
            r.i_squared == other.i_squared,
            r.wf(),
    {
        let v = self.to_standard().mul_c(other.to_standard(), other.i_squared);
        CustomComplex { re: v.re, im: v.im, i_squared: other.i_squared }
    }

    /// Componentwise sum; the tag is kept.
    pub fn add(&self, other: &CustomComplex) -> (r: CustomComplex)
        requires
            self.wf(),
            other.wf(),
        ensures
            r.val() == c_add(self.val(), other.val()),
            r.i_squared == self.i_squared,
            r.wf(),
    {
        let v = self.to_standard().add_c(other.to_standard());
        CustomComplex { re: v.re, im: v.im, i_squared: self.i_squared }
    }

    /// Componentwise difference; the tag is kept.
    pub fn subtract(&self, other: &CustomComplex) -> (r: CustomComplex)
        requires
            self.wf(),
            other.wf(),
        ensures
            r.val() == c_sub(self.val(), other.val()),
            r.i_squared == self.i_squared,
            r.wf(),
    {
        let v = self.to_standard().sub_c(other.to_standard());
        CustomComplex { re: v.re, im: v.im, i_squared: self.i_squared }
    }

    /// Squared Euclidean norm on the grid (saturated), independent of the
    /// tag.
    pub fn norm_sqr(&self) -> (r: Fx)
        requires
            self.wf(),
        ensures
            r.m == fx_sat(c_nsq_raw(self.val()) / (FX_SCALE as int)),
            r.wf(),
    {
        let raw = self.to_standard().nsq_raw();
        proof {
            vstd::arithmetic::div_mod::lemma_div_pos_is_pos(raw as int, FX_SCALE as int);
        }
        Fx { m: crate::fixed::sat_exec(raw / FX_SCALE) }
    }

    /// Principal argument (through `Complex64::arg`), independent of the
    /// tag; within `[-pi, pi]` on the grid.
    pub fn arg(&self) -> (r: Fx)
        requires
            self.wf(),
        ensures
            r.m == (match crate::trans::arg_of(self.val()) {
                Option::Some(a) => fx_sat(a as int),
                Option::None => 0int,
            }),
            -crate::trans::ARG_BOUND_M <= r.m <= crate::trans::ARG_BOUND_M,
            r.wf(),
    {
        crate::trans::arg_c(&self.to_standard())
    }

    /// Euclidean norm: the floor square root of the raw squared norm,
    /// saturated onto the grid.
    pub fn norm(&self) -> (r: Fx)
        requires
            self.wf(),
        ensures
            r.m == fx_sat(sqrt_floor(c_nsq_raw(self.val()))),
            r.wf(),
    {
        let raw = self.to_standard().nsq_raw();
        let root = crate::fixed::isqrt_i128(raw);
        proof {
            crate::power::lemma_sqrt_floor_unique(raw as int, root as int);
        }
        Fx { m: crate::fixed::sat_exec(root) }
    }

    /// Standard complex division; a divisor whose squared norm is below one
    /// part in `10^10` is rejected as a division by zero.  The result keeps
    /// this operand's tag.
    pub fn divide(&self, other: &CustomComplex) -> (r: Result<CustomComplex, EvaluationError>)
        requires
            self.wf(),
            other.wf(),
        ensures
            (match r {
                Result::Ok(v) => c_nsq_raw(other.val()) > DEGEN_RAW_MAX && v.val() == c_div(
                    self.val(),
                    other.val(),
                ) && v.i_squared == self.i_squared && v.wf(),
                Result::Err(er) => c_nsq_raw(other.val()) <= DEGEN_RAW_MAX && er.deep_view()
                    == SpecError::DivisionByZero,
            }),
    {
        let o = other.to_standard();
        if o.nsq_raw() <= DEGEN_RAW_MAX {
            Result::Err(EvaluationError::DivisionByZero)
        } else {
            proof {
                assert(!(o.re.m == 0 && o.im.m == 0));
            }
            let v = self.to_standard().div_c(o);
            Result::Ok(CustomComplex { re: v.re, im: v.im, i_squared: self.i_squared })
        }
    }

    /// Power computed in the standard system (`i_squared = -1`); the
    /// result re-takes this operand's tag.
    pub fn pow(&self, exp: &CustomComplex) -> (r: CustomComplex)
        requires
            self.wf(),
            exp.wf(),
        ensures
            r.val() == pow_spec(self.val(), exp.val(), std_i2()),
            r.i_squared == self.i_squared,
            r.wf(),
    {
        let v = crate::power::complex_pow(self.to_standard(), exp.to_standard());
        CustomComplex { re: v.re, im: v.im, i_squared: self.i_squared }
    }

    /// Principal square root (through `Complex64::sqrt`); the tag is kept.
    pub fn sqrt(&self) -> (r: CustomComplex)
        requires
            self.wf(),
        ensures
            r.val() == crate::trans::interp_raw(crate::trans::sqrt_of(self.val())),
            r.i_squared == self.i_squared,
            r.wf(),
    {
        let v = crate::trans::sqrt_c(&self.to_standard());
        CustomComplex { re: v.re, im: v.im, i_squared: self.i_squared }
    }

    /// Principal cube root (through `Complex64::cbrt`); the tag is kept.
    pub fn cbrt(&self) -> (r: CustomComplex)
        requires
            self.wf(),
        ensures
            r.val() == crate::trans::interp_raw(crate::trans::cbrt_of(self.val())),
            r.i_squared == self.i_squared,
            r.wf(),
    {
        let v = crate::trans::cbrt_c(&self.to_standard());
        CustomComplex { re: v.re, im: v.im, i_squared: self.i_squared }
    }
}

/// Generalized product of two plain values under the given `i_squared`.
pub fn custom_complex_multiply(
    z1: ComplexValue,
    z2: ComplexValue,
    i_squared: ComplexValue,
) -> (r: ComplexValue)
    requires
        z1.wf(),
        z2.wf(),
        i_squared.wf(),
    ensures
        r == c_mul(z1, z2, i_squared),
        r.wf(),
{
    z1.mul_c(z2, i_squared)
}

/// Generalized square of a plain value under the given `i_squared`.
pub fn custom_complex_square(z: ComplexValue, i_squared: ComplexValue) -> (r: ComplexValue)
    requires
        z.wf(),
        i_squared.wf(),
    ensures
        r == c_mul(z, z, i_squared),
        r.wf(),
{
    z.mul_c(z, i_squared)
}

/// Principal natural logarithm of a plain value (through
/// `Complex64::ln`), with the engine's substitution rule applied.
pub fn complex_ln(z: ComplexValue) -> (r: ComplexValue)
    ensures
        r == crate::trans::interp_raw(crate::trans::ln_of(z)),
        r.wf(),
{
    crate::trans::ln_c(&z)
}

/// Complex exponential of a plain value (through `Complex64::exp`), with
/// the engine's substitution rule applied.
pub fn complex_exp(z: ComplexValue) -> (r: ComplexValue)
    ensures
        r == crate::trans::interp_raw(crate::trans::exp_of(z)),
        r.wf(),
{
    crate::trans::exp_c(&z)
}

} // verus!
