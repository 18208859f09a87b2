//! Generalized complex values on the fixed-point grid.
//!
//! A [`ComplexValue`] is a plain `(re, im)` pair.  Multiplication takes the
//! active `i_squared` — the value that the square of the imaginary unit
//! equals in the current number system — as an explicit argument:
//!
//! `(a + bi) * (c + di) = (ac + Re(bd*i2)) + (ad + bc + Im(bd*i2)) i`
//!
//! With `i_squared = -1 + 0i` this is standard complex multiplication.
//! Addition and subtraction are componentwise and independent of
//! `i_squared`.  Division is standard complex division (it treats the pair
//! as ordinary Euclidean coordinates, like `norm_sqr`), as is the norm.

use vstd::prelude::*;
use crate::fixed::{Fx, fx_sat, fx_mul_m, fx_ratio_m, FX_SAT, FX_SCALE};

verus! {

/// A complex number on the fixed-point grid.
#[derive(Debug, Clone, Copy, PartialEq, Eq, Structural)]
pub struct ComplexValue {
    /// Real component.
    pub re: Fx,
    /// Imaginary component.
    pub im: Fx,
}

/// Componentwise saturating sum.
pub open spec fn c_add(a: ComplexValue, b: ComplexValue) -> ComplexValue {
    ComplexValue {
        re: Fx { m: fx_sat(a.re.m + b.re.m) as i128 },
        im: Fx { m: fx_sat(a.im.m + b.im.m) as i128 },
    }
}

/// Componentwise saturating difference.
pub open spec fn c_sub(a: ComplexValue, b: ComplexValue) -> ComplexValue {
    ComplexValue {
        re: Fx { m: fx_sat(a.re.m - b.re.m) as i128 },
        im: Fx { m: fx_sat(a.im.m - b.im.m) as i128 },
    }
}

/// Generalized product under the given `i_squared`, evaluated on the grid in
/// the fixed order: the four partial products are rounded first, then the
/// `bd * i_squared` coupling term, then the sums.
pub open spec fn c_mul(a: ComplexValue, b: ComplexValue, i2: ComplexValue) -> ComplexValue {
    let ac = fx_mul_m(a.re.m as int, b.re.m as int);
    let ad = fx_mul_m(a.re.m as int, b.im.m as int);
    let bc = fx_mul_m(a.im.m as int, b.re.m as int);
    let bd = fx_mul_m(a.im.m as int, b.im.m as int);
    let t_re = fx_mul_m(bd, i2.re.m as int);
    let t_im = fx_mul_m(bd, i2.im.m as int);
    ComplexValue {
        re: Fx { m: fx_sat(ac + t_re) as i128 },
        im: Fx { m: fx_sat(fx_sat(ad + bc) + t_im) as i128 },
    }
}

/// Exact squared norm in raw units (multiples of `2^-48`); independent of
/// `i_squared`.
pub open spec fn c_nsq_raw(a: ComplexValue) -> int {
    a.re.m * a.re.m + a.im.m * a.im.m
}

/// Standard complex quotient `a / b` on the grid (conjugate formula over the
/// raw numerators and the raw squared norm of the divisor).
pub open spec fn c_div(a: ComplexValue, b: ComplexValue) -> ComplexValue
    recommends
        c_nsq_raw(b) > 0,
{
    let den = c_nsq_raw(b);
    let num_re = a.re.m * b.re.m + a.im.m * b.im.m;
    let num_im = a.im.m * b.re.m - a.re.m * b.im.m;
    ComplexValue {
        re: Fx { m: fx_ratio_m(num_re, den) as i128 },
        im: Fx { m: fx_ratio_m(num_im, den) as i128 },
    }
}

impl ComplexValue {
    /// Both components are admissible.
    pub open spec fn wf(self) -> bool {
        self.re.wf() && self.im.wf()
    }

    /// Build from components.
    pub fn new(re: Fx, im: Fx) -> (r: ComplexValue)
        ensures
            r == (ComplexValue { re, im }),
    {
        ComplexValue { re, im }
    }

    /// The value `a + b i` for whole numbers `a`, `b`.
    pub fn from_ints(a: i64, b: i64) -> (r: ComplexValue)
        ensures
            r.re.m == fx_sat(a * FX_SCALE),
            r.im.m == fx_sat(b * FX_SCALE),
            r.wf(),
    {
        ComplexValue { re: Fx::from_int(a), im: Fx::from_int(b) }
    }

    /// Zero.
    pub fn zero() -> (r: ComplexValue)
        ensures
            r.re.m == 0 && r.im.m == 0,
            r.wf(),
    {
        ComplexValue { re: Fx::zero(), im: Fx::zero() }
    }

    /// One.
    pub fn one() -> (r: ComplexValue)
        ensures
            r.re.m == FX_SCALE as int && r.im.m == 0,
            r.wf(),
    {
        proof {
            assert(fx_sat(1 * FX_SCALE) == FX_SCALE as int);
        }
        ComplexValue { re: Fx::from_int(1), im: Fx::zero() }
    }

    /// Whether both components are exactly zero.
    pub fn is_exactly_zero(&self) -> (r: bool)
        ensures
            r == (self.re.m == 0 && self.im.m == 0),
    {
        self.re.m == 0 && self.im.m == 0
    }

    /// Componentwise saturating sum.
    pub fn add_c(self, other: ComplexValue) -> (r: ComplexValue)
        requires
            self.wf(),
            other.wf(),
        ensures
            r == c_add(self, other),
            r.wf(),
    {
        ComplexValue { re: self.re.add(other.re), im: self.im.add(other.im) }
    }

    /// Componentwise saturating difference.
    pub fn sub_c(self, other: ComplexValue) -> (r: ComplexValue)
        requires
            self.wf(),
            other.wf(),
        ensures
            r == c_sub(self, other),
            r.wf(),
    {
        ComplexValue { re: self.re.sub(other.re), im: self.im.sub(other.im) }
    }

    /// Generalized product under `i2`.
    pub fn mul_c(self, other: ComplexValue, i2: ComplexValue) -> (r: ComplexValue)
        requires
            self.wf(),
            other.wf(),
            i2.wf(),
        ensures
            r == c_mul(self, other, i2),
            r.wf(),
    {
        let ac = self.re.mul(other.re);
        let ad = self.re.mul(other.im);
        let bc = self.im.mul(other.re);
        let bd = self.im.mul(other.im);
        let t_re = bd.mul(i2.re);
        let t_im = bd.mul(i2.im);
        ComplexValue { re: ac.add(t_re), im: ad.add(bc).add(t_im) }
    }

    /// Exact squared norm in raw units.
    pub fn nsq_raw(&self) -> (r: i128)
        requires
            self.wf(),
        ensures
            r == c_nsq_raw(*self),
            0 <= r <= FX_SAT * FX_SAT * 2,
    {
        proof {
            lemma_nsq_bounds(self.re.m as int, self.im.m as int);
        }
        self.re.m * self.re.m + self.im.m * self.im.m
    }

    /// Standard complex quotient; the divisor must not be exactly zero.
    pub fn div_c(self, other: ComplexValue) -> (r: ComplexValue)
        requires
            self.wf(),
            other.wf(),
            !(other.re.m == 0 && other.im.m == 0),
        ensures
            r == c_div(self, other),
            r.wf(),
    {
        let den = other.nsq_raw();
        proof {
            lemma_nsq_pos(other.re.m as int, other.im.m as int);
            lemma_num_bounds(
                self.re.m as int,
                self.im.m as int,
                other.re.m as int,
                other.im.m as int,
            );
        }
        let num_re: i128 = self.re.m * other.re.m + self.im.m * other.im.m;
        let num_im: i128 = self.im.m * other.re.m - self.re.m * other.im.m;
        ComplexValue { re: crate::fixed::fx_ratio(num_re, den), im: crate::fixed::fx_ratio(num_im, den) }
    }
}

/// The raw squared norm of an admissible value is within `i128` range.
proof fn lemma_nsq_bounds(a: int, b: int)
    by (nonlinear_arith)
    requires
        -FX_SAT <= a <= FX_SAT,
        -FX_SAT <= b <= FX_SAT,
    ensures
        0 <= a * a <= FX_SAT * FX_SAT,
        0 <= b * b <= FX_SAT * FX_SAT,
        0 <= a * a + b * b <= FX_SAT * FX_SAT * 2,
{
}

/// A value with some nonzero component has a positive raw squared norm.
proof fn lemma_nsq_pos(a: int, b: int)
    by (nonlinear_arith)
    requires
        !(a == 0 && b == 0),
    ensures
        a * a + b * b > 0,
{
}

/// The square of an admissible mantissa is within `i128` range.
pub proof fn lemma_sq_fits(x: int)
    by (nonlinear_arith)
    requires
        -FX_SAT <= x <= FX_SAT,
    ensures
        0 <= x * x <= FX_SAT * FX_SAT,
{
}

/// The conjugate-formula numerators of a quotient are within `i128` range.
proof fn lemma_num_bounds(a: int, b: int, c: int, d: int)
    by (nonlinear_arith)
    requires
        -FX_SAT <= a <= FX_SAT,
        -FX_SAT <= b <= FX_SAT,
        -FX_SAT <= c <= FX_SAT,
        -FX_SAT <= d <= FX_SAT,
    ensures
        -FX_SAT * FX_SAT <= a * c <= FX_SAT * FX_SAT,
        -FX_SAT * FX_SAT <= b * d <= FX_SAT * FX_SAT,
        -FX_SAT * FX_SAT <= b * c <= FX_SAT * FX_SAT,
        -FX_SAT * FX_SAT <= a * d <= FX_SAT * FX_SAT,
        -FX_SAT * FX_SAT * 4 <= a * c + b * d <= FX_SAT * FX_SAT * 4,
        -FX_SAT * FX_SAT * 4 <= b * c - a * d <= FX_SAT * FX_SAT * 4,
{
}

} // verus!
