//! Escape-time iteration drivers.
//!
//! These run the formula engine per step: the next iterate is the formula's
//! value, or `z*z + c` in the active system when the formula fails to
//! evaluate — callers rely on that fallback-on-error policy to always get a
//! picture.  Iteration stops when the squared norm passes the bailout's
//! square, or after the iteration cap.

use vstd::prelude::*;
use vstd::string::StringSliceAdditionalSpecFns;
use crate::complex::{ComplexValue, c_add, c_mul, c_nsq_raw};
use crate::fixed::{Fx, fx_sat, FX_SAT, FX_SCALE};
use crate::formula::evaluate_formula_spec;

verus! {

/// Parameters for escape-time rendering.
#[derive(Debug, Clone)]
pub struct FractalParams {
    /// Bounds of the rendered plane: `[x_min, x_max, y_min, y_max]`.
    pub bounds: [Fx; 4],
    /// Iteration cap per point.
    pub max_iterations: u32,
    /// The constant for Julia iteration.
    pub spawn: ComplexValue,
    /// Escape threshold on the norm.
    pub bailout: Fx,
    /// The iteration formula, e.g. `z^2 + c`.
    pub formula: String,
    /// The value that the square of the imaginary unit equals; `-1 + 0i`
    /// is the standard system.
    pub i_squared: ComplexValue,
}

impl FractalParams {
    /// All numeric fields are admissible.
    pub open spec fn wf(self) -> bool {
        self.spawn.wf() && self.bailout.wf() && self.i_squared.wf()
    }

    /// The formula's bytes.
    pub open spec fn formula_bytes(self) -> Seq<u8> {
        vstd::utf8::encode_utf8(self.formula@)
    }

    /// Build parameters; the number system defaults to the standard one.
    pub fn new(
        bounds: [Fx; 4],
        max_iterations: u32,
        spawn: ComplexValue,
        bailout: Fx,
        formula: String,
    ) -> (r: FractalParams)
        requires
            spawn.wf(),
            bailout.wf(),
        ensures
            r.bounds == bounds,
            r.max_iterations == max_iterations,
            r.spawn == spawn,
            r.bailout == bailout,
            r.formula == formula,
            r.i_squared == crate::power::std_i2(),
            r.wf(),
    {
        FractalParams {
            bounds,
            max_iterations,
            spawn,
            bailout,
            formula,
            i_squared: crate::power::standard_i_squared(),
        }
    }
}

/// One iteration step: the formula's value, or `z*z + c` on a formula
/// error.
pub open spec fn iter_step(
    s: Seq<u8>,
    z: ComplexValue,
    c: ComplexValue,
    i2: ComplexValue,
) -> ComplexValue {
    match evaluate_formula_spec(s, z, c, i2) {
        Result::Ok(v) => v,
        Result::Err(_) => c_add(c_mul(z, z, i2), c),
    }
}

/// Completed iterations before escape, out of `rem` remaining: a step
/// whose result's raw squared norm passes the bailout's squared mantissa
/// does not count.
pub open spec fn escape_steps(
    s: Seq<u8>,
    z: ComplexValue,
    c: ComplexValue,
    bail_m: int,
    i2: ComplexValue,
    rem: nat,
) -> nat
    decreases rem,
{
    if rem == 0 {
        0
    } else {
        let z1 = iter_step(s, z, c, i2);
        if c_nsq_raw(z1) > bail_m * bail_m {
            0
        } else {
            1 + escape_steps(s, z1, c, bail_m, i2, (rem - 1) as nat)
        }
    }
}

/// The completed steps never exceed the remaining budget.
pub proof fn lemma_escape_steps_le(
    s: Seq<u8>,
    z: ComplexValue,
    c: ComplexValue,
    bail_m: int,
    i2: ComplexValue,
    rem: nat,
)
    ensures
        escape_steps(s, z, c, bail_m, i2, rem) <= rem,
    decreases rem,
{
    if rem > 0 {
        let z1 = iter_step(s, z, c, i2);
        if !(c_nsq_raw(z1) > bail_m * bail_m) {
            lemma_escape_steps_le(s, z1, c, bail_m, i2, (rem - 1) as nat);
        }
    }
}

/// Run the iteration loop from `z0` with constant `c`.
fn run_iterations(z0: ComplexValue, c: ComplexValue, params: &FractalParams) -> (r: u32)
    requires
        z0.wf(),
        c.wf(),
        params.wf(),
    ensures
        r == escape_steps(
            params.formula_bytes(),
            z0,
            c,
            params.bailout.m as int,
            params.i_squared,
            params.max_iterations as nat,
        ),
        r <= params.max_iterations,
{
    let maxi = params.max_iterations;
    let i2 = params.i_squared;
    let bm = params.bailout.m;
    proof {
        crate::complex::lemma_sq_fits(bm as int);
    }
    let bsq: i128 = bm * bm;
    let mut z = z0;
    let mut iter: u32 = 0;
    loop
        invariant
            iter <= maxi,
            z.wf(),
            c.wf(),
            i2.wf(),
            -FX_SAT <= bm <= FX_SAT,
            bsq == bm * bm,
            i2 == params.i_squared,
            bm == params.bailout.m,
            maxi == params.max_iterations,
            escape_steps(
                params.formula_bytes(),
                z0,
                c,
                bm as int,
                i2,
                maxi as nat,
            ) == iter + escape_steps(
                params.formula_bytes(),
                z,
                c,
                bm as int,
                i2,
                (maxi - iter) as nat,
            ),
        ensures
            iter == escape_steps(
                params.formula_bytes(),
                z0,
                c,
                bm as int,
                i2,
                maxi as nat,
            ),
        decreases maxi - iter,
    {
        if iter >= maxi {
            proof {
                assert(escape_steps(params.formula_bytes(), z, c, bm as int, i2, 0nat) == 0);
            }
            break ;
        }
        let z1 = match crate::formula::evaluate_formula(
            params.formula.as_str(),
            z,
            c,
            i2,
        ) {
            Result::Ok(v) => v,
            Result::Err(_) => z.mul_c(z, i2).add_c(c),
        };
        if z1.nsq_raw() > bsq {
            break ;
        }
        proof {
            lemma_escape_steps_le(
                params.formula_bytes(),
                z1,
                c,
                bm as int,
                i2,
                (maxi - iter - 1) as nat,
            );
        }
        z = z1;
        iter = iter + 1;
    }
    iter
}

/// Iterations a Mandelbrot point `c` survives, starting from `z = 0`.
pub fn mandelbrot_iterations(c: ComplexValue, params: &FractalParams) -> (r: u32)
    requires
        c.wf(),
        params.wf(),
    ensures
        r == escape_steps(
            params.formula_bytes(),
            crate::laws::zero_value(),
            c,
            params.bailout.m as int,
            params.i_squared,
            params.max_iterations as nat,
        ),
        r <= params.max_iterations,
{
    run_iterations(ComplexValue::zero(), c, params)
}

/// Iterations a Julia point `z` survives, with the spawn constant as `c`.
pub fn julia_iterations(z: ComplexValue, params: &FractalParams) -> (r: u32)
    requires
        z.wf(),
        params.wf(),
    ensures
        r == escape_steps(
            params.formula_bytes(),
            z,
            params.spawn,
            params.bailout.m as int,
            params.i_squared,
            params.max_iterations as nat,
        ),
        r <= params.max_iterations,
{
    run_iterations(z, params.spawn, params)
}

/// Map a pixel to its point of the complex plane: the first pixel of an
/// axis sits on the lower bound and the last on the upper bound.
pub open spec fn pixel_coord_spec(p: int, extent: int, lo: Fx, hi: Fx) -> Fx {
    if extent > 1 {
        let t = Fx {
            m: crate::fixed::fx_div_m(fx_sat(p * FX_SCALE), fx_sat((extent - 1) * FX_SCALE))
                as i128,
        };
        let span = Fx { m: fx_sat(hi.m - lo.m) as i128 };
        Fx { m: fx_sat(lo.m + crate::fixed::fx_mul_m(t.m as int, span.m as int)) as i128 }
    } else {
        lo
    }
}

/// Exec counterpart of [`pixel_coord_spec`].
fn pixel_coord(p: u32, extent: u32, lo: Fx, hi: Fx) -> (r: Fx)
    requires
        lo.wf(),
        hi.wf(),
    ensures
        r == pixel_coord_spec(p as int, extent as int, lo, hi),
        r.wf(),
{
    if extent > 1 {
        let t = Fx::from_int(p as i64).div(Fx::from_int((extent - 1) as i64));
        let span = hi.sub(lo);
        lo.add(t.mul(span))
    } else {
        lo
    }
}

/// Convert pixel coordinates to complex plane coordinates; `bounds` is
/// `[x_min, x_max, y_min, y_max]`.
pub fn pixel_to_complex(x: u32, y: u32, width: u32, height: u32, bounds: [Fx; 4]) -> (r:
    ComplexValue)
    requires
        forall|k: int| 0 <= k < 4 ==> bounds@[k].wf(),
    ensures
        r.re == pixel_coord_spec(x as int, width as int, bounds@[0], bounds@[1]),
        r.im == pixel_coord_spec(y as int, height as int, bounds@[2], bounds@[3]),
        r.wf(),
{
    let re = pixel_coord(x, width, bounds[0], bounds[1]);
    let im = pixel_coord(y, height, bounds[2], bounds[3]);
    ComplexValue { re, im }
}

} // verus!
