//! Complex exponentiation with the engine's edge rules.
//!
//! `base^exponent` is evaluated in this priority order:
//!
//! 1. a degenerate base (squared norm below one part in `10^10`) gives
//!    `1 + 0i` when the exponent is degenerate too (the `0^0` convention),
//!    and `0 + 0i` otherwise;
//! 2. a real exponent uses the real-power formula — exactly, by repeated
//!    generalized multiplication, when the exponent is a small whole number,
//!    and through `Complex64::powf` otherwise — and the result's norm is
//!    clamped to at most 10 by uniform rescaling;
//! 3. a general complex exponent goes through `Complex64::powc` and the
//!    result's norm is clamped to at most 2.
//!
//! The asymmetric clamps are deliberate: unclamped complex exponentiation in
//! an iterated map escapes almost at once, and the bounds keep the fractal
//! structure visible.  They are an approximation by design, not an accident.
//! An unrepresentable outcome of a power call becomes `0 + 0i`.

use vstd::prelude::*;
use crate::complex::{ComplexValue, c_mul, c_nsq_raw};
use crate::fixed::{Fx, fx_ratio_m, FX_SCALE, FX_SAT};
use crate::trans::{interp_raw, powf_of, powc_of};

verus! {

/// Largest raw squared norm (units of `2^-48`) that still counts as
/// degenerate: the values strictly below one part in `10^10`.
pub const DEGEN_RAW_MAX: i128 = 28147;

/// Whole-number exponents up to this bound are computed exactly by repeated
/// multiplication; larger or negative ones go through `powf`.
pub const POW_ITER_MAX: i128 = 64;

/// Floor of the square root of a nonnegative integer.
pub open spec fn sqrt_floor(x: int) -> int
    recommends
        x >= 0,
    decreases x,
{
    if x < 1 {
        0
    } else if x < 4 {
        1
    } else {
        let r = 2 * sqrt_floor(x / 4);
        if (r + 1) * (r + 1) <= x {
            r + 1
        } else {
            r
        }
    }
}

/// `sqrt_floor` really is the floor of the square root.
pub proof fn lemma_sqrt_floor_props(x: int)
    requires
        x >= 0,
    ensures
        0 <= sqrt_floor(x),
        sqrt_floor(x) * sqrt_floor(x) <= x,
        (sqrt_floor(x) + 1) * (sqrt_floor(x) + 1) > x,
    decreases x,
{
    if x < 1 {
        assert(sqrt_floor(x) == 0);
        assert((sqrt_floor(x) + 1) * (sqrt_floor(x) + 1) > x) by (nonlinear_arith)
            requires
                sqrt_floor(x) == 0,
                0 <= x < 1,
        ;
    } else if x < 4 {
        assert(sqrt_floor(x) == 1);
        assert((sqrt_floor(x) + 1) * (sqrt_floor(x) + 1) > x) by (nonlinear_arith)
            requires
                sqrt_floor(x) == 1,
                x < 4,
        ;
    } else {
        lemma_sqrt_floor_props(x / 4);
        let q = x / 4;
        let r0 = sqrt_floor(q);
        vstd::arithmetic::div_mod::lemma_fundamental_div_mod(x, 4);
        assert((2 * r0) * (2 * r0) <= x) by (nonlinear_arith)
            requires
                r0 * r0 <= q,
                x >= 4 * q,
                r0 >= 0,
        ;
        assert((2 * r0 + 2) * (2 * r0 + 2) > x) by (nonlinear_arith)
            requires
                (r0 + 1) * (r0 + 1) > q,
                x < 4 * q + 4,
                r0 >= 0,
        ;
        if (2 * r0 + 1) * (2 * r0 + 1) <= x {
            assert(sqrt_floor(x) == 2 * r0 + 1);
            assert((sqrt_floor(x) + 1) * (sqrt_floor(x) + 1) == (2 * r0 + 2) * (2 * r0 + 2))
                by (nonlinear_arith)
                requires
                    sqrt_floor(x) == 2 * r0 + 1,
            ;
        } else {
            assert(sqrt_floor(x) == 2 * r0);
            assert(sqrt_floor(x) * sqrt_floor(x) == (2 * r0) * (2 * r0));
            assert((sqrt_floor(x) + 1) * (sqrt_floor(x) + 1) == (2 * r0 + 1) * (2 * r0 + 1))
                by (nonlinear_arith)
                requires
                    sqrt_floor(x) == 2 * r0,
            ;
        }
    }
}

/// The floor square root is the unique nonnegative root bracketing `x`.
pub proof fn lemma_sqrt_floor_unique(x: int, r: int)
    requires
        x >= 0,
        0 <= r,
        r * r <= x,
        (r + 1) * (r + 1) > x,
    ensures
        r == sqrt_floor(x),
{
    lemma_sqrt_floor_props(x);
    let s = sqrt_floor(x);
    assert(!(r < s) && !(s < r)) by (nonlinear_arith)
        requires
            0 <= r,
            0 <= s,
            r * r <= x,
            (r + 1) * (r + 1) > x,
            s * s <= x,
            (s + 1) * (s + 1) > x,
    ;
}

/// Rescale `z` toward the origin when its norm exceeds the whole-number
/// bound, so the clamped norm is (up to grid truncation) the bound itself.
pub open spec fn c_clamp(z: ComplexValue, bound: int) -> ComplexValue {
    let nsq = c_nsq_raw(z);
    if nsq > (bound * FX_SCALE) * (bound * FX_SCALE) {
        let nm = sqrt_floor(nsq);
        ComplexValue {
            re: Fx { m: fx_ratio_m(z.re.m * bound, nm) as i128 },
            im: Fx { m: fx_ratio_m(z.im.m * bound, nm) as i128 },
        }
    } else {
        z
    }
}

/// Exec counterpart of `c_clamp`.
pub fn clamp_c(z: ComplexValue, bound: i128) -> (r: ComplexValue)
    requires
        z.wf(),
        1 <= bound <= 16,
    ensures
        r == c_clamp(z, bound as int),
        r.wf(),
{
    let nsq = z.nsq_raw();
    proof {
        assert((bound * FX_SCALE) * (bound * FX_SCALE) <= FX_SAT) by (nonlinear_arith)
            requires
                1 <= bound <= 16,
        ;
    }
    let threshold: i128 = (bound * FX_SCALE) * (bound * FX_SCALE);
    if nsq > threshold {
        let nm = crate::fixed::isqrt_i128(nsq);
        proof {
            lemma_sqrt_floor_unique(nsq as int, nm as int);
            assert(nm >= 1) by (nonlinear_arith)
                requires
                    nm >= 0,
                    (nm + 1) * (nm + 1) > nsq,
                    nsq > (bound * FX_SCALE) * (bound * FX_SCALE),
                    1 <= bound,
            ;
            assert(-FX_SAT * FX_SAT * 4 <= z.re.m * bound <= FX_SAT * FX_SAT * 4)
                by (nonlinear_arith)
                requires
                    -FX_SAT <= z.re.m <= FX_SAT,
                    1 <= bound <= 16,
            ;
            assert(-FX_SAT * FX_SAT * 4 <= z.im.m * bound <= FX_SAT * FX_SAT * 4)
                by (nonlinear_arith)
                requires
                    -FX_SAT <= z.im.m <= FX_SAT,
                    1 <= bound <= 16,
            ;
        }
        ComplexValue {
            re: crate::fixed::fx_ratio(z.re.m * bound, nm),
            im: crate::fixed::fx_ratio(z.im.m * bound, nm),
        }
    } else {
        z
    }
}

/// Left-folded repeated generalized multiplication: `b^n` for `n >= 1`,
/// rounding after every step exactly as the evaluator's `*` does.
pub open spec fn c_powi(b: ComplexValue, n: int, i2: ComplexValue) -> ComplexValue
    recommends
        n >= 1,
    decreases n,
{
    if n <= 1 {
        b
    } else {
        c_mul(c_powi(b, n - 1, i2), b, i2)
    }
}

/// Exec counterpart of `c_powi`.
fn powi_c(b: ComplexValue, n: i128, i2: ComplexValue) -> (r: ComplexValue)
    requires
        b.wf(),
        i2.wf(),
        1 <= n <= POW_ITER_MAX,
    ensures
        r == c_powi(b, n as int, i2),
        r.wf(),
{
    let mut acc = b;
    let mut k: i128 = 1;
    while k < n
        invariant
            1 <= k <= n <= POW_ITER_MAX,
            acc == c_powi(b, k as int, i2),
            acc.wf(),
            b.wf(),
            i2.wf(),
        decreases n - k,
    {
        acc = acc.mul_c(b, i2);
        k = k + 1;
    }
    acc
}

/// `base^exponent` under the edge rules, with the generalized product (under
/// `i2`) used on the exact whole-number path.
pub open spec fn pow_spec(b: ComplexValue, e: ComplexValue, i2: ComplexValue) -> ComplexValue {
    if c_nsq_raw(b) <= DEGEN_RAW_MAX {
        if c_nsq_raw(e) <= DEGEN_RAW_MAX {
            ComplexValue { re: Fx { m: FX_SCALE }, im: Fx { m: 0 } }
        } else {
            ComplexValue { re: Fx { m: 0 }, im: Fx { m: 0 } }
        }
    } else if e.im.m == 0 {
        if e.re.m % FX_SCALE == 0 && 0 <= e.re.m / FX_SCALE <= POW_ITER_MAX {
            if e.re.m == 0 {
                ComplexValue { re: Fx { m: FX_SCALE }, im: Fx { m: 0 } }
            } else {
                c_clamp(c_powi(b, e.re.m / FX_SCALE, i2), 10)
            }
        } else {
            c_clamp(interp_raw(powf_of(b, e.re)), 10)
        }
    } else {
        c_clamp(interp_raw(powc_of(b, e)), 2)
    }
}

/// Generalized power: `base^exponent` with the active `i_squared` threaded
/// through the exact whole-number path.
pub fn pow_with(b: ComplexValue, e: ComplexValue, i2: ComplexValue) -> (r: ComplexValue)
    requires
        b.wf(),
        e.wf(),
        i2.wf(),
    ensures
        r == pow_spec(b, e, i2),
        r.wf(),
{
    let bn = b.nsq_raw();
    if bn <= DEGEN_RAW_MAX {
        let en = e.nsq_raw();
        if en <= DEGEN_RAW_MAX {
            ComplexValue::one()
        } else {
            ComplexValue::zero()
        }
    } else if e.im.m == 0 {
        if e.re.m % FX_SCALE == 0 && 0 <= e.re.m / FX_SCALE && e.re.m / FX_SCALE <= POW_ITER_MAX {
            if e.re.m == 0 {
                ComplexValue::one()
            } else {
                clamp_c(powi_c(b, e.re.m / FX_SCALE, i2), 10)
            }
        } else {
            clamp_c(crate::trans::powf_c(&b, e.re), 10)
        }
    } else {
        clamp_c(crate::trans::powc_c(&b, &e), 2)
    }
}

/// The standard value of `i_squared`: `-1 + 0i`.
pub fn standard_i_squared() -> (r: ComplexValue)
    ensures
        r == std_i2(),
        r.wf(),
{
    ComplexValue { re: Fx { m: -FX_SCALE }, im: Fx { m: 0 } }
}

/// The negated grid scale, the standard `i_squared`'s real mantissa.
pub const FX_SCALE_NEG: i128 = -16777216;

/// The standard `i_squared` as a spec value.
pub open spec fn std_i2() -> ComplexValue {
    ComplexValue { re: Fx { m: FX_SCALE_NEG }, im: Fx { m: 0 } }
}

/// `base^exponent` in the standard complex system (`i_squared = -1`).
pub fn complex_pow(b: ComplexValue, e: ComplexValue) -> (r: ComplexValue)
    requires
        b.wf(),
        e.wf(),
    ensures
        r == pow_spec(b, e, std_i2()),
        r.wf(),
{
    pow_with(b, e, standard_i_squared())
}

} // verus!
