//! Hyperoperations: tetration, pentation and hexation.
//!
//! These towers grow so explosively that almost any iterate leaves the
//! bounded region within a step or two, so the evaluator keeps only the
//! shallow, stable cases and falls back to safe defaults elsewhere:
//!
//! * `tetrate(b, h)` is computed for real, whole heights 1 through 5, with a
//!   sentinel `1e5 + 1e5 i` substituted whenever a stage's squared norm
//!   passes `1e10`, and heights 4 and 5 iterated with an early stop; every
//!   other height yields the safe default `1 + 0i` — continuous tetration is
//!   out of scope by design;
//! * `pentate(b, l)` handles whole levels 1 and 2 (`pentate(b, 2)` is
//!   `tetrate(b, b)`), defaulting to `1 + 0i` beyond;
//! * `hexate(b, l)` handles whole levels 1 and 2 (`hexate(b, 2)` is
//!   `pentate(b, b)`), defaulting likewise.
//!
//! The clamp threshold, the sentinel and the height caps are part of the
//! rendered output and are fixed behavior, not tunables.  Each stage of a
//! tower is the raw complex power (`Complex64::powc`, with an
//! unrepresentable outcome becoming `0 + 0i`), computed in the standard
//! system whatever the active `i_squared` — towers under a custom unit are
//! out of scope, as in the edge-rule power.

use vstd::prelude::*;
use crate::complex::{ComplexValue, c_nsq_raw};
use crate::fixed::{Fx, FX_SCALE};
use crate::trans::{interp_raw, powc_of};

verus! {

/// Raw squared norm (units of `2^-48`) above which a tetration stage has
/// overflowed: the values past `1e10`.
pub const HYPER_OVF_RAW: i128 = 2814749767106560000000000;

/// Mantissa of the overflow sentinel's components: `1e5` on the grid.
pub const HYPER_SENT_M: i128 = 1677721600000;

/// The overflow sentinel `1e5 + 1e5 i`.
pub open spec fn hyper_sentinel() -> ComplexValue {
    ComplexValue { re: Fx { m: HYPER_SENT_M }, im: Fx { m: HYPER_SENT_M } }
}

/// The safe default `1 + 0i` for heights outside the supported range.
pub open spec fn hyper_default() -> ComplexValue {
    ComplexValue { re: Fx { m: FX_SCALE }, im: Fx { m: 0 } }
}

/// Whether `h` is a real, whole height in `1 ..= cap`.
pub open spec fn whole_height(h: ComplexValue, cap: int) -> bool {
    h.im.m == 0 && h.re.m > 0 && h.re.m <= cap * FX_SCALE && h.re.m % FX_SCALE == 0
}

/// A stage has overflowed when its raw squared norm passes `1e10`.
pub open spec fn hyper_ovf(z: ComplexValue) -> bool {
    c_nsq_raw(z) > HYPER_OVF_RAW
}

/// One tower stage: the raw complex power, with the substitution rule.
pub open spec fn stage_pow(b: ComplexValue, e: ComplexValue) -> ComplexValue {
    interp_raw(powc_of(b, e))
}

/// The iterated tower for heights of 4 and up: `k` remaining steps of
/// `acc <- b ^ acc`, stopping early on an overflowed stage and returning the
/// last value reached.
pub open spec fn tet_iter(b: ComplexValue, k: int, acc: ComplexValue, i2: ComplexValue) -> ComplexValue
    decreases k,
{
    if k <= 0 {
        acc
    } else if hyper_ovf(acc) {
        acc
    } else {
        tet_iter(b, k - 1, stage_pow(b, acc), i2)
    }
}

/// Tetration at a whole height `n >= 1`.
pub open spec fn tet_n(b: ComplexValue, n: int, i2: ComplexValue) -> ComplexValue {
    if n == 1 {
        b
    } else if n == 2 {
        let t = stage_pow(b, b);
        if hyper_ovf(t) {
            hyper_sentinel()
        } else {
            t
        }
    } else if n == 3 {
        let t = stage_pow(b, b);
        if hyper_ovf(t) {
            hyper_sentinel()
        } else {
            let r = stage_pow(b, t);
            if hyper_ovf(r) {
                hyper_sentinel()
            } else {
                r
            }
        }
    } else {
        tet_iter(b, n - 1, b, i2)
    }
}

/// Tetration `b ^^ h`.
pub open spec fn tet_spec(b: ComplexValue, h: ComplexValue, i2: ComplexValue) -> ComplexValue {
    if whole_height(h, 5) {
        tet_n(b, h.re.m / FX_SCALE, i2)
    } else {
        hyper_default()
    }
}

/// Pentation `b ^^^ l`: level 2 is `tetrate(b, b)`.
pub open spec fn pent_spec(b: ComplexValue, l: ComplexValue, i2: ComplexValue) -> ComplexValue {
    if whole_height(l, 3) {
        if l.re.m / FX_SCALE == 1 {
            b
        } else if l.re.m / FX_SCALE == 2 {
            tet_spec(b, b, i2)
        } else {
            hyper_default()
        }
    } else {
        hyper_default()
    }
}

/// Hexation `b ^^^^ l`: level 2 is `pentate(b, b)`.
pub open spec fn hex_spec(b: ComplexValue, l: ComplexValue, i2: ComplexValue) -> ComplexValue {
    if whole_height(l, 2) {
        if l.re.m / FX_SCALE == 1 {
            b
        } else {
            pent_spec(b, b, i2)
        }
    } else {
        hyper_default()
    }
}

/// Whether `h` is a real, whole height in `1 ..= cap` (exec).
fn whole_height_exec(h: &ComplexValue, cap: i128) -> (r: bool)
    requires
        h.wf(),
        1 <= cap <= 16,
    ensures
        r == whole_height(*h, cap as int),
{
    h.im.m == 0 && h.re.m > 0 && h.re.m <= cap * FX_SCALE && h.re.m % FX_SCALE == 0
}

/// The overflow sentinel (exec).
fn sentinel_exec() -> (r: ComplexValue)
    ensures
        r == hyper_sentinel(),
        r.wf(),
{
    ComplexValue { re: Fx { m: HYPER_SENT_M }, im: Fx { m: HYPER_SENT_M } }
}

/// The safe default (exec).
fn default_exec() -> (r: ComplexValue)
    ensures
        r == hyper_default(),
        r.wf(),
{
    ComplexValue { re: Fx { m: FX_SCALE }, im: Fx { m: 0 } }
}

/// Tetration `b ^^ h` under the active `i_squared`.
pub fn tetration(b: ComplexValue, h: ComplexValue, i2: ComplexValue) -> (r: ComplexValue)
    requires
        b.wf(),
        h.wf(),
        i2.wf(),
    ensures
        r == tet_spec(b, h, i2),
        r.wf(),
{
    if !whole_height_exec(&h, 5) {
        return default_exec();
    }
    let n: i128 = h.re.m / FX_SCALE;
    if n == 1 {
        b
    } else if n == 2 {
        let t = crate::trans::powc_c(&b, &b);
        if t.nsq_raw() > HYPER_OVF_RAW {
            sentinel_exec()
        } else {
            t
        }
    } else if n == 3 {
        let t = crate::trans::powc_c(&b, &b);
        if t.nsq_raw() > HYPER_OVF_RAW {
            sentinel_exec()
        } else {
            let r = crate::trans::powc_c(&b, &t);
            if r.nsq_raw() > HYPER_OVF_RAW {
                sentinel_exec()
            } else {
                r
            }
        }
    } else {
        let mut acc = b;
        let mut k: i128 = n - 1;
        let mut over = acc.nsq_raw() > HYPER_OVF_RAW;
        while k > 0 && !over
            invariant
                0 <= k <= 4,
                acc.wf(),
                b.wf(),
                i2.wf(),
                over == hyper_ovf(acc),
                tet_iter(b, k as int, acc, i2) == tet_n(b, n as int, i2),
                4 <= n <= 5,
            decreases k,
        {
            acc = crate::trans::powc_c(&b, &acc);
            over = acc.nsq_raw() > HYPER_OVF_RAW;
            k = k - 1;
        }
        acc
    }
}

/// Pentation `b ^^^ l` under the active `i_squared`.
pub fn pentation(b: ComplexValue, l: ComplexValue, i2: ComplexValue) -> (r: ComplexValue)
    requires
        b.wf(),
        l.wf(),
        i2.wf(),
    ensures
        r == pent_spec(b, l, i2),
        r.wf(),
{
    if !whole_height_exec(&l, 3) {
        return default_exec();
    }
    let n: i128 = l.re.m / FX_SCALE;
    if n == 1 {
        b
    } else if n == 2 {
        tetration(b, b, i2)
    } else {
        default_exec()
    }
}

/// Hexation `b ^^^^ l` under the active `i_squared`.
pub fn hexation(b: ComplexValue, l: ComplexValue, i2: ComplexValue) -> (r: ComplexValue)
    requires
        b.wf(),
        l.wf(),
        i2.wf(),
    ensures
        r == hex_spec(b, l, i2),
        r.wf(),
{
    if !whole_height_exec(&l, 2) {
        return default_exec();
    }
    let n: i128 = l.re.m / FX_SCALE;
    if n == 1 {
        b
    } else {
        pentation(b, b, i2)
    }
}

} // verus!
