//! Fixed-point scalars.
//!
//! A real quantity is held as an integer mantissa `m` and denotes the value
//! `m / FX_SCALE`, with `FX_SCALE = 2^24`.  Every operation saturates its
//! result mantissa into `[-FX_SAT, FX_SAT]`, so a computation never overflows
//! and never produces an unrepresentable value; an out-of-range result is
//! replaced by the nearest bound, the engine's bounded sentinel for overflow.
//! Products and quotients are truncated toward zero onto the grid.

use vstd::prelude::*;

verus! {

/// Mantissas denote multiples of `1 / FX_SCALE`; the grid step is `2^-24`.
pub const FX_SCALE: i128 = 16777216;

/// Largest admissible mantissa magnitude (`2^62`), so any product of two
/// admissible mantissas, and any sum of two such products, fits in `i128`.
pub const FX_SAT: i128 = 4611686018427387904;

/// A real number on the fixed-point grid: the value `m / FX_SCALE`.
#[derive(Debug, Clone, Copy, PartialEq, Eq, Structural)]
pub struct Fx {
    /// Mantissa: this scalar is `m / FX_SCALE`.
    pub m: i128,
}

/// Clamp an unbounded mantissa into the admissible range.
pub open spec fn fx_sat(x: int) -> int {
    if x > FX_SAT {
        FX_SAT as int
    } else if x < -FX_SAT {
        -FX_SAT as int
    } else {
        x
    }
}

/// Quotient truncated toward zero, for a positive divisor.
pub open spec fn div_trunc(x: int, d: int) -> int
    recommends
        d > 0,
{
    if x >= 0 {
        x / d
    } else {
        -((-x) / d)
    }
}

/// Mantissa of the product of two scalars: the exact product, brought back to
/// the grid by truncation toward zero, then saturated.
pub open spec fn fx_mul_m(a: int, b: int) -> int {
    fx_sat(div_trunc(a * b, FX_SCALE as int))
}

/// Mantissa of the quotient of two scalars (divisor nonzero): the exact
/// quotient on the grid, truncated toward zero, then saturated.
pub open spec fn fx_div_m(a: int, b: int) -> int
    recommends
        b != 0,
{
    if b > 0 {
        fx_sat(div_trunc(a * FX_SCALE, b))
    } else {
        fx_sat(div_trunc(-(a * FX_SCALE), -b))
    }
}

impl Fx {
    /// The mantissa lies within the saturation bounds.
    pub open spec fn wf(self) -> bool {
        -FX_SAT <= self.m <= FX_SAT
    }

    /// The scalar `n` (exact when `|n| * FX_SCALE` is within bounds).
    pub fn from_int(n: i64) -> (r: Fx)
        ensures
            r.m == fx_sat(n * FX_SCALE),
            r.wf(),
    {
        let wide: i128 = (n as i128) * FX_SCALE;
        Fx { m: sat_exec(wide) }
    }

    /// Zero.
    pub fn zero() -> (r: Fx)
        ensures
            r.m == 0,
            r.wf(),
    {
        Fx { m: 0 }
    }

    /// Whether this scalar is exactly zero.
    pub fn is_zero(&self) -> (r: bool)
        ensures
            r == (self.m == 0),
    {
        self.m == 0
    }

    /// Saturating sum.
    pub fn add(self, other: Fx) -> (r: Fx)
        requires
            self.wf(),
            other.wf(),
        ensures
            r.m == fx_sat(self.m + other.m),
            r.wf(),
    {
        Fx { m: sat_exec(self.m + other.m) }
    }

    /// Saturating difference.
    pub fn sub(self, other: Fx) -> (r: Fx)
        requires
            self.wf(),
            other.wf(),
        ensures
            r.m == fx_sat(self.m - other.m),
            r.wf(),
    {
        Fx { m: sat_exec(self.m - other.m) }
    }

    /// Negation (exact on admissible mantissas).
    pub fn neg(self) -> (r: Fx)
        requires
            self.wf(),
        ensures
            r.m == -self.m,
            r.wf(),
    {
        Fx { m: -self.m }
    }

    /// Saturating truncated product.
    pub fn mul(self, other: Fx) -> (r: Fx)
        requires
            self.wf(),
            other.wf(),
        ensures
            r.m == fx_mul_m(self.m as int, other.m as int),
            r.wf(),
    {
        proof {
            lemma_product_in_range(self.m as int, other.m as int);
        }
        let p: i128 = self.m * other.m;
        let q: i128 = if p >= 0 {
            p / FX_SCALE
        } else {
            -((-p) / FX_SCALE)
        };
        Fx { m: sat_exec(q) }
    }

    /// Saturating truncated quotient.
    pub fn div(self, other: Fx) -> (r: Fx)
        requires
            self.wf(),
            other.wf(),
            other.m != 0,
        ensures
            r.m == fx_div_m(self.m as int, other.m as int),
            r.wf(),
    {
        let num: i128 = self.m * FX_SCALE;
        let q: i128 = if other.m > 0 {
            if num >= 0 {
                num / other.m
            } else {
                -((-num) / other.m)
            }
        } else {
            if num >= 0 {
                -(num / (-other.m))
            } else {
                (-num) / (-other.m)
            }
        };
        proof {
            lemma_div_cases(self.m as int, other.m as int);
        }
        Fx { m: sat_exec(q) }
    }
}

/// Exec counterpart of `fx_sat`.
pub fn sat_exec(x: i128) -> (r: i128)
    ensures
        r == fx_sat(x as int),
        -FX_SAT <= r <= FX_SAT,
{
    if x > FX_SAT {
        FX_SAT
    } else if x < -FX_SAT {
        -FX_SAT
    } else {
        x
    }
}

/// Mantissa cap for quotients: `FX_SAT / FX_SCALE`, the largest whole-number
/// quotient that still fits once brought to the grid.
pub const FX_QCAP: i128 = 274877906944;

/// Divisors above this bound (`2^100`) drop the sub-unit correction term of a
/// quotient; the neglected part is below one grid step.
pub const FX_DEN_BIG: i128 = 1267650600228229401496703205376;

/// Mantissa of the ratio `num / den` of two raw quantities (in the same
/// units), brought to the grid by truncation toward zero and saturated.  For
/// divisors above `FX_DEN_BIG` the sub-unit part of the quotient is dropped.
pub open spec fn fx_ratio_m(num: int, den: int) -> int
    recommends
        den > 0,
{
    if den <= FX_DEN_BIG {
        fx_sat(div_trunc(num * FX_SCALE, den))
    } else {
        fx_sat(div_trunc(num, den) * FX_SCALE)
    }
}

/// Compute `fx_ratio_m(num, den)` without overflowing `i128`.
pub fn fx_ratio(num: i128, den: i128) -> (r: Fx)
    requires
        den > 0,
        -FX_SAT * FX_SAT * 4 <= num <= FX_SAT * FX_SAT * 4,
    ensures
        r.m == fx_ratio_m(num as int, den as int),
        r.wf(),
{
    let neg = num < 0;
    let n: i128 = if neg {
        -num
    } else {
        num
    };
    let q: i128 = n / den;
    proof {
        vstd::arithmetic::div_mod::lemma_fundamental_div_mod(n as int, den as int);
        vstd::arithmetic::div_mod::lemma_remainder_lower(n as int, den as int);
        vstd::arithmetic::div_mod::lemma_remainder_upper(n as int, den as int);
        vstd::arithmetic::div_mod::lemma_div_pos_is_pos(n as int, den as int);
    }
    let m_abs: i128 = if q > FX_QCAP {
        proof {
            lemma_ratio_saturates(n as int, den as int, q as int);
        }
        FX_SAT
    } else if den <= FX_DEN_BIG {
        let rem: i128 = n % den;
        proof {
            lemma_ratio_split(n as int, den as int, q as int, rem as int);
            assert(q * FX_SCALE <= FX_QCAP * FX_SCALE) by (nonlinear_arith)
                requires
                    0 <= q <= FX_QCAP,
            ;
            assert(rem * FX_SCALE < den * FX_SCALE) by (nonlinear_arith)
                requires
                    0 <= rem < den,
            ;
            assert((rem * FX_SCALE) / (den as int) < FX_SCALE) by {
                vstd::arithmetic::div_mod::lemma_multiply_divide_lt(
                    rem * FX_SCALE,
                    den as int,
                    FX_SCALE as int,
                );
            }
            vstd::arithmetic::div_mod::lemma_div_pos_is_pos(rem * FX_SCALE, den as int);
        }
        q * FX_SCALE + (rem * FX_SCALE) / den
    } else {
        q * FX_SCALE
    };
    let m_sat: i128 = if m_abs > FX_SAT {
        FX_SAT
    } else {
        m_abs
    };
    Fx { m: if neg {
        -m_sat
    } else {
        m_sat
    } }
}

/// When the whole-number quotient exceeds `FX_QCAP`, the grid mantissa of the
/// ratio saturates.
proof fn lemma_ratio_saturates(n: int, den: int, q: int)
    requires
        den > 0,
        n >= 0,
        q == n / den,
        q > FX_QCAP,
    ensures
        den <= FX_DEN_BIG ==> fx_sat(div_trunc(n * FX_SCALE, den)) == FX_SAT as int,
        den > FX_DEN_BIG ==> fx_sat(div_trunc(n, den) * FX_SCALE) == FX_SAT as int,
{
    vstd::arithmetic::div_mod::lemma_fundamental_div_mod(n, den);
    vstd::arithmetic::div_mod::lemma_remainder_lower(n, den);
    assert(n * FX_SCALE >= (q * FX_SCALE) * den) by (nonlinear_arith)
        requires
            n >= q * den,
            den > 0,
            q >= 0,
            n >= 0,
    ;
    assert(((q * FX_SCALE) * den) / den == q * FX_SCALE) by {
        vstd::arithmetic::div_mod::lemma_div_by_multiple(q * FX_SCALE, den);
    }
    vstd::arithmetic::div_mod::lemma_div_is_ordered((q * FX_SCALE) * den, n * FX_SCALE, den);
    assert(q * FX_SCALE > FX_SAT) by (nonlinear_arith)
        requires
            q > FX_QCAP,
    ;
}

/// Splitting a scaled quotient at the whole-number part is exact.
proof fn lemma_ratio_split(n: int, den: int, q: int, rem: int)
    requires
        den > 0,
        n >= 0,
        q == n / den,
        rem == n % den,
    ensures
        div_trunc(n * FX_SCALE, den) == q * FX_SCALE + (rem * FX_SCALE) / den,
{
    vstd::arithmetic::div_mod::lemma_fundamental_div_mod(n, den);
    assert(n * FX_SCALE == rem * FX_SCALE + (q * FX_SCALE) * den) by (nonlinear_arith)
        requires
            n == den * q + rem,
    ;
    vstd::arithmetic::div_mod::lemma_hoist_over_denominator(rem * FX_SCALE, q * FX_SCALE, den as nat);
    vstd::arithmetic::div_mod::lemma_div_pos_is_pos(n * FX_SCALE, den);
}

/// Floor of the square root of a nonnegative `i128` quantity.
pub fn isqrt_i128(x: i128) -> (r: i128)
    requires
        0 <= x <= FX_SAT * FX_SAT * 2,
    ensures
        0 <= r,
        r * r <= x,
        (r + 1) * (r + 1) > x,
{
    let mut lo: i128 = 0;
    let mut hi: i128 = 9223372036854775808;
    proof {
        assert(hi * hi > FX_SAT * FX_SAT * 2) by (nonlinear_arith)
            requires
                hi == 9223372036854775808i128,
        ;
    }
    while lo + 1 < hi
        invariant
            0 <= lo < hi <= 9223372036854775808,
            lo * lo <= x,
            hi * hi > x,
            0 <= x,
        decreases hi - lo,
    {
        let mid: i128 = lo + (hi - lo) / 2;
        proof {
            assert(mid * mid <= 9223372036854775808i128 * 9223372036854775808i128)
                by (nonlinear_arith)
                requires
                    0 <= mid <= 9223372036854775808i128,
            ;
        }
        if mid * mid <= x {
            lo = mid;
        } else {
            hi = mid;
        }
    }
    lo
}

/// A product of two admissible mantissas fits in `i128`.
proof fn lemma_product_in_range(a: int, b: int)
    by (nonlinear_arith)
    requires
        -FX_SAT <= a <= FX_SAT,
        -FX_SAT <= b <= FX_SAT,
    ensures
        -(FX_SAT as int) * (FX_SAT as int) <= a * b <= (FX_SAT as int) * (FX_SAT as int),
{
}

/// Sign-splitting of the truncated quotient agrees with `fx_div_m`'s shape.
proof fn lemma_div_cases(a: int, b: int)
    requires
        b != 0,
    ensures
        b < 0 ==> div_trunc(-(a * FX_SCALE), -b) == if a * FX_SCALE >= 0 {
            -((a * FX_SCALE) / (-b))
        } else {
            (-(a * FX_SCALE)) / (-b)
        },
{
}

} // verus!
