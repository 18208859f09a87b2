//! Parsing standalone complex-number text.
//!
//! Accepted forms, after trimming surrounding whitespace: `i`, `-i`, a
//! plain signed decimal (`1`, `-2.5`), a signed decimal followed by
//! `i`/`I` (`2i`, `-3.5I`), and a pair `a+bi` / `a-bi` where the
//! imaginary half may be a bare sign (`1+i`, `1-i`).  Decimals are a sign,
//! digits and at most one decimal point — no exponent notation — and are
//! put on the grid exactly as the tokenizer puts literals there.

use vstd::prelude::*;
use vstd::string::StringSliceAdditionalSpecFns;
use crate::complex::ComplexValue;
use crate::error::{EvaluationError, SpecError};
use crate::fixed::{Fx, FX_SCALE, FX_SAT};
use crate::token::{digits_end, is_space, lit_mantissa};

verus! {

/// First index at or after `i` holding a non-space byte.
pub open spec fn trim_start(s: Seq<u8>, i: int) -> int
    decreases s.len() - i,
{
    if 0 <= i < s.len() && is_space(s[i]) {
        trim_start(s, i + 1)
    } else {
        i
    }
}

/// Bound at or before `j` with trailing spaces dropped.
pub open spec fn trim_end(s: Seq<u8>, j: int) -> int
    decreases j,
{
    if 0 < j <= s.len() && is_space(s[j - 1]) {
        trim_end(s, j - 1)
    } else {
        j
    }
}

/// The input with surrounding whitespace removed.
pub open spec fn trim_spec(s: Seq<u8>) -> Seq<u8> {
    let a = trim_start(s, 0);
    let b = trim_end(s, s.len() as int);
    if a < b {
        s.subrange(a, b)
    } else {
        Seq::empty()
    }
}

/// The grid mantissa a signed decimal denotes, if the whole string is one.
pub open spec fn dec_value(s: Seq<u8>) -> Option<int> {
    if s.len() == 0 {
        Option::None
    } else {
        let start: int = if s[0] == 43 || s[0] == 45 {
            1
        } else {
            0
        };
        let neg = s[0] == 45;
        let e1 = digits_end(s, start);
        let has_dot = e1 < s.len() && s[e1] == 46;
        let e2 = if has_dot {
            digits_end(s, e1 + 1)
        } else {
            e1
        };
        let has_digit = e1 > start || (has_dot && e2 > e1 + 1);
        if e2 == s.len() && has_digit {
            if neg {
                Option::Some(-lit_mantissa(s, start))
            } else {
                Option::Some(lit_mantissa(s, start))
            }
        } else {
            Option::None
        }
    }
}

/// First `+`/`-` at an index past the first byte, if any.
pub open spec fn find_sign(s: Seq<u8>, i: int) -> Option<int>
    decreases s.len() - i,
{
    if i < 1 || i >= s.len() {
        Option::None
    } else if s[i] == 43 || s[i] == 45 {
        Option::Some(i)
    } else {
        find_sign(s, i + 1)
    }
}

/// What [`parse_complex_number`] returns on the given bytes.
pub open spec fn parse_complex_spec(s: Seq<u8>) -> Result<ComplexValue, SpecError> {
    let t = trim_spec(s);
    if t == seq![105u8] {
        Result::Ok(ComplexValue { re: Fx { m: 0 }, im: Fx { m: FX_SCALE } })
    } else if t == seq![45u8, 105u8] {
        Result::Ok(ComplexValue { re: Fx { m: 0 }, im: Fx { m: crate::power::FX_SCALE_NEG } })
    } else if dec_value(t) is Some {
        Result::Ok(
            ComplexValue { re: Fx { m: dec_value(t)->Some_0 as i128 }, im: Fx { m: 0 } },
        )
    } else if t.len() >= 1 && (t[t.len() - 1] == 105 || t[t.len() - 1] == 73) && dec_value(
        t.subrange(0, t.len() - 1),
    ) is Some {
        Result::Ok(
            ComplexValue {
                re: Fx { m: 0 },
                im: Fx { m: dec_value(t.subrange(0, t.len() - 1))->Some_0 as i128 },
            },
        )
    } else {
        match find_sign(t, 1) {
            Option::Some(pos) => {
                let re_part = t.subrange(0, pos);
                let im_part = t.subrange(pos, t.len() as int);
                let im_clean = if im_part.len() >= 1 && (im_part[im_part.len() - 1] == 105
                    || im_part[im_part.len() - 1] == 73) {
                    im_part.subrange(0, im_part.len() - 1)
                } else {
                    im_part
                };
                match dec_value(re_part) {
                    Option::Some(rm) => {
                        if im_clean == seq![43u8] {
                            Result::Ok(
                                ComplexValue { re: Fx { m: rm as i128 }, im: Fx { m: FX_SCALE } },
                            )
                        } else if im_clean == seq![45u8] {
                            Result::Ok(
                                ComplexValue {
                                    re: Fx { m: rm as i128 },
                                    im: Fx { m: crate::power::FX_SCALE_NEG },
                                },
                            )
                        } else {
                            match dec_value(im_clean) {
                                Option::Some(im) => Result::Ok(
                                    ComplexValue {
                                        re: Fx { m: rm as i128 },
                                        im: Fx { m: im as i128 },
                                    },
                                ),
                                Option::None => Result::Err(SpecError::InvalidNumber(im_clean)),
                            }
                        }
                    },
                    Option::None => Result::Err(SpecError::InvalidNumber(re_part)),
                }
            },
            Option::None => Result::Err(SpecError::UnparsableComplex(t)),
        }
    }
}

/// Parse a signed decimal covering the whole slice (exec).
fn parse_decimal(s: &[u8]) -> (r: Option<Fx>)
    ensures
        (match r {
            Option::Some(f) => dec_value(s@) == Option::Some(f.m as int) && f.wf(),
            Option::None => dec_value(s@) is None,
        }),
{
    let n = s.len();
    if n == 0 {
        return Option::None;
    }
    let start: usize = if s[0] == 43 || s[0] == 45 {
        1
    } else {
        0
    };
    let neg = s[0] == 45;
    let e1 = crate::token::digits_end_exec(s, start);
    let has_dot = e1 < n && s[e1] == 46;
    let e2 = if has_dot {
        crate::token::digits_end_exec(s, e1 + 1)
    } else {
        e1
    };
    let has_digit = e1 > start || (has_dot && e2 > e1 + 1);
    if e2 == n && has_digit {
        let m = crate::token::lit_mantissa_exec(s, start, e1, has_dot, e2);
        if neg {
            Option::Some(Fx { m: -m })
        } else {
            Option::Some(Fx { m })
        }
    } else {
        Option::None
    }
}

/// Parse a complex number from text such as `1`, `i`, `-i`, `2i`, `1+2i`
/// or `1-2i`.
pub fn parse_complex_number(s: &str) -> (r: Result<ComplexValue, EvaluationError>)
    ensures
        (match r {
            Result::Ok(v) => parse_complex_spec(s.spec_bytes()) == Result::<
                ComplexValue,
                SpecError,
            >::Ok(v) && v.wf(),
            Result::Err(er) => parse_complex_spec(s.spec_bytes()) == Result::<
                ComplexValue,
                SpecError,
            >::Err(er.deep_view()),
        }),
{
    let bytes = s.as_bytes();
    let n = bytes.len();
    let mut a: usize = 0;
    while a < n && (bytes[a] == 32 || bytes[a] == 9 || bytes[a] == 10 || bytes[a] == 13)
        invariant
            a <= n,
            n == bytes@.len(),
            trim_start(bytes@, 0) == trim_start(bytes@, a as int),
        decreases n - a,
    {
        a = a + 1;
    }
    let mut b: usize = n;
    while b > 0 && (bytes[b - 1] == 32 || bytes[b - 1] == 9 || bytes[b - 1] == 10 || bytes[b - 1]
        == 13)
        invariant
            b <= n,
            n == bytes@.len(),
            trim_end(bytes@, n as int) == trim_end(bytes@, b as int),
        decreases b,
    {
        b = b - 1;
    }
    let t: &[u8] = if a < b {
        vstd::slice::slice_subrange(bytes, a, b)
    } else {
        vstd::slice::slice_subrange(bytes, 0, 0)
    };
    proof {
        assert(t@ =~= trim_spec(bytes@));
    }
    let tn = t.len();
    if tn == 1 && t[0] == 105 {
        proof {
            assert(t@ =~= seq![105u8]);
        }
        return Result::Ok(ComplexValue { re: Fx { m: 0 }, im: Fx { m: FX_SCALE } });
    }
    proof {
        if t@.len() != 1 || t@[0] != 105 {
            assert(t@ != seq![105u8]);
        }
    }
    if tn == 2 && t[0] == 45 && t[1] == 105 {
        proof {
            assert(t@ =~= seq![45u8, 105u8]);
        }
        return Result::Ok(ComplexValue { re: Fx { m: 0 }, im: Fx { m: -FX_SCALE } });
    }
    proof {
        if t@.len() != 2 || t@[0] != 45 || t@[1] != 105 {
            assert(t@ != seq![45u8, 105u8]);
        }
    }
    match parse_decimal(t) {
        Option::Some(f) => {
            return Result::Ok(ComplexValue { re: f, im: Fx { m: 0 } });
        },
        Option::None => {},
    }
    if tn >= 1 && (t[tn - 1] == 105 || t[tn - 1] == 73) {
        match parse_decimal(vstd::slice::slice_subrange(t, 0, tn - 1)) {
            Option::Some(f) => {
                return Result::Ok(ComplexValue { re: Fx { m: 0 }, im: f });
            },
            Option::None => {},
        }
    }
    let mut pos: usize = 1;
    while pos < tn && !(t[pos] == 43 || t[pos] == 45)
        invariant
            1 <= pos,
            tn >= 1 ==> pos <= tn,
            tn == t@.len(),
            find_sign(t@, 1) == find_sign(t@, pos as int),
        decreases tn - pos,
    {
        pos = pos + 1;
    }
    if tn < 1 || pos >= tn {
        return Result::Err(
            EvaluationError::UnparsableComplex(vstd::slice::slice_to_vec(t)),
        );
    }
    let re_part = vstd::slice::slice_subrange(t, 0, pos);
    let im_part = vstd::slice::slice_subrange(t, pos, tn);
    let im_n = im_part.len();
    let im_clean: &[u8] = if im_n >= 1 && (im_part[im_n - 1] == 105 || im_part[im_n - 1] == 73) {
        vstd::slice::slice_subrange(im_part, 0, im_n - 1)
    } else {
        im_part
    };
    match parse_decimal(re_part) {
        Option::Some(rf) => {
            if im_clean.len() == 1 && im_clean[0] == 43 {
                proof {
                    assert(im_clean@ =~= seq![43u8]);
                }
                Result::Ok(ComplexValue { re: rf, im: Fx { m: FX_SCALE } })
            } else if im_clean.len() == 1 && im_clean[0] == 45 {
                proof {
                    assert(im_clean@ =~= seq![45u8]);
                    assert(im_clean@ != seq![43u8]);
                }
                Result::Ok(ComplexValue { re: rf, im: Fx { m: -FX_SCALE } })
            } else {
                proof {
                    if im_clean@.len() != 1 || im_clean@[0] != 43 {
                        assert(im_clean@ != seq![43u8]);
                    }
                    if im_clean@.len() != 1 || im_clean@[0] != 45 {
                        assert(im_clean@ != seq![45u8]);
                    }
                }
                match parse_decimal(im_clean) {
                    Option::Some(imf) => Result::Ok(ComplexValue { re: rf, im: imf }),
                    Option::None => Result::Err(
                        EvaluationError::InvalidNumber(vstd::slice::slice_to_vec(im_clean)),
                    ),
                }
            }
        },
        Option::None => Result::Err(
            EvaluationError::InvalidNumber(vstd::slice::slice_to_vec(re_part)),
        ),
    }
}

} // verus!
