//! Tokenizer for formula text.
//!
//! The input is scanned left to right over its bytes.  Whitespace is
//! skipped; runs of digits with at most one decimal point become a
//! [`Token::Number`], or a [`Token::ComplexNumber`] when immediately
//! followed by `i`/`I`.  A bare `i`/`I` becomes [`Token::ImaginaryUnit`],
//! with an implicit [`Token::Multiply`] inserted first when it directly
//! follows a number, a closing parenthesis or an identifier.  Runs of `^`
//! are counted: one is power, two tetration, three pentation, four or more
//! hexation.  Identifiers are runs of letters, digits and underscores
//! starting with a letter; a run that is exactly `i` or `I` is the
//! imaginary unit.  Any other byte is a lexical error naming it.
//!
//! A numeric literal's value is put on the grid exactly: the whole part and
//! the first 25 fractional digits are read as integers and the mantissa is
//! their scaled, truncated, saturated combination (see [`lit_mantissa`]).

use vstd::prelude::*;
use crate::error::{EvaluationError, SpecError};
use crate::fixed::{Fx, fx_sat, FX_SCALE, FX_QCAP, FX_SAT};

verus! {

/// One lexical token.
#[derive(Debug, Clone)]
pub enum Token {
    /// A real numeric literal.
    Number(Fx),
    /// An imaginary literal: digits immediately followed by `i`/`I`.
    ComplexNumber(Fx),
    /// A bare `i`/`I`.
    ImaginaryUnit,
    /// A variable or function name.
    Identifier(Vec<u8>),
    /// `+`
    Plus,
    /// `-`
    Minus,
    /// `*`, written or implicit.
    Multiply,
    /// `/`
    Divide,
    /// `^`
    Power,
    /// `^^`
    Tetration,
    /// `^^^`
    Pentation,
    /// `^^^^` (or any longer caret run)
    Hexation,
    /// `(`
    LeftParen,
    /// `)`
    RightParen,
    /// `,`
    Comma,
}

/// Ghost image of [`Token`]: literal values as mantissas, names as byte
/// sequences.
pub enum SpecToken {
    /// A real numeric literal.
    Number(int),
    /// An imaginary literal.
    ComplexNumber(int),
    /// A bare `i`/`I`.
    ImaginaryUnit,
    /// A variable or function name.
    Identifier(Seq<u8>),
    /// `+`
    Plus,
    /// `-`
    Minus,
    /// `*`
    Multiply,
    /// `/`
    Divide,
    /// `^`
    Power,
    /// `^^`
    Tetration,
    /// `^^^`
    Pentation,
    /// `^^^^`
    Hexation,
    /// `(`
    LeftParen,
    /// `)`
    RightParen,
    /// `,`
    Comma,
}

impl DeepView for Token {
    type V = SpecToken;

    open spec fn deep_view(&self) -> SpecToken {
        match self {
            Token::Number(f) => SpecToken::Number(f.m as int),
            Token::ComplexNumber(f) => SpecToken::ComplexNumber(f.m as int),
            Token::ImaginaryUnit => SpecToken::ImaginaryUnit,
            Token::Identifier(v) => SpecToken::Identifier(v@),
            Token::Plus => SpecToken::Plus,
            Token::Minus => SpecToken::Minus,
            Token::Multiply => SpecToken::Multiply,
            Token::Divide => SpecToken::Divide,
            Token::Power => SpecToken::Power,
            Token::Tetration => SpecToken::Tetration,
            Token::Pentation => SpecToken::Pentation,
            Token::Hexation => SpecToken::Hexation,
            Token::LeftParen => SpecToken::LeftParen,
            Token::RightParen => SpecToken::RightParen,
            Token::Comma => SpecToken::Comma,
        }
    }
}

/// The ghost tokens of a token sequence.
pub open spec fn tview(s: Seq<Token>) -> Seq<SpecToken> {
    Seq::new(s.len(), |i: int| s[i].deep_view())
}

/// ASCII decimal digit.
pub open spec fn is_digit(b: u8) -> bool {
    48 <= b <= 57
}

/// ASCII letter.
pub open spec fn is_alpha(b: u8) -> bool {
    (65 <= b <= 90) || (97 <= b <= 122)
}

/// Letter, digit or underscore.
pub open spec fn is_ident_char(b: u8) -> bool {
    is_alpha(b) || is_digit(b) || b == 95
}

/// Space, tab, newline or carriage return.
pub open spec fn is_space(b: u8) -> bool {
    b == 32 || b == 9 || b == 10 || b == 13
}

/// End of the digit run starting at `i`.
pub open spec fn digits_end(s: Seq<u8>, i: int) -> int
    decreases s.len() - i,
{
    if i < 0 || i >= s.len() {
        i
    } else if is_digit(s[i]) {
        digits_end(s, i + 1)
    } else {
        i
    }
}

/// End of the identifier-character run starting at `i`.
pub open spec fn ident_end(s: Seq<u8>, i: int) -> int
    decreases s.len() - i,
{
    if i < 0 || i >= s.len() {
        i
    } else if is_ident_char(s[i]) {
        ident_end(s, i + 1)
    } else {
        i
    }
}

/// End of the caret run starting at `i`.
pub open spec fn caret_end(s: Seq<u8>, i: int) -> int
    decreases s.len() - i,
{
    if i < 0 || i >= s.len() {
        i
    } else if s[i] == 94 {
        caret_end(s, i + 1)
    } else {
        i
    }
}

/// A digit run never moves left and stays within the input.
pub proof fn lemma_digits_end_bounds(s: Seq<u8>, i: int)
    requires
        0 <= i,
    ensures
        i <= digits_end(s, i),
        i <= s.len() ==> digits_end(s, i) <= s.len(),
    decreases s.len() - i,
{
    if i < s.len() && is_digit(s[i]) {
        lemma_digits_end_bounds(s, i + 1);
    }
}

/// An identifier run never moves left and stays within the input.
pub proof fn lemma_ident_end_bounds(s: Seq<u8>, i: int)
    requires
        0 <= i,
    ensures
        i <= ident_end(s, i),
        i <= s.len() ==> ident_end(s, i) <= s.len(),
    decreases s.len() - i,
{
    if i < s.len() && is_ident_char(s[i]) {
        lemma_ident_end_bounds(s, i + 1);
    }
}

/// A caret run never moves left and stays within the input.
pub proof fn lemma_caret_end_bounds(s: Seq<u8>, i: int)
    requires
        0 <= i,
    ensures
        i <= caret_end(s, i),
        i <= s.len() ==> caret_end(s, i) <= s.len(),
    decreases s.len() - i,
{
    if i < s.len() && s[i] == 94 {
        lemma_caret_end_bounds(s, i + 1);
    }
}

/// Value of the decimal digits `s[i .. j]`, folded from the left.
pub open spec fn digits_val(s: Seq<u8>, i: int, j: int) -> int
    decreases j - i,
{
    if i >= j {
        0
    } else {
        digits_val(s, i, j - 1) * 10 + (s[j - 1] - 48)
    }
}

/// Digit values are nonnegative (over digit runs).
pub proof fn lemma_digits_val_nonneg(s: Seq<u8>, i: int, j: int)
    requires
        0 <= i,
        j <= s.len(),
        forall|k: int| i <= k < j ==> is_digit(#[trigger] s[k]),
    ensures
        digits_val(s, i, j) >= 0,
    decreases j - i,
{
    if i < j {
        lemma_digits_val_nonneg(s, i, j - 1);
        assert(digits_val(s, i, j - 1) * 10 >= 0) by (nonlinear_arith)
            requires
                digits_val(s, i, j - 1) >= 0,
        ;
    }
}

/// `10^k` for `k >= 0`.
pub open spec fn pow10(k: int) -> int
    decreases k,
{
    if k <= 0 {
        1
    } else {
        10 * pow10(k - 1)
    }
}

/// A run of `j - i` digits is worth less than `10^(j-i)`.
pub proof fn lemma_digits_val_bound(s: Seq<u8>, i: int, j: int)
    requires
        0 <= i,
        j <= s.len(),
        forall|k: int| i <= k < j ==> is_digit(#[trigger] s[k]),
    ensures
        0 <= digits_val(s, i, j) < pow10(j - i),
    decreases j - i,
{
    if i >= j {
    } else {
        lemma_digits_val_bound(s, i, j - 1);
        assert(digits_val(s, i, j - 1) * 10 + (s[j - 1] - 48) < pow10(j - i)) by (nonlinear_arith)
            requires
                0 <= digits_val(s, i, j - 1) < pow10(j - i - 1),
                pow10(j - i) == 10 * pow10(j - i - 1),
                0 <= s[j - 1] - 48 < 10,
        ;
    }
}

/// Mantissa of the numeric literal starting at `i`: whole part, then up to
/// 25 fractional digits, scaled, truncated toward zero and saturated.
pub open spec fn lit_mantissa(s: Seq<u8>, i: int) -> int {
    let e1 = digits_end(s, i);
    let has_dot = e1 < s.len() && s[e1] == 46;
    let e2 = if has_dot {
        digits_end(s, e1 + 1)
    } else {
        e1
    };
    let whole = digits_val(s, i, e1);
    let k = if has_dot {
        if e2 - (e1 + 1) > 25 {
            25
        } else {
            e2 - (e1 + 1)
        }
    } else {
        0
    };
    let frac = if has_dot {
        digits_val(s, e1 + 1, e1 + 1 + k)
    } else {
        0
    };
    fx_sat(whole * FX_SCALE + (frac * FX_SCALE) / pow10(k))
}

/// Whether an imaginary-unit token directly after this one gets an implicit
/// multiplication.
pub open spec fn glue_after(t: SpecToken) -> bool {
    match t {
        SpecToken::Number(_) => true,
        SpecToken::RightParen => true,
        SpecToken::Identifier(_) => true,
        _ => false,
    }
}

/// Prepend one token to a tokenizing result.
pub open spec fn cons_tok(t: SpecToken, r: Result<Seq<SpecToken>, SpecError>) -> Result<
    Seq<SpecToken>,
    SpecError,
> {
    match r {
        Result::Ok(ts) => Result::Ok(seq![t] + ts),
        Result::Err(e) => Result::Err(e),
    }
}

/// The tokens of `s` from position `i` on; `glue` records whether the last
/// emitted token glues to a following imaginary unit.
pub open spec fn tokenize_from(s: Seq<u8>, i: int, glue: bool) -> Result<
    Seq<SpecToken>,
    SpecError,
>
    decreases s.len() - i,
    when 0 <= i
    via tokenize_from_decreases
{
    if i >= s.len() {
        Result::Ok(Seq::empty())
    } else {
        let b = s[i];
        if is_space(b) {
            tokenize_from(s, i + 1, glue)
        } else if b == 43 {
            cons_tok(SpecToken::Plus, tokenize_from(s, i + 1, false))
        } else if b == 45 {
            cons_tok(SpecToken::Minus, tokenize_from(s, i + 1, false))
        } else if b == 42 {
            cons_tok(SpecToken::Multiply, tokenize_from(s, i + 1, false))
        } else if b == 47 {
            cons_tok(SpecToken::Divide, tokenize_from(s, i + 1, false))
        } else if b == 94 {
            let e = caret_end(s, i);
            let t = if e - i == 1 {
                SpecToken::Power
            } else if e - i == 2 {
                SpecToken::Tetration
            } else if e - i == 3 {
                SpecToken::Pentation
            } else {
                SpecToken::Hexation
            };
            cons_tok(t, tokenize_from(s, e, false))
        } else if b == 40 {
            cons_tok(SpecToken::LeftParen, tokenize_from(s, i + 1, false))
        } else if b == 41 {
            cons_tok(SpecToken::RightParen, tokenize_from(s, i + 1, true))
        } else if b == 44 {
            cons_tok(SpecToken::Comma, tokenize_from(s, i + 1, false))
        } else if b == 105 || b == 73 {
            let e = ident_end(s, i);
            if e == i + 1 {
                let rest = tokenize_from(s, i + 1, false);
                if glue {
                    match rest {
                        Result::Ok(ts) => Result::Ok(
                            seq![SpecToken::Multiply, SpecToken::ImaginaryUnit] + ts,
                        ),
                        Result::Err(e) => Result::Err(e),
                    }
                } else {
                    cons_tok(SpecToken::ImaginaryUnit, rest)
                }
            } else {
                cons_tok(SpecToken::Identifier(s.subrange(i, e)), tokenize_from(s, e, true))
            }
        } else if is_digit(b) || b == 46 {
            let e1 = digits_end(s, i);
            let has_dot = e1 < s.len() && s[e1] == 46;
            let e2 = if has_dot {
                digits_end(s, e1 + 1)
            } else {
                e1
            };
            let has_digit = e1 > i || (has_dot && e2 > e1 + 1);
            if !has_digit {
                Result::Err(SpecError::InvalidNumber(s.subrange(i, e2)))
            } else {
                let m = lit_mantissa(s, i);
                if e2 < s.len() && (s[e2] == 105 || s[e2] == 73) {
                    cons_tok(SpecToken::ComplexNumber(m), tokenize_from(s, e2 + 1, false))
                } else {
                    cons_tok(SpecToken::Number(m), tokenize_from(s, e2, true))
                }
            }
        } else if is_alpha(b) {
            let e = ident_end(s, i);
            cons_tok(SpecToken::Identifier(s.subrange(i, e)), tokenize_from(s, e, true))
        } else {
            Result::Err(SpecError::UnexpectedChar(b))
        }
    }
}

#[via_fn]
proof fn tokenize_from_decreases(s: Seq<u8>, i: int, glue: bool) {
    if 0 <= i < s.len() {
        lemma_digits_end_bounds(s, i);
        lemma_ident_end_bounds(s, i);
        lemma_caret_end_bounds(s, i);
        if s[i] == 94 {
            lemma_caret_end_bounds(s, i + 1);
        }
        if is_ident_char(s[i]) {
            lemma_ident_end_bounds(s, i + 1);
        }
        let e1 = digits_end(s, i);
        if 0 <= e1 + 1 {
            lemma_digits_end_bounds(s, e1 + 1);
        }
    }
}

/// All bytes inside a digit run are digits.
pub proof fn lemma_digits_end_range(s: Seq<u8>, i: int)
    requires
        0 <= i,
    ensures
        forall|k: int| i <= k < digits_end(s, i) ==> is_digit(#[trigger] s[k]),
    decreases s.len() - i,
{
    if i < s.len() && is_digit(s[i]) {
        lemma_digits_end_range(s, i + 1);
        lemma_digits_end_bounds(s, i + 1);
    }
}

/// `pow10` is at least one.
pub proof fn lemma_pow10_pos(k: int)
    ensures
        pow10(k) >= 1,
    decreases k,
{
    if k > 0 {
        lemma_pow10_pos(k - 1);
        assert(10 * pow10(k - 1) >= 1);
    }
}

/// `pow10` does not decrease.
pub proof fn lemma_pow10_mono(a: int, b: int)
    requires
        a <= b,
    ensures
        pow10(a) <= pow10(b),
    decreases b - a,
{
    if a < b {
        lemma_pow10_mono(a, b - 1);
        lemma_pow10_pos(b - 1);
    }
}

/// Concatenate an emitted prefix with the tokens still to come.
pub open spec fn cat(prefix: Seq<SpecToken>, r: Result<Seq<SpecToken>, SpecError>) -> Result<
    Seq<SpecToken>,
    SpecError,
> {
    match r {
        Result::Ok(ts) => Result::Ok(prefix + ts),
        Result::Err(e) => Result::Err(e),
    }
}

/// Emitting a token and concatenating commutes with `cons_tok`.
proof fn lemma_cat_push(
    prefix: Seq<SpecToken>,
    t: SpecToken,
    r: Result<Seq<SpecToken>, SpecError>,
)
    ensures
        cat(prefix.push(t), r) == cat(prefix, cons_tok(t, r)),
{
    match r {
        Result::Ok(ts) => {
            assert(prefix.push(t) + ts =~= prefix + (seq![t] + ts));
        },
        Result::Err(_) => {},
    }
}

/// The ghost image of a pushed token sequence.
proof fn lemma_tview_push(s: Seq<Token>, t: Token)
    ensures
        tview(s.push(t)) =~= tview(s).push(t.deep_view()),
{
}

/// End of the digit run starting at `i` (exec).
pub(crate) fn digits_end_exec(s: &[u8], i: usize) -> (e: usize)
    requires
        i as int <= s@.len(),
    ensures
        e as int == digits_end(s@, i as int),
        i <= e,
        e as int <= s@.len(),
{
    let n = s.len();
    let mut j = i;
    while j < n && 48 <= s[j] && s[j] <= 57
        invariant
            i <= j <= n,
            n == s@.len(),
            digits_end(s@, i as int) == digits_end(s@, j as int),
        decreases n - j,
    {
        j = j + 1;
    }
    j
}

/// End of the identifier run starting at `i` (exec).
fn ident_end_exec(s: &[u8], i: usize) -> (e: usize)
    requires
        i as int <= s@.len(),
    ensures
        e as int == ident_end(s@, i as int),
        i <= e,
        e as int <= s@.len(),
{
    let n = s.len();
    let mut j = i;
    while j < n && ((65 <= s[j] && s[j] <= 90) || (97 <= s[j] && s[j] <= 122) || (48 <= s[j]
        && s[j] <= 57) || s[j] == 95)
        invariant
            i <= j <= n,
            n == s@.len(),
            ident_end(s@, i as int) == ident_end(s@, j as int),
        decreases n - j,
    {
        j = j + 1;
    }
    j
}

/// End of the caret run starting at `i` (exec).
fn caret_end_exec(s: &[u8], i: usize) -> (e: usize)
    requires
        i as int <= s@.len(),
    ensures
        e as int == caret_end(s@, i as int),
        i <= e,
        e as int <= s@.len(),
{
    let n = s.len();
    let mut j = i;
    while j < n && s[j] == 94
        invariant
            i <= j <= n,
            n == s@.len(),
            caret_end(s@, i as int) == caret_end(s@, j as int),
        decreases n - j,
    {
        j = j + 1;
    }
    j
}

/// The grid mantissa of the literal starting at `i`, with run ends given.
pub(crate) fn lit_mantissa_exec(s: &[u8], i: usize, e1: usize, has_dot: bool, e2: usize) -> (m: i128)
    requires
        i as int <= s@.len(),
        e1 as int == digits_end(s@, i as int),
        has_dot == ((e1 as int) < s@.len() && s@[e1 as int] == 46),
        e2 as int == if has_dot {
            digits_end(s@, e1 as int + 1)
        } else {
            e1 as int
        },
        e2 as int <= s@.len(),
    ensures
        m as int == lit_mantissa(s@, i as int),
        -FX_SAT <= m <= FX_SAT,
{
    proof {
        lemma_digits_end_bounds(s@, i as int);
        lemma_digits_end_range(s@, i as int);
        if has_dot {
            lemma_digits_end_bounds(s@, e1 as int + 1);
            lemma_digits_end_range(s@, e1 as int + 1);
        }
    }
    let mut acc: i128 = 0;
    let mut big = false;
    let mut j = i;
    while j < e1
        invariant
            i <= j <= e1,
            e1 as int <= s@.len(),
            forall|k: int| i as int <= k < e1 as int ==> is_digit(#[trigger] s@[k]),
            !big ==> acc == digits_val(s@, i as int, j as int) && 0 <= acc <= FX_QCAP,
            big ==> digits_val(s@, i as int, j as int) > FX_QCAP,
        decreases e1 - j,
    {
        let d: i128 = (s[j] - 48) as i128;
        proof {
            if big {
                assert(digits_val(s@, i as int, j as int + 1) == digits_val(
                    s@,
                    i as int,
                    j as int,
                ) * 10 + (s@[j as int] - 48));
                assert(digits_val(s@, i as int, j as int) * 10 > FX_QCAP) by (nonlinear_arith)
                    requires
                        digits_val(s@, i as int, j as int) > FX_QCAP,
                ;
            }
        }
        if !big {
            let nx: i128 = acc * 10 + d;
            if nx > FX_QCAP {
                big = true;
            } else {
                acc = nx;
            }
        }
        j = j + 1;
    }
    let mut frac_m: i128 = 0;
    if has_dot {
        let fstart = e1 + 1;
        let flen = e2 - fstart;
        let k: usize = if flen > 25 {
            25
        } else {
            flen
        };
        proof {
            vstd::arithmetic::div_mod::lemma_div_pos_is_pos(0, 1);
        }
        let mut facc: i128 = 0;
        let mut pw: i128 = 1;
        let mut j2: usize = 0;
        while j2 < k
            invariant
                0 <= j2 <= k <= 25,
                k as int <= e2 as int - fstart as int,
                fstart as int + k as int <= s@.len(),
                forall|kk: int|
                    fstart as int <= kk < e2 as int ==> is_digit(#[trigger] s@[kk]),
                facc == digits_val(s@, fstart as int, fstart as int + j2 as int),
                pw == pow10(j2 as int),
                0 <= facc,
                facc < pw,
                pw <= 10000000000000000000000000,
            decreases k - j2,
        {
            proof {
                lemma_pow10_mono(j2 as int + 1, 25);
                assert(pow10(25) == 10000000000000000000000000) by {
                    reveal_with_fuel(pow10, 26);
                }
                assert(facc * 10 + 9 < pw * 10) by (nonlinear_arith)
                    requires
                        facc < pw,
                ;
            }
            let d: i128 = (s[fstart + j2] - 48) as i128;
            facc = facc * 10 + d;
            pw = pw * 10;
            j2 = j2 + 1;
        }
        proof {
            lemma_pow10_pos(k as int);
            assert(facc * FX_SCALE < pw * FX_SCALE) by (nonlinear_arith)
                requires
                    facc < pw,
            ;
            assert((facc * FX_SCALE) / (pw as int) < FX_SCALE) by {
                vstd::arithmetic::div_mod::lemma_multiply_divide_lt(
                    facc * FX_SCALE,
                    pw as int,
                    FX_SCALE as int,
                );
            }
            vstd::arithmetic::div_mod::lemma_div_pos_is_pos(facc * FX_SCALE, pw as int);
        }
        frac_m = (facc * FX_SCALE) / pw;
    }
    if big {
        proof {
            let whole = digits_val(s@, i as int, e1 as int);
            assert(whole * FX_SCALE > FX_SAT) by (nonlinear_arith)
                requires
                    whole > FX_QCAP,
            ;
        }
        FX_SAT
    } else {
        crate::fixed::sat_exec(acc * FX_SCALE + frac_m)
    }
}

/// Tokenize a byte string.
///
/// The result is exactly [`tokenize_spec`] of the input: the token stream on
/// success, and the first lexical error otherwise.
pub fn tokenize(s: &[u8]) -> (r: Result<Vec<Token>, EvaluationError>)
    ensures
        (match r {
            Result::Ok(v) => tokenize_spec(s@) == Result::<Seq<SpecToken>, SpecError>::Ok(
                tview(v@),
            ) && toks_wf(tview(v@)),
            Result::Err(e) => tokenize_spec(s@) == Result::<Seq<SpecToken>, SpecError>::Err(
                e.deep_view(),
            ),
        }),
{
    let n = s.len();
    let mut toks: Vec<Token> = Vec::new();
    let mut i: usize = 0;
    let mut glue: bool = false;
    while i < n
        invariant
            i <= n,
            n == s@.len(),
            tokenize_spec(s@) == cat(tview(toks@), tokenize_from(s@, i as int, glue)),
            toks_wf(tview(toks@)),
        decreases n - i,
    {
        let b = s[i];
        if b == 32 || b == 9 || b == 10 || b == 13 {
            i = i + 1;
        } else if b == 43 {
            proof {
                lemma_cat_push(tview(toks@), SpecToken::Plus, tokenize_from(s@, i + 1, false));
                lemma_tview_push(toks@, Token::Plus);
            }
            toks.push(Token::Plus);
            i = i + 1;
            glue = false;
        } else if b == 45 {
            proof {
                lemma_cat_push(tview(toks@), SpecToken::Minus, tokenize_from(s@, i + 1, false));
                lemma_tview_push(toks@, Token::Minus);
            }
            toks.push(Token::Minus);
            i = i + 1;
            glue = false;
        } else if b == 42 {
            proof {
                lemma_cat_push(
                    tview(toks@),
                    SpecToken::Multiply,
                    tokenize_from(s@, i + 1, false),
                );
                lemma_tview_push(toks@, Token::Multiply);
            }
            toks.push(Token::Multiply);
            i = i + 1;
            glue = false;
        } else if b == 47 {
            proof {
                lemma_cat_push(tview(toks@), SpecToken::Divide, tokenize_from(s@, i + 1, false));
                lemma_tview_push(toks@, Token::Divide);
            }
            toks.push(Token::Divide);
            i = i + 1;
            glue = false;
        } else if b == 94 {
            let e = caret_end_exec(s, i);
            let count = e - i;
            let t = if count == 1 {
                Token::Power
            } else if count == 2 {
                Token::Tetration
            } else if count == 3 {
                Token::Pentation
            } else {
                Token::Hexation
            };
            proof {
                lemma_caret_end_bounds(s@, i as int + 1);
                lemma_cat_push(tview(toks@), t.deep_view(), tokenize_from(s@, e as int, false));
                lemma_tview_push(toks@, t);
            }
            toks.push(t);
            i = e;
            glue = false;
        } else if b == 40 {
            proof {
                lemma_cat_push(
                    tview(toks@),
                    SpecToken::LeftParen,
                    tokenize_from(s@, i + 1, false),
                );
                lemma_tview_push(toks@, Token::LeftParen);
            }
            toks.push(Token::LeftParen);
            i = i + 1;
            glue = false;
        } else if b == 41 {
            proof {
                lemma_cat_push(
                    tview(toks@),
                    SpecToken::RightParen,
                    tokenize_from(s@, i + 1, true),
                );
                lemma_tview_push(toks@, Token::RightParen);
            }
            toks.push(Token::RightParen);
            i = i + 1;
            glue = true;
        } else if b == 44 {
            proof {
                lemma_cat_push(tview(toks@), SpecToken::Comma, tokenize_from(s@, i + 1, false));
                lemma_tview_push(toks@, Token::Comma);
            }
            toks.push(Token::Comma);
            i = i + 1;
            glue = false;
        } else if b == 105 || b == 73 {
            let e = ident_end_exec(s, i);
            if e == i + 1 {
                if glue {
                    proof {
                        let rest = tokenize_from(s@, i + 1, false);
                        lemma_cat_push(
                            tview(toks@).push(SpecToken::Multiply),
                            SpecToken::ImaginaryUnit,
                            rest,
                        );
                        lemma_cat_push(tview(toks@), SpecToken::Multiply, cons_tok(
                            SpecToken::ImaginaryUnit,
                            rest,
                        ));
                        lemma_tview_push(toks@, Token::Multiply);
                        lemma_tview_push(toks@.push(Token::Multiply), Token::ImaginaryUnit);
                        match rest {
                            Result::Ok(ts) => {
                                assert(seq![SpecToken::Multiply, SpecToken::ImaginaryUnit] + ts =~= seq![SpecToken::Multiply] + (seq![SpecToken::ImaginaryUnit] + ts));
                            },
                            Result::Err(_) => {},
                        }
                    }
                    toks.push(Token::Multiply);
                    toks.push(Token::ImaginaryUnit);
                } else {
                    proof {
                        lemma_cat_push(
                            tview(toks@),
                            SpecToken::ImaginaryUnit,
                            tokenize_from(s@, i + 1, false),
                        );
                        lemma_tview_push(toks@, Token::ImaginaryUnit);
                    }
                    toks.push(Token::ImaginaryUnit);
                }
                i = i + 1;
                glue = false;
            } else {
                let name = vstd::slice::slice_to_vec(vstd::slice::slice_subrange(s, i, e));
                let t = Token::Identifier(name);
                proof {
                    lemma_ident_end_bounds(s@, i as int + 1);
                    lemma_cat_push(tview(toks@), t.deep_view(), tokenize_from(s@, e as int, true));
                    lemma_tview_push(toks@, t);
                }
                toks.push(t);
                i = e;
                glue = true;
            }
        } else if (48 <= b && b <= 57) || b == 46 {
            let e1 = digits_end_exec(s, i);
            let has_dot = e1 < n && s[e1] == 46;
            let e2 = if has_dot {
                digits_end_exec(s, e1 + 1)
            } else {
                e1
            };
            let has_digit = e1 > i || (has_dot && e2 > e1 + 1);
            if !has_digit {
                let run = vstd::slice::slice_to_vec(vstd::slice::slice_subrange(s, i, e2));
                return Result::Err(EvaluationError::InvalidNumber(run));
            }
            let m = lit_mantissa_exec(s, i, e1, has_dot, e2);
            if e2 < n && (s[e2] == 105 || s[e2] == 73) {
                let t = Token::ComplexNumber(Fx { m });
                proof {
                    lemma_cat_push(
                        tview(toks@),
                        t.deep_view(),
                        tokenize_from(s@, e2 as int + 1, false),
                    );
                    lemma_tview_push(toks@, t);
                }
                toks.push(t);
                i = e2 + 1;
                glue = false;
            } else {
                let t = Token::Number(Fx { m });
                proof {
                    lemma_cat_push(
                        tview(toks@),
                        t.deep_view(),
                        tokenize_from(s@, e2 as int, true),
                    );
                    lemma_tview_push(toks@, t);
                }
                toks.push(t);
                i = e2;
                glue = true;
            }
        } else if (65 <= b && b <= 90) || (97 <= b && b <= 122) {
            let e = ident_end_exec(s, i);
            let name = vstd::slice::slice_to_vec(vstd::slice::slice_subrange(s, i, e));
            let t = Token::Identifier(name);
            proof {
                lemma_ident_end_bounds(s@, i as int + 1);
                lemma_cat_push(tview(toks@), t.deep_view(), tokenize_from(s@, e as int, true));
                lemma_tview_push(toks@, t);
            }
            toks.push(t);
            i = e;
            glue = true;
        } else {
            return Result::Err(EvaluationError::UnexpectedChar(b));
        }
    }
    proof {
        assert(tview(toks@) + Seq::<SpecToken>::empty() =~= tview(toks@));
    }
    Result::Ok(toks)
}


/// The tokens of the whole input.
pub open spec fn tokenize_spec(s: Seq<u8>) -> Result<Seq<SpecToken>, SpecError> {
    tokenize_from(s, 0, false)
}

/// A token's literal value, if any, is an admissible mantissa.
pub open spec fn tok_wf(t: SpecToken) -> bool {
    match t {
        SpecToken::Number(m) => -FX_SAT <= m <= FX_SAT,
        SpecToken::ComplexNumber(m) => -FX_SAT <= m <= FX_SAT,
        _ => true,
    }
}

/// Every token in the stream is admissible.
pub open spec fn toks_wf(ts: Seq<SpecToken>) -> bool {
    forall|k: int| 0 <= k < ts.len() ==> tok_wf(#[trigger] ts[k])
}

} // verus!
