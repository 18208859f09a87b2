//! The formula engine's entry points.
//!
//! A caller hands in a formula string, the current iterate `z`, the
//! parameter `c` and the active `i_squared`.  The engine first normalizes
//! the text (trim, ASCII lowercase) and looks it up in a fixed table of
//! common formulas, each with a closed-form evaluation over the generalized
//! arithmetic; on a miss it tokenizes, parses and evaluates the general
//! expression tree.  The result is a single complex value or a typed error,
//! and callers are expected to fall back to a default formula on error
//! rather than aborting a whole render.

use vstd::prelude::*;
use vstd::string::StringSliceAdditionalSpecFns;
use crate::complex::{ComplexValue, c_add, c_mul, c_sub};
use crate::error::{EvaluationError, SpecError};
use crate::eval::{apply_fn_spec, eval_spec};
use crate::expr::Function;
use crate::fixed::{Fx, FX_SCALE};
use crate::hyper::tet_spec;
use crate::parse::{ascii_of, parse_expression_spec};
use crate::power::{pow_spec, std_i2};
use crate::token::{is_space, tokenize_spec, tview};

verus! {

/// Lowercase an ASCII letter; other bytes pass through.
pub open spec fn to_lower(b: u8) -> u8 {
    if 65 <= b <= 90 {
        (b + 32) as u8
    } else {
        b
    }
}

/// First index at or after `i` holding a non-space byte.
pub open spec fn skip_space_fwd(s: Seq<u8>, i: int) -> int
    decreases s.len() - i,
{
    if 0 <= i < s.len() && is_space(s[i]) {
        skip_space_fwd(s, i + 1)
    } else {
        i
    }
}

/// Last bound at or before `j` with no trailing space before it.
pub open spec fn skip_space_back(s: Seq<u8>, j: int) -> int
    decreases j,
{
    if 0 < j <= s.len() && is_space(s[j - 1]) {
        skip_space_back(s, j - 1)
    } else {
        j
    }
}

/// The normalized formula text: trimmed of surrounding whitespace and
/// lowercased bytewise.
pub open spec fn norm_spec(s: Seq<u8>) -> Seq<u8> {
    let a = skip_space_fwd(s, 0);
    let b = skip_space_back(s, s.len() as int);
    if a < b {
        Seq::new((b - a) as nat, |i: int| to_lower(s[a + i]))
    } else {
        Seq::empty()
    }
}

/// The squared iterate under the active system (the `z*z` form, written
/// with explicit multiplication).
pub open spec fn f_sq(z: ComplexValue, i2: ComplexValue) -> ComplexValue {
    c_mul(z, z, i2)
}

/// The whole-number exponent `n + 0i` on the grid.
pub open spec fn exp_n(n: int) -> ComplexValue {
    ComplexValue { re: Fx { m: (n * FX_SCALE) as i128 }, im: Fx { m: 0 } }
}

/// Exec counterpart of [`exp_n`] for small whole exponents.
fn exp_const(n: i64) -> (r: ComplexValue)
    requires
        0 <= n <= 16,
    ensures
        r == exp_n(n as int),
        r.wf(),
{
    proof {
        assert(crate::fixed::fx_sat(n * FX_SCALE) == n * FX_SCALE);
        assert(crate::fixed::fx_sat(0 * FX_SCALE) == 0);
    }
    ComplexValue::from_ints(n, 0)
}

/// The closed form the fast-path table assigns to the normalized formula,
/// if the formula is in the table.  Every form is built from the same
/// primitives, in the same shape, as the tree the parser would build for
/// the same text — written powers go through the power operation's edge
/// rules — so a table hit returns what the general route would return.
pub open spec fn fast_path_spec(
    n: Seq<u8>,
    z: ComplexValue,
    c: ComplexValue,
    i2: ComplexValue,
) -> Option<ComplexValue> {
    if n == ascii_of("z^2 + c"@) {
        Option::Some(c_add(pow_spec(z, exp_n(2), i2), c))
    } else if n == ascii_of("z^3 + c"@) {
        Option::Some(c_add(pow_spec(z, exp_n(3), i2), c))
    } else if n == ascii_of("z^4 + c"@) {
        Option::Some(c_add(pow_spec(z, exp_n(4), i2), c))
    } else if n == ascii_of("sin(z) + c"@) {
        Option::Some(c_add(apply_fn_spec(Function::Sin, z), c))
    } else if n == ascii_of("cos(z) + c"@) {
        Option::Some(c_add(apply_fn_spec(Function::Cos, z), c))
    } else if n == ascii_of("tan(z) + c"@) {
        Option::Some(c_add(apply_fn_spec(Function::Tan, z), c))
    } else if n == ascii_of("exp(z) + c"@) {
        Option::Some(c_add(apply_fn_spec(Function::Exp, z), c))
    } else if n == ascii_of("log(z) + c"@) {
        Option::Some(c_add(apply_fn_spec(Function::Ln, z), c))
    } else if n == ascii_of("z*z + sin(c)"@) {
        Option::Some(c_add(f_sq(z, i2), apply_fn_spec(Function::Sin, c)))
    } else if n == ascii_of("z*z + cos(c)"@) {
        Option::Some(c_add(f_sq(z, i2), apply_fn_spec(Function::Cos, c)))
    } else if n == ascii_of("z*z + tan(c)"@) {
        Option::Some(c_add(f_sq(z, i2), apply_fn_spec(Function::Tan, c)))
    } else if n == ascii_of("z*z + exp(c)"@) {
        Option::Some(c_add(f_sq(z, i2), apply_fn_spec(Function::Exp, c)))
    } else if n == ascii_of("z*z + log(c)"@) {
        Option::Some(c_add(f_sq(z, i2), apply_fn_spec(Function::Ln, c)))
    } else if n == ascii_of("sin(z) + sin(c)"@) {
        Option::Some(c_add(apply_fn_spec(Function::Sin, z), apply_fn_spec(Function::Sin, c)))
    } else if n == ascii_of("cos(z) + cos(c)"@) {
        Option::Some(c_add(apply_fn_spec(Function::Cos, z), apply_fn_spec(Function::Cos, c)))
    } else if n == ascii_of("tan(z) + tan(c)"@) {
        Option::Some(c_add(apply_fn_spec(Function::Tan, z), apply_fn_spec(Function::Tan, c)))
    } else if n == ascii_of("exp(z) + exp(c)"@) {
        Option::Some(c_add(apply_fn_spec(Function::Exp, z), apply_fn_spec(Function::Exp, c)))
    } else if n == ascii_of("log(z) + log(c)"@) {
        Option::Some(c_add(apply_fn_spec(Function::Ln, z), apply_fn_spec(Function::Ln, c)))
    } else if n == ascii_of("z^2 - c"@) {
        Option::Some(c_sub(pow_spec(z, exp_n(2), i2), c))
    } else if n == ascii_of("z^2 + c^2"@) {
        Option::Some(c_add(pow_spec(z, exp_n(2), i2), pow_spec(c, exp_n(2), i2)))
    } else if n == ascii_of("z^2 + c^3"@) {
        Option::Some(c_add(pow_spec(z, exp_n(2), i2), pow_spec(c, exp_n(3), i2)))
    } else if n == ascii_of("z^2 + c^4"@) {
        Option::Some(c_add(pow_spec(z, exp_n(2), i2), pow_spec(c, exp_n(4), i2)))
    } else if n == ascii_of("z^2 + c*z"@) {
        Option::Some(c_add(pow_spec(z, exp_n(2), i2), c_mul(c, z, i2)))
    } else if n == ascii_of("z^3 - z + c"@) {
        Option::Some(c_add(c_sub(pow_spec(z, exp_n(3), i2), z), c))
    } else if n == ascii_of("z^2 + c*sin(z)"@) {
        Option::Some(c_add(pow_spec(z, exp_n(2), i2), c_mul(c, apply_fn_spec(Function::Sin, z), i2)))
    } else if n == ascii_of("z^2 + c*cos(z)"@) {
        Option::Some(c_add(pow_spec(z, exp_n(2), i2), c_mul(c, apply_fn_spec(Function::Cos, z), i2)))
    } else if n == ascii_of("z^2 + c*tan(z)"@) {
        Option::Some(c_add(pow_spec(z, exp_n(2), i2), c_mul(c, apply_fn_spec(Function::Tan, z), i2)))
    } else if n == ascii_of("z^2 + c*exp(z)"@) {
        Option::Some(c_add(pow_spec(z, exp_n(2), i2), c_mul(c, apply_fn_spec(Function::Exp, z), i2)))
    } else if n == ascii_of("z^2 + c*log(z)"@) {
        Option::Some(c_add(pow_spec(z, exp_n(2), i2), c_mul(c, apply_fn_spec(Function::Ln, z), i2)))
    } else if n == ascii_of("z^z + c"@) {
        Option::Some(c_add(pow_spec(z, z, i2), c))
    } else if n == ascii_of("z^^z + c"@) {
        Option::Some(c_add(tet_spec(z, z, i2), c))
    } else {
        Option::None
    }
}

/// The general route: tokenize, parse, evaluate.  The parse must consume
/// the whole token stream: anything left after the first complete
/// expression is a syntax error.
pub open spec fn parse_route_spec(
    s: Seq<u8>,
    z: ComplexValue,
    c: ComplexValue,
    i2: ComplexValue,
) -> Result<ComplexValue, SpecError> {
    match tokenize_spec(s) {
        Result::Ok(ts) => match parse_expression_spec(ts, 0) {
            Result::Ok((e, p)) => if p == ts.len() {
                eval_spec(e, z, c, i2)
            } else {
                Result::Err(SpecError::UnexpectedToken)
            },
            Result::Err(er) => Result::Err(er),
        },
        Result::Err(er) => Result::Err(er),
    }
}

/// What the engine returns for a formula: the fast path's closed form on a
/// table hit, the general route otherwise.
pub open spec fn evaluate_formula_spec(
    s: Seq<u8>,
    z: ComplexValue,
    c: ComplexValue,
    i2: ComplexValue,
) -> Result<ComplexValue, SpecError> {
    match fast_path_spec(norm_spec(s), z, c, i2) {
        Option::Some(v) => Result::Ok(v),
        Option::None => parse_route_spec(s, z, c, i2),
    }
}

/// Normalize a formula's bytes: trim surrounding whitespace, lowercase.
fn normalize(s: &[u8]) -> (v: Vec<u8>)
    ensures
        v@ == norm_spec(s@),
{
    let n = s.len();
    let mut a: usize = 0;
    while a < n && (s[a] == 32 || s[a] == 9 || s[a] == 10 || s[a] == 13)
        invariant
            a <= n,
            n == s@.len(),
            skip_space_fwd(s@, 0) == skip_space_fwd(s@, a as int),
        decreases n - a,
    {
        a = a + 1;
    }
    let mut b: usize = n;
    while b > 0 && (s[b - 1] == 32 || s[b - 1] == 9 || s[b - 1] == 10 || s[b - 1] == 13)
        invariant
            b <= n,
            n == s@.len(),
            skip_space_back(s@, n as int) == skip_space_back(s@, b as int),
        decreases b,
    {
        b = b - 1;
    }
    let mut v: Vec<u8> = Vec::new();
    if a >= b {
        proof {
            assert(v@ =~= norm_spec(s@));
        }
        return v;
    }
    let mut i = a;
    while i < b
        invariant
            a <= i <= b <= n,
            n == s@.len(),
            a as int == skip_space_fwd(s@, 0),
            b as int == skip_space_back(s@, n as int),
            a < b,
            v@ == Seq::new((i - a) as nat, |k: int| to_lower(s@[a + k])),
        decreases b - i,
    {
        let x = s[i];
        let y: u8 = if 65 <= x && x <= 90 {
            x + 32
        } else {
            x
        };
        v.push(y);
        proof {
            assert(v@ =~= Seq::new((i + 1 - a) as nat, |k: int| to_lower(s@[a as int + k])));
        }
        i = i + 1;
    }
    proof {
        assert(v@ =~= norm_spec(s@));
    }
    v
}

/// Evaluate via the general route (exec): tokenize, parse, evaluate.
fn parse_route(s: &[u8], z: ComplexValue, c: ComplexValue, i2: ComplexValue) -> (r: Result<
    ComplexValue,
    EvaluationError,
>)
    requires
        z.wf(),
        c.wf(),
        i2.wf(),
    ensures
        (match r {
            Result::Ok(v) => parse_route_spec(s@, z, c, i2) == Result::<
                ComplexValue,
                SpecError,
            >::Ok(v) && v.wf(),
            Result::Err(er) => parse_route_spec(s@, z, c, i2) == Result::<
                ComplexValue,
                SpecError,
            >::Err(er.deep_view()),
        }),
{
    match crate::token::tokenize(s) {
        Result::Ok(toks) => {
            match crate::parse::parse_expression(&toks, 0) {
                Result::Ok((e, p)) => {
                    if p == toks.len() {
                        crate::eval::evaluate(&e, z, c, i2)
                    } else {
                        Result::Err(EvaluationError::UnexpectedToken)
                    }
                },
                Result::Err(er) => Result::Err(er),
            }
        },
        Result::Err(er) => Result::Err(er),
    }
}

/// Evaluate a formula for one `(z, c)` pair under the active `i_squared`.
///
/// This is the engine's single entry point: the fast-path table is tried on
/// the normalized text first, and the general tokenizer, parser and
/// evaluator handle everything else.  The value `i_squared = -1 + 0i`
/// (`ComplexValue::from_ints(-1, 0)`) reproduces standard complex
/// arithmetic.
pub fn evaluate_formula(
    formula: &str,
    z: ComplexValue,
    param: ComplexValue,
    i_squared: ComplexValue,
) -> (r: Result<ComplexValue, EvaluationError>)
    requires
        z.wf(),
        param.wf(),
        i_squared.wf(),
    ensures
        (match r {
            Result::Ok(v) => evaluate_formula_spec(formula.spec_bytes(), z, param, i_squared)
                == Result::<ComplexValue, SpecError>::Ok(v) && v.wf(),
            Result::Err(er) => evaluate_formula_spec(formula.spec_bytes(), z, param, i_squared)
                == Result::<ComplexValue, SpecError>::Err(er.deep_view()),
        }),
{
    let bytes = formula.as_bytes();
    let norm = normalize(bytes);
    let ns = norm.as_slice();
    proof {
        reveal_strlit("z^2 + c");
        reveal_strlit("z^3 + c");
        reveal_strlit("z^4 + c");
        reveal_strlit("sin(z) + c");
        reveal_strlit("cos(z) + c");
        reveal_strlit("tan(z) + c");
        reveal_strlit("exp(z) + c");
        reveal_strlit("log(z) + c");
        reveal_strlit("z*z + sin(c)");
        reveal_strlit("z*z + cos(c)");
        reveal_strlit("z*z + tan(c)");
        reveal_strlit("z*z + exp(c)");
        reveal_strlit("z*z + log(c)");
        reveal_strlit("sin(z) + sin(c)");
        reveal_strlit("cos(z) + cos(c)");
        reveal_strlit("tan(z) + tan(c)");
        reveal_strlit("exp(z) + exp(c)");
        reveal_strlit("log(z) + log(c)");
        reveal_strlit("z^2 - c");
        reveal_strlit("z^2 + c^2");
        reveal_strlit("z^2 + c^3");
        reveal_strlit("z^2 + c^4");
        reveal_strlit("z^2 + c*z");
        reveal_strlit("z^3 - z + c");
        reveal_strlit("z^2 + c*sin(z)");
        reveal_strlit("z^2 + c*cos(z)");
        reveal_strlit("z^2 + c*tan(z)");
        reveal_strlit("z^2 + c*exp(z)");
        reveal_strlit("z^2 + c*log(z)");
        reveal_strlit("z^z + c");
        reveal_strlit("z^^z + c");
    }
    let i2 = i_squared;
    let c = param;
    let two = exp_const(2);
    let three = exp_const(3);
    let four = exp_const(4);
    if crate::parse::lit_bytes_eq(ns, "z^2 + c") {
        Result::Ok(crate::power::pow_with(z, two, i2).add_c(c))
    } else if crate::parse::lit_bytes_eq(ns, "z^3 + c") {
        Result::Ok(crate::power::pow_with(z, three, i2).add_c(c))
    } else if crate::parse::lit_bytes_eq(ns, "z^4 + c") {
        Result::Ok(crate::power::pow_with(z, four, i2).add_c(c))
    } else if crate::parse::lit_bytes_eq(ns, "sin(z) + c") {
        Result::Ok(crate::trans::sin_c(&z).add_c(c))
    } else if crate::parse::lit_bytes_eq(ns, "cos(z) + c") {
        Result::Ok(crate::trans::cos_c(&z).add_c(c))
    } else if crate::parse::lit_bytes_eq(ns, "tan(z) + c") {
        Result::Ok(crate::trans::tan_c(&z).add_c(c))
    } else if crate::parse::lit_bytes_eq(ns, "exp(z) + c") {
        Result::Ok(crate::trans::exp_c(&z).add_c(c))
    } else if crate::parse::lit_bytes_eq(ns, "log(z) + c") {
        Result::Ok(crate::trans::ln_c(&z).add_c(c))
    } else if crate::parse::lit_bytes_eq(ns, "z*z + sin(c)") {
        Result::Ok(z.mul_c(z, i2).add_c(crate::trans::sin_c(&c)))
    } else if crate::parse::lit_bytes_eq(ns, "z*z + cos(c)") {
        Result::Ok(z.mul_c(z, i2).add_c(crate::trans::cos_c(&c)))
    } else if crate::parse::lit_bytes_eq(ns, "z*z + tan(c)") {
        Result::Ok(z.mul_c(z, i2).add_c(crate::trans::tan_c(&c)))
    } else if crate::parse::lit_bytes_eq(ns, "z*z + exp(c)") {
        Result::Ok(z.mul_c(z, i2).add_c(crate::trans::exp_c(&c)))
    } else if crate::parse::lit_bytes_eq(ns, "z*z + log(c)") {
        Result::Ok(z.mul_c(z, i2).add_c(crate::trans::ln_c(&c)))
    } else if crate::parse::lit_bytes_eq(ns, "sin(z) + sin(c)") {
        Result::Ok(crate::trans::sin_c(&z).add_c(crate::trans::sin_c(&c)))
    } else if crate::parse::lit_bytes_eq(ns, "cos(z) + cos(c)") {
        Result::Ok(crate::trans::cos_c(&z).add_c(crate::trans::cos_c(&c)))
    } else if crate::parse::lit_bytes_eq(ns, "tan(z) + tan(c)") {
        Result::Ok(crate::trans::tan_c(&z).add_c(crate::trans::tan_c(&c)))
    } else if crate::parse::lit_bytes_eq(ns, "exp(z) + exp(c)") {
        Result::Ok(crate::trans::exp_c(&z).add_c(crate::trans::exp_c(&c)))
    } else if crate::parse::lit_bytes_eq(ns, "log(z) + log(c)") {
        Result::Ok(crate::trans::ln_c(&z).add_c(crate::trans::ln_c(&c)))
    } else if crate::parse::lit_bytes_eq(ns, "z^2 - c") {
        Result::Ok(crate::power::pow_with(z, two, i2).sub_c(c))
    } else if crate::parse::lit_bytes_eq(ns, "z^2 + c^2") {
        Result::Ok(crate::power::pow_with(z, two, i2).add_c(crate::power::pow_with(c, two, i2)))
    } else if crate::parse::lit_bytes_eq(ns, "z^2 + c^3") {
        Result::Ok(crate::power::pow_with(z, two, i2).add_c(crate::power::pow_with(c, three, i2)))
    } else if crate::parse::lit_bytes_eq(ns, "z^2 + c^4") {
        Result::Ok(crate::power::pow_with(z, two, i2).add_c(crate::power::pow_with(c, four, i2)))
    } else if crate::parse::lit_bytes_eq(ns, "z^2 + c*z") {
        Result::Ok(crate::power::pow_with(z, two, i2).add_c(c.mul_c(z, i2)))
    } else if crate::parse::lit_bytes_eq(ns, "z^3 - z + c") {
        Result::Ok(crate::power::pow_with(z, three, i2).sub_c(z).add_c(c))
    } else if crate::parse::lit_bytes_eq(ns, "z^2 + c*sin(z)") {
        Result::Ok(crate::power::pow_with(z, two, i2).add_c(c.mul_c(crate::trans::sin_c(&z), i2)))
    } else if crate::parse::lit_bytes_eq(ns, "z^2 + c*cos(z)") {
        Result::Ok(crate::power::pow_with(z, two, i2).add_c(c.mul_c(crate::trans::cos_c(&z), i2)))
    } else if crate::parse::lit_bytes_eq(ns, "z^2 + c*tan(z)") {
        Result::Ok(crate::power::pow_with(z, two, i2).add_c(c.mul_c(crate::trans::tan_c(&z), i2)))
    } else if crate::parse::lit_bytes_eq(ns, "z^2 + c*exp(z)") {
        Result::Ok(crate::power::pow_with(z, two, i2).add_c(c.mul_c(crate::trans::exp_c(&z), i2)))
    } else if crate::parse::lit_bytes_eq(ns, "z^2 + c*log(z)") {
        Result::Ok(crate::power::pow_with(z, two, i2).add_c(c.mul_c(crate::trans::ln_c(&z), i2)))
    } else if crate::parse::lit_bytes_eq(ns, "z^z + c") {
        Result::Ok(crate::power::pow_with(z, z, i2).add_c(c))
    } else if crate::parse::lit_bytes_eq(ns, "z^^z + c") {
        Result::Ok(crate::hyper::tetration(z, z, i2).add_c(c))
    } else {
        parse_route(bytes, z, c, i2)
    }
}

/// Mathematical expression evaluator for complex formulas.
#[derive(Debug, Clone)]
pub struct MathEvaluator;

impl MathEvaluator {
    /// Evaluate a formula in the standard complex system (`i_squared = -1`).
    pub fn evaluate_formula_with_param(
        formula: &str,
        z: ComplexValue,
        param: ComplexValue,
    ) -> (r: Result<ComplexValue, EvaluationError>)
        requires
            z.wf(),
            param.wf(),
        ensures
            (match r {
                Result::Ok(v) => evaluate_formula_spec(formula.spec_bytes(), z, param, std_i2())
                    == Result::<ComplexValue, SpecError>::Ok(v) && v.wf(),
                Result::Err(er) => evaluate_formula_spec(formula.spec_bytes(), z, param, std_i2())
                    == Result::<ComplexValue, SpecError>::Err(er.deep_view()),
            }),
    {
        evaluate_formula(formula, z, param, crate::power::standard_i_squared())
    }

    /// Evaluate a formula under a custom `i_squared`.
    pub fn evaluate_formula_with_param_and_custom_i(
        formula: &str,
        z: ComplexValue,
        param: ComplexValue,
        custom_i: ComplexValue,
    ) -> (r: Result<ComplexValue, EvaluationError>)
        requires
            z.wf(),
            param.wf(),
            custom_i.wf(),
        ensures
            (match r {
                Result::Ok(v) => evaluate_formula_spec(formula.spec_bytes(), z, param, custom_i)
                    == Result::<ComplexValue, SpecError>::Ok(v) && v.wf(),
                Result::Err(er) => evaluate_formula_spec(formula.spec_bytes(), z, param, custom_i)
                    == Result::<ComplexValue, SpecError>::Err(er.deep_view()),
            }),
    {
        evaluate_formula(formula, z, param, custom_i)
    }
}

/// The general parser, exposed without the fast-path table.
#[derive(Debug)]
pub struct ExpressionParser;

impl ExpressionParser {
    /// Tokenize, parse and evaluate a formula in the standard system.
    pub fn evaluate(formula: &str, z: ComplexValue, param: ComplexValue) -> (r: Result<
        ComplexValue,
        EvaluationError,
    >)
        requires
            z.wf(),
            param.wf(),
        ensures
            (match r {
                Result::Ok(v) => parse_route_spec(formula.spec_bytes(), z, param, std_i2())
                    == Result::<ComplexValue, SpecError>::Ok(v) && v.wf(),
                Result::Err(er) => parse_route_spec(formula.spec_bytes(), z, param, std_i2())
                    == Result::<ComplexValue, SpecError>::Err(er.deep_view()),
            }),
    {
        parse_route(formula.as_bytes(), z, param, crate::power::standard_i_squared())
    }

    /// Tokenize, parse and evaluate a formula under a custom `i_squared`,
    /// threaded through every arithmetic primitive (the literal `i` still
    /// denotes `0 + 1i` in the text).
    pub fn evaluate_with_custom_i(
        formula: &str,
        z: ComplexValue,
        param: ComplexValue,
        custom_i: ComplexValue,
    ) -> (r: Result<ComplexValue, EvaluationError>)
        requires
            z.wf(),
            param.wf(),
            custom_i.wf(),
        ensures
            (match r {
                Result::Ok(v) => parse_route_spec(formula.spec_bytes(), z, param, custom_i)
                    == Result::<ComplexValue, SpecError>::Ok(v) && v.wf(),
                Result::Err(er) => parse_route_spec(formula.spec_bytes(), z, param, custom_i)
                    == Result::<ComplexValue, SpecError>::Err(er.deep_view()),
            }),
    {
        parse_route(formula.as_bytes(), z, param, custom_i)
    }
}

/// What the special-function table yields: the argument itself for every
/// recognized name (all placeholders), an error naming unknown ones.
pub open spec fn special_fn_spec(name: Seq<u8>, z: ComplexValue) -> Result<
    ComplexValue,
    SpecError,
> {
    let n = norm_spec(name);
    if n == ascii_of("gamma"@) || n == ascii_of("zeta"@) || n == ascii_of("psi"@) || n == ascii_of(
        "bessel_j"@,
    ) || n == ascii_of("bessel_y"@) {
        Result::Ok(z)
    } else {
        Result::Err(SpecError::UnknownSpecialFunction(name))
    }
}

/// Evaluate a named special function (placeholder implementations: each
/// recognized name returns its argument unchanged).
pub fn evaluate_special_function(func_name: &str, z: ComplexValue) -> (r: Result<
    ComplexValue,
    EvaluationError,
>)
    ensures
        (match r {
            Result::Ok(v) => special_fn_spec(func_name.spec_bytes(), z) == Result::<
                ComplexValue,
                SpecError,
            >::Ok(v),
            Result::Err(er) => special_fn_spec(func_name.spec_bytes(), z) == Result::<
                ComplexValue,
                SpecError,
            >::Err(er.deep_view()),
        }),
{
    proof {
        reveal_strlit("gamma");
        reveal_strlit("zeta");
        reveal_strlit("psi");
        reveal_strlit("bessel_j");
        reveal_strlit("bessel_y");
    }
    let bytes = func_name.as_bytes();
    let norm = normalize(bytes);
    let ns = norm.as_slice();
    if crate::parse::lit_bytes_eq(ns, "gamma") || crate::parse::lit_bytes_eq(ns, "zeta")
        || crate::parse::lit_bytes_eq(ns, "psi") || crate::parse::lit_bytes_eq(ns, "bessel_j")
        || crate::parse::lit_bytes_eq(ns, "bessel_y") {
        Result::Ok(z)
    } else {
        Result::Err(
            EvaluationError::UnknownSpecialFunction(vstd::slice::slice_to_vec(bytes)),
        )
    }
}

impl MathEvaluator {
    /// Evaluate a named special function (placeholders; see
    /// [`evaluate_special_function`]).
    pub fn evaluate_special_function(func_name: &str, z: ComplexValue) -> (r: Result<
        ComplexValue,
        EvaluationError,
    >)
        ensures
            (match r {
                Result::Ok(v) => special_fn_spec(func_name.spec_bytes(), z) == Result::<
                    ComplexValue,
                    SpecError,
                >::Ok(v),
                Result::Err(er) => special_fn_spec(func_name.spec_bytes(), z) == Result::<
                    ComplexValue,
                    SpecError,
                >::Err(er.deep_view()),
            }),
    {
        evaluate_special_function(func_name, z)
    }
}

} // verus!
