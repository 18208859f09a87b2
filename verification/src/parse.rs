//! Recursive-descent parser.
//!
//! The grammar, lowest to highest binding, each power-family level
//! right-associative:
//!
//! ```text
//! expression := add_sub
//! add_sub    := mul_div ( ('+'|'-') mul_div )*
//! mul_div    := power ( ('*'|'/') power )*
//! power      := pentation ( '^'    power     )?
//! pentation  := hexation  ( '^^^'  pentation )?
//! hexation   := tetration ( '^^^^' hexation  )?
//! tetration  := primary   ( '^^'   tetration )?
//! primary    := number | complex_literal | imaginary_unit
//!             | 'z' | 'c' | 'param'
//!             | function '(' expression ')'
//!             | '(' expression ')'
//! ```
//!
//! Each specification function mirrors one production and returns the parsed
//! tree with the next position, or the error the production raises; the
//! executable parser is proved to return exactly that.  (The specification
//! guards its tail recursions on the next position having advanced, which
//! the executable parser's postconditions show always holds.)

use vstd::prelude::*;
use vstd::string::StringSliceAdditionalSpecFns;
use crate::complex::ComplexValue;
use crate::error::{EvaluationError, SpecError};
use crate::expr::{BinaryOp, Expression, Function, Variable};
use crate::fixed::{Fx, FX_SCALE};
use crate::token::{SpecToken, Token, toks_wf, tview};
use crate::expr::expr_wf;

verus! {

/// The byte codes of a character sequence (meaningful for ASCII text).
pub open spec fn ascii_of(s: Seq<char>) -> Seq<u8> {
    Seq::new(s.len(), |i: int| s[i] as u8)
}

/// Whether a byte string equals an ASCII literal.
pub fn lit_bytes_eq(v: &[u8], lit: &str) -> (r: bool)
    requires
        vstd::string::is_ascii(lit),
    ensures
        r == (v@ == ascii_of(lit@)),
{
    proof {
        broadcast use vstd::string::is_ascii_spec_bytes;

        assert(lit.spec_bytes() =~= ascii_of(lit@));
    }
    let b = lit.as_bytes();
    if v.len() != b.len() {
        proof {
            assert(v@.len() != ascii_of(lit@).len());
        }
        return false;
    }
    let n = v.len();
    let mut i: usize = 0;
    while i < n
        invariant
            i <= n,
            n == v@.len(),
            n == b@.len(),
            b@ == ascii_of(lit@),
            forall|k: int| 0 <= k < i ==> v@[k] == b@[k],
        decreases n - i,
    {
        if v[i] != b[i] {
            proof {
                assert(v@[i as int] != ascii_of(lit@)[i as int]);
            }
            return false;
        }
        i = i + 1;
    }
    proof {
        assert(v@ =~= b@);
    }
    true
}

/// The function a recognized identifier names, if any.
pub open spec fn spec_fn_of_name(name: Seq<u8>) -> Option<Function> {
    if name == ascii_of("sin"@) {
        Option::Some(Function::Sin)
    } else if name == ascii_of("cos"@) {
        Option::Some(Function::Cos)
    } else if name == ascii_of("tan"@) {
        Option::Some(Function::Tan)
    } else if name == ascii_of("exp"@) {
        Option::Some(Function::Exp)
    } else if name == ascii_of("log"@) {
        Option::Some(Function::Ln)
    } else if name == ascii_of("gamma"@) {
        Option::Some(Function::Gamma)
    } else if name == ascii_of("zeta"@) {
        Option::Some(Function::Zeta)
    } else if name == ascii_of("slog"@) {
        Option::Some(Function::SuperLog)
    } else if name == ascii_of("sexp"@) {
        Option::Some(Function::SuperExp)
    } else if name == ascii_of("penta_root"@) {
        Option::Some(Function::PentaRoot)
    } else if name == ascii_of("hexa_root"@) {
        Option::Some(Function::HexaRoot)
    } else if name == ascii_of("sqrt"@) {
        Option::Some(Function::Sqrt)
    } else if name == ascii_of("cbrt"@) {
        Option::Some(Function::Cbrt)
    } else if name == ascii_of("asin"@) {
        Option::Some(Function::Asin)
    } else if name == ascii_of("acos"@) {
        Option::Some(Function::Acos)
    } else if name == ascii_of("atan"@) {
        Option::Some(Function::Atan)
    } else if name == ascii_of("sinh"@) {
        Option::Some(Function::Sinh)
    } else if name == ascii_of("cosh"@) {
        Option::Some(Function::Cosh)
    } else if name == ascii_of("tanh"@) {
        Option::Some(Function::Tanh)
    } else {
        Option::None
    }
}

/// Exec counterpart of [`spec_fn_of_name`].
fn fn_of_name(v: &Vec<u8>) -> (r: Option<Function>)
    ensures
        r == spec_fn_of_name(v@),
{
    proof {
        reveal_strlit("sin");
        reveal_strlit("cos");
        reveal_strlit("tan");
        reveal_strlit("exp");
        reveal_strlit("log");
        reveal_strlit("gamma");
        reveal_strlit("zeta");
        reveal_strlit("slog");
        reveal_strlit("sexp");
        reveal_strlit("penta_root");
        reveal_strlit("hexa_root");
        reveal_strlit("sqrt");
        reveal_strlit("cbrt");
        reveal_strlit("asin");
        reveal_strlit("acos");
        reveal_strlit("atan");
        reveal_strlit("sinh");
        reveal_strlit("cosh");
        reveal_strlit("tanh");
    }
    let s = v.as_slice();
    if lit_bytes_eq(s, "sin") {
        Option::Some(Function::Sin)
    } else if lit_bytes_eq(s, "cos") {
        Option::Some(Function::Cos)
    } else if lit_bytes_eq(s, "tan") {
        Option::Some(Function::Tan)
    } else if lit_bytes_eq(s, "exp") {
        Option::Some(Function::Exp)
    } else if lit_bytes_eq(s, "log") {
        Option::Some(Function::Ln)
    } else if lit_bytes_eq(s, "gamma") {
        Option::Some(Function::Gamma)
    } else if lit_bytes_eq(s, "zeta") {
        Option::Some(Function::Zeta)
    } else if lit_bytes_eq(s, "slog") {
        Option::Some(Function::SuperLog)
    } else if lit_bytes_eq(s, "sexp") {
        Option::Some(Function::SuperExp)
    } else if lit_bytes_eq(s, "penta_root") {
        Option::Some(Function::PentaRoot)
    } else if lit_bytes_eq(s, "hexa_root") {
        Option::Some(Function::HexaRoot)
    } else if lit_bytes_eq(s, "sqrt") {
        Option::Some(Function::Sqrt)
    } else if lit_bytes_eq(s, "cbrt") {
        Option::Some(Function::Cbrt)
    } else if lit_bytes_eq(s, "asin") {
        Option::Some(Function::Asin)
    } else if lit_bytes_eq(s, "acos") {
        Option::Some(Function::Acos)
    } else if lit_bytes_eq(s, "atan") {
        Option::Some(Function::Atan)
    } else if lit_bytes_eq(s, "sinh") {
        Option::Some(Function::Sinh)
    } else if lit_bytes_eq(s, "cosh") {
        Option::Some(Function::Cosh)
    } else if lit_bytes_eq(s, "tanh") {
        Option::Some(Function::Tanh)
    } else {
        Option::None
    }
}

/// Parse an expression (the lowest-precedence level).
pub open spec fn parse_expression_spec(t: Seq<SpecToken>, pos: int) -> Result<
    (Expression, int),
    SpecError,
>
    decreases t.len() - pos, 11int,
    when 0 <= pos
{
    parse_add_sub_spec(t, pos)
}

/// Parse a sum or difference chain.
pub open spec fn parse_add_sub_spec(t: Seq<SpecToken>, pos: int) -> Result<
    (Expression, int),
    SpecError,
>
    decreases t.len() - pos, 10int,
    when 0 <= pos
{
    match parse_mul_div_spec(t, pos) {
        Result::Ok((left, p)) => if pos <= p <= t.len() {
            parse_add_sub_rest_spec(t, p, left)
        } else {
            Result::Ok((left, p))
        },
        Result::Err(e) => Result::Err(e),
    }
}

/// Fold further `+`/`-` operands onto `left`.
pub open spec fn parse_add_sub_rest_spec(t: Seq<SpecToken>, pos: int, left: Expression) -> Result<
    (Expression, int),
    SpecError,
>
    decreases t.len() - pos, 9int,
    when 0 <= pos <= t.len()
{
    if pos < t.len() && (t[pos] is Plus || t[pos] is Minus) {
        let op = if t[pos] is Plus {
            BinaryOp::Add
        } else {
            BinaryOp::Sub
        };
        match parse_mul_div_spec(t, pos + 1) {
            Result::Ok((right, p2)) => {
                let node = Expression::Binary(op, Box::new(left), Box::new(right));
                if pos < p2 <= t.len() {
                    parse_add_sub_rest_spec(t, p2, node)
                } else {
                    Result::Ok((node, p2))
                }
            },
            Result::Err(e) => Result::Err(e),
        }
    } else {
        Result::Ok((left, pos))
    }
}

/// Parse a product or quotient chain.
pub open spec fn parse_mul_div_spec(t: Seq<SpecToken>, pos: int) -> Result<
    (Expression, int),
    SpecError,
>
    decreases t.len() - pos, 8int,
    when 0 <= pos
{
    match parse_power_spec(t, pos) {
        Result::Ok((left, p)) => if pos <= p <= t.len() {
            parse_mul_div_rest_spec(t, p, left)
        } else {
            Result::Ok((left, p))
        },
        Result::Err(e) => Result::Err(e),
    }
}

/// Fold further `*`/`/` operands onto `left`.
pub open spec fn parse_mul_div_rest_spec(t: Seq<SpecToken>, pos: int, left: Expression) -> Result<
    (Expression, int),
    SpecError,
>
    decreases t.len() - pos, 7int,
    when 0 <= pos <= t.len()
{
    if pos < t.len() && (t[pos] is Multiply || t[pos] is Divide) {
        let op = if t[pos] is Multiply {
            BinaryOp::Mul
        } else {
            BinaryOp::Div
        };
        match parse_power_spec(t, pos + 1) {
            Result::Ok((right, p2)) => {
                let node = Expression::Binary(op, Box::new(left), Box::new(right));
                if pos < p2 <= t.len() {
                    parse_mul_div_rest_spec(t, p2, node)
                } else {
                    Result::Ok((node, p2))
                }
            },
            Result::Err(e) => Result::Err(e),
        }
    } else {
        Result::Ok((left, pos))
    }
}

/// Parse a power; `^` is right-associative.
pub open spec fn parse_power_spec(t: Seq<SpecToken>, pos: int) -> Result<
    (Expression, int),
    SpecError,
>
    decreases t.len() - pos, 6int,
    when 0 <= pos
{
    match parse_pentation_spec(t, pos) {
        Result::Ok((left, p)) => if pos <= p < t.len() && t[p] is Power {
            match parse_power_spec(t, p + 1) {
                Result::Ok((right, p2)) => Result::Ok(
                    (Expression::Binary(BinaryOp::Pow, Box::new(left), Box::new(right)), p2),
                ),
                Result::Err(e) => Result::Err(e),
            }
        } else {
            Result::Ok((left, p))
        },
        Result::Err(e) => Result::Err(e),
    }
}

/// Parse a pentation; `^^^` is right-associative.
pub open spec fn parse_pentation_spec(t: Seq<SpecToken>, pos: int) -> Result<
    (Expression, int),
    SpecError,
>
    decreases t.len() - pos, 5int,
    when 0 <= pos
{
    match parse_hexation_spec(t, pos) {
        Result::Ok((left, p)) => if pos <= p < t.len() && t[p] is Pentation {
            match parse_pentation_spec(t, p + 1) {
                Result::Ok((right, p2)) => Result::Ok(
                    (Expression::Binary(BinaryOp::Pentation, Box::new(left), Box::new(right)), p2),
                ),
                Result::Err(e) => Result::Err(e),
            }
        } else {
            Result::Ok((left, p))
        },
        Result::Err(e) => Result::Err(e),
    }
}

/// Parse a hexation; `^^^^` is right-associative.
pub open spec fn parse_hexation_spec(t: Seq<SpecToken>, pos: int) -> Result<
    (Expression, int),
    SpecError,
>
    decreases t.len() - pos, 4int,
    when 0 <= pos
{
    match parse_tetration_spec(t, pos) {
        Result::Ok((left, p)) => if pos <= p < t.len() && t[p] is Hexation {
            match parse_hexation_spec(t, p + 1) {
                Result::Ok((right, p2)) => Result::Ok(
                    (Expression::Binary(BinaryOp::Hexation, Box::new(left), Box::new(right)), p2),
                ),
                Result::Err(e) => Result::Err(e),
            }
        } else {
            Result::Ok((left, p))
        },
        Result::Err(e) => Result::Err(e),
    }
}

/// Parse a tetration; `^^` is right-associative.
pub open spec fn parse_tetration_spec(t: Seq<SpecToken>, pos: int) -> Result<
    (Expression, int),
    SpecError,
>
    decreases t.len() - pos, 3int,
    when 0 <= pos
{
    match parse_primary_spec(t, pos) {
        Result::Ok((left, p)) => if pos <= p < t.len() && t[p] is Tetration {
            match parse_tetration_spec(t, p + 1) {
                Result::Ok((right, p2)) => Result::Ok(
                    (Expression::Binary(BinaryOp::Tetration, Box::new(left), Box::new(right)), p2),
                ),
                Result::Err(e) => Result::Err(e),
            }
        } else {
            Result::Ok((left, p))
        },
        Result::Err(e) => Result::Err(e),
    }
}

/// An end-of-input error inside a function's argument list is reported as
/// the unmatched parenthesis of that function.
pub open spec fn unclosed_for(e: SpecError, name: Seq<u8>) -> SpecError {
    match e {
        SpecError::UnexpectedEnd => SpecError::ExpectedClosingParenFor(name),
        _ => e,
    }
}

/// An end-of-input error inside a parenthesized expression is reported as
/// an unmatched parenthesis.
pub open spec fn unclosed(e: SpecError) -> SpecError {
    match e {
        SpecError::UnexpectedEnd => SpecError::ExpectedClosingParen,
        _ => e,
    }
}

/// Exec counterpart of [`unclosed_for`].
fn map_unclosed_for(er: EvaluationError, name: &Vec<u8>) -> (r: EvaluationError)
    ensures
        r.deep_view() == unclosed_for(er.deep_view(), name@),
{
    match er {
        EvaluationError::UnexpectedEnd => EvaluationError::ExpectedClosingParenFor(name.clone()),
        e => e,
    }
}

/// Exec counterpart of [`unclosed`].
fn map_unclosed(er: EvaluationError) -> (r: EvaluationError)
    ensures
        r.deep_view() == unclosed(er.deep_view()),
{
    match er {
        EvaluationError::UnexpectedEnd => EvaluationError::ExpectedClosingParen,
        e => e,
    }
}

/// Parse the parenthesized argument of the function call whose name starts
/// at `pos`.
pub open spec fn parse_call_spec(t: Seq<SpecToken>, pos: int, f: Function, name: Seq<u8>) -> Result<
    (Expression, int),
    SpecError,
>
    decreases t.len() - pos, 0int,
    when 0 <= pos < t.len()
{
    if pos + 1 < t.len() && t[pos + 1] is LeftParen {
        match parse_expression_spec(t, pos + 2) {
            Result::Ok((arg, p)) => if p < t.len() && t[p] is RightParen {
                Result::Ok((Expression::Apply(f, Box::new(arg)), p + 1))
            } else {
                Result::Err(SpecError::ExpectedClosingParenFor(name))
            },
            Result::Err(e) => Result::Err(unclosed_for(e, name)),
        }
    } else {
        Result::Err(SpecError::ExpectedOpeningParenFor(name))
    }
}

/// Parse the identifier starting at `pos`: a variable, or a function call.
pub open spec fn parse_ident_spec(t: Seq<SpecToken>, pos: int, name: Seq<u8>) -> Result<
    (Expression, int),
    SpecError,
>
    decreases t.len() - pos, 1int,
    when 0 <= pos < t.len()
{
    if name == ascii_of("z"@) {
        Result::Ok((Expression::Variable(Variable::Z), pos + 1))
    } else if name == ascii_of("c"@) || name == ascii_of("param"@) {
        Result::Ok((Expression::Variable(Variable::C), pos + 1))
    } else {
        match spec_fn_of_name(name) {
            Option::Some(f) => parse_call_spec(t, pos, f, name),
            Option::None => Result::Err(SpecError::UnknownIdentifier(name)),
        }
    }
}

/// Parse a primary expression: a literal, a variable, a function call or a
/// parenthesized expression.
pub open spec fn parse_primary_spec(t: Seq<SpecToken>, pos: int) -> Result<
    (Expression, int),
    SpecError,
>
    decreases t.len() - pos, 2int,
    when 0 <= pos
{
    if pos >= t.len() {
        Result::Err(SpecError::UnexpectedEnd)
    } else {
        match t[pos] {
            SpecToken::Number(m) => Result::Ok(
                (
                    Expression::Constant(
                        ComplexValue { re: Fx { m: m as i128 }, im: Fx { m: 0 } },
                    ),
                    pos + 1,
                ),
            ),
            SpecToken::ComplexNumber(m) => Result::Ok(
                (
                    Expression::Constant(
                        ComplexValue { re: Fx { m: 0 }, im: Fx { m: m as i128 } },
                    ),
                    pos + 1,
                ),
            ),
            SpecToken::ImaginaryUnit => Result::Ok(
                (
                    Expression::Constant(
                        ComplexValue { re: Fx { m: 0 }, im: Fx { m: FX_SCALE } },
                    ),
                    pos + 1,
                ),
            ),
            SpecToken::Identifier(name) => parse_ident_spec(t, pos, name),
            SpecToken::LeftParen => {
                match parse_expression_spec(t, pos + 1) {
                    Result::Ok((e, p)) => if p < t.len() && t[p] is RightParen {
                        Result::Ok((e, p + 1))
                    } else {
                        Result::Err(SpecError::ExpectedClosingParen)
                    },
                    Result::Err(e) => Result::Err(unclosed(e)),
                }
            },
            _ => Result::Err(SpecError::UnexpectedToken),
        }
    }
}

/// Parse a whole expression starting at `pos` (exec).
pub fn parse_expression(toks: &Vec<Token>, pos: usize) -> (r: Result<
    (Expression, usize),
    EvaluationError,
>)
    requires
        pos <= toks@.len(),
        toks_wf(tview(toks@)),
    ensures
        (match r {
            Result::Ok((e, p)) => parse_expression_spec(tview(toks@), pos as int)
                == Result::<(Expression, int), SpecError>::Ok((e, p as int)) && pos < p <= toks@.len() && expr_wf(e),
            Result::Err(er) => parse_expression_spec(tview(toks@), pos as int) == Result::<
                (Expression, int),
                SpecError,
            >::Err(er.deep_view()),
        }),
    decreases toks@.len() - pos, 11int,
{
    parse_add_sub(toks, pos)
}

/// Parse a sum or difference chain (exec).
fn parse_add_sub(toks: &Vec<Token>, pos: usize) -> (r: Result<(Expression, usize), EvaluationError>)
    requires
        pos <= toks@.len(),
        toks_wf(tview(toks@)),
    ensures
        (match r {
            Result::Ok((e, p)) => parse_add_sub_spec(tview(toks@), pos as int) == Result::<
                (Expression, int),
                SpecError,
            >::Ok((e, p as int)) && pos < p <= toks@.len() && expr_wf(e),
            Result::Err(er) => parse_add_sub_spec(tview(toks@), pos as int) == Result::<
                (Expression, int),
                SpecError,
            >::Err(er.deep_view()),
        }),
    decreases toks@.len() - pos, 10int,
{
    let n = toks.len();
    let first = parse_mul_div(toks, pos);
    match first {
        Result::Ok((left0, p0)) => {
            let mut left = left0;
            let mut p = p0;
            loop
                invariant
                    pos < p <= n,
                    n == toks@.len(),
                    toks_wf(tview(toks@)),
                    expr_wf(left),
                    parse_add_sub_spec(tview(toks@), pos as int) == parse_add_sub_rest_spec(
                        tview(toks@),
                        p as int,
                        left,
                    ),
                ensures
                    pos < p <= n,
                    expr_wf(left),
                    parse_add_sub_spec(tview(toks@), pos as int) == Result::<
                        (Expression, int),
                        SpecError,
                    >::Ok((left, p as int)),
                decreases n - p,
            {
                if p < n && (matches!(&toks[p], Token::Plus) || matches!(&toks[p], Token::Minus)) {
                    let op = if matches!(&toks[p], Token::Plus) {
                        BinaryOp::Add
                    } else {
                        BinaryOp::Sub
                    };
                    match parse_mul_div(toks, p + 1) {
                        Result::Ok((right, p2)) => {
                            left = Expression::Binary(op, Box::new(left), Box::new(right));
                            p = p2;
                        },
                        Result::Err(er) => {
                            return Result::Err(er);
                        },
                    }
                } else {
                    break ;
                }
            }
            Result::Ok((left, p))
        },
        Result::Err(er) => Result::Err(er),
    }
}

/// Parse a product or quotient chain (exec).
fn parse_mul_div(toks: &Vec<Token>, pos: usize) -> (r: Result<(Expression, usize), EvaluationError>)
    requires
        pos <= toks@.len(),
        toks_wf(tview(toks@)),
    ensures
        (match r {
            Result::Ok((e, p)) => parse_mul_div_spec(tview(toks@), pos as int) == Result::<
                (Expression, int),
                SpecError,
            >::Ok((e, p as int)) && pos < p <= toks@.len() && expr_wf(e),
            Result::Err(er) => parse_mul_div_spec(tview(toks@), pos as int) == Result::<
                (Expression, int),
                SpecError,
            >::Err(er.deep_view()),
        }),
    decreases toks@.len() - pos, 8int,
{
    let n = toks.len();
    let first = parse_power(toks, pos);
    match first {
        Result::Ok((left0, p0)) => {
            let mut left = left0;
            let mut p = p0;
            loop
                invariant
                    pos < p <= n,
                    n == toks@.len(),
                    toks_wf(tview(toks@)),
                    expr_wf(left),
                    parse_mul_div_spec(tview(toks@), pos as int) == parse_mul_div_rest_spec(
                        tview(toks@),
                        p as int,
                        left,
                    ),
                ensures
                    pos < p <= n,
                    expr_wf(left),
                    parse_mul_div_spec(tview(toks@), pos as int) == Result::<
                        (Expression, int),
                        SpecError,
                    >::Ok((left, p as int)),
                decreases n - p,
            {
                if p < n && (matches!(&toks[p], Token::Multiply) || matches!(
                    &toks[p],
                    Token::Divide,
                )) {
                    let op = if matches!(&toks[p], Token::Multiply) {
                        BinaryOp::Mul
                    } else {
                        BinaryOp::Div
                    };
                    match parse_power(toks, p + 1) {
                        Result::Ok((right, p2)) => {
                            left = Expression::Binary(op, Box::new(left), Box::new(right));
                            p = p2;
                        },
                        Result::Err(er) => {
                            return Result::Err(er);
                        },
                    }
                } else {
                    break ;
                }
            }
            Result::Ok((left, p))
        },
        Result::Err(er) => Result::Err(er),
    }
}

/// Parse a power (exec); `^` is right-associative.
fn parse_power(toks: &Vec<Token>, pos: usize) -> (r: Result<(Expression, usize), EvaluationError>)
    requires
        pos <= toks@.len(),
        toks_wf(tview(toks@)),
    ensures
        (match r {
            Result::Ok((e, p)) => parse_power_spec(tview(toks@), pos as int) == Result::<
                (Expression, int),
                SpecError,
            >::Ok((e, p as int)) && pos < p <= toks@.len() && expr_wf(e),
            Result::Err(er) => parse_power_spec(tview(toks@), pos as int) == Result::<
                (Expression, int),
                SpecError,
            >::Err(er.deep_view()),
        }),
    decreases toks@.len() - pos, 6int,
{
    let n = toks.len();
    match parse_pentation(toks, pos) {
        Result::Ok((left, p)) => {
            if p < n && matches!(&toks[p], Token::Power) {
                match parse_power(toks, p + 1) {
                    Result::Ok((right, p2)) => Result::Ok(
                        (Expression::Binary(BinaryOp::Pow, Box::new(left), Box::new(right)), p2),
                    ),
                    Result::Err(er) => Result::Err(er),
                }
            } else {
                Result::Ok((left, p))
            }
        },
        Result::Err(er) => Result::Err(er),
    }
}

/// Parse a pentation (exec); `^^^` is right-associative.
fn parse_pentation(toks: &Vec<Token>, pos: usize) -> (r: Result<
    (Expression, usize),
    EvaluationError,
>)
    requires
        pos <= toks@.len(),
        toks_wf(tview(toks@)),
    ensures
        (match r {
            Result::Ok((e, p)) => parse_pentation_spec(tview(toks@), pos as int) == Result::<
                (Expression, int),
                SpecError,
            >::Ok((e, p as int)) && pos < p <= toks@.len() && expr_wf(e),
            Result::Err(er) => parse_pentation_spec(tview(toks@), pos as int) == Result::<
                (Expression, int),
                SpecError,
            >::Err(er.deep_view()),
        }),
    decreases toks@.len() - pos, 5int,
{
    let n = toks.len();
    match parse_hexation(toks, pos) {
        Result::Ok((left, p)) => {
            if p < n && matches!(&toks[p], Token::Pentation) {
                match parse_pentation(toks, p + 1) {
                    Result::Ok((right, p2)) => Result::Ok(
                        (
                            Expression::Binary(BinaryOp::Pentation, Box::new(left), Box::new(right)),
                            p2,
                        ),
                    ),
                    Result::Err(er) => Result::Err(er),
                }
            } else {
                Result::Ok((left, p))
            }
        },
        Result::Err(er) => Result::Err(er),
    }
}

/// Parse a hexation (exec); `^^^^` is right-associative.
fn parse_hexation(toks: &Vec<Token>, pos: usize) -> (r: Result<
    (Expression, usize),
    EvaluationError,
>)
    requires
        pos <= toks@.len(),
        toks_wf(tview(toks@)),
    ensures
        (match r {
            Result::Ok((e, p)) => parse_hexation_spec(tview(toks@), pos as int) == Result::<
                (Expression, int),
                SpecError,
            >::Ok((e, p as int)) && pos < p <= toks@.len() && expr_wf(e),
            Result::Err(er) => parse_hexation_spec(tview(toks@), pos as int) == Result::<
                (Expression, int),
                SpecError,
            >::Err(er.deep_view()),
        }),
    decreases toks@.len() - pos, 4int,
{
    let n = toks.len();
    match parse_tetration(toks, pos) {
        Result::Ok((left, p)) => {
            if p < n && matches!(&toks[p], Token::Hexation) {
                match parse_hexation(toks, p + 1) {
                    Result::Ok((right, p2)) => Result::Ok(
                        (
                            Expression::Binary(BinaryOp::Hexation, Box::new(left), Box::new(right)),
                            p2,
                        ),
                    ),
                    Result::Err(er) => Result::Err(er),
                }
            } else {
                Result::Ok((left, p))
            }
        },
        Result::Err(er) => Result::Err(er),
    }
}

/// Parse a tetration (exec); `^^` is right-associative.
fn parse_tetration(toks: &Vec<Token>, pos: usize) -> (r: Result<
    (Expression, usize),
    EvaluationError,
>)
    requires
        pos <= toks@.len(),
        toks_wf(tview(toks@)),
    ensures
        (match r {
            Result::Ok((e, p)) => parse_tetration_spec(tview(toks@), pos as int) == Result::<
                (Expression, int),
                SpecError,
            >::Ok((e, p as int)) && pos < p <= toks@.len() && expr_wf(e),
            Result::Err(er) => parse_tetration_spec(tview(toks@), pos as int) == Result::<
                (Expression, int),
                SpecError,
            >::Err(er.deep_view()),
        }),
    decreases toks@.len() - pos, 3int,
{
    let n = toks.len();
    match parse_primary(toks, pos) {
        Result::Ok((left, p)) => {
            if p < n && matches!(&toks[p], Token::Tetration) {
                match parse_tetration(toks, p + 1) {
                    Result::Ok((right, p2)) => Result::Ok(
                        (
                            Expression::Binary(
                                BinaryOp::Tetration,
                                Box::new(left),
                                Box::new(right),
                            ),
                            p2,
                        ),
                    ),
                    Result::Err(er) => Result::Err(er),
                }
            } else {
                Result::Ok((left, p))
            }
        },
        Result::Err(er) => Result::Err(er),
    }
}

/// Parse the parenthesized argument of a function call (exec).
#[verifier::rlimit(100)]
fn parse_call(toks: &Vec<Token>, pos: usize, f: Function, name: &Vec<u8>) -> (r: Result<
    (Expression, usize),
    EvaluationError,
>)
    requires
        pos < toks@.len(),
        toks_wf(tview(toks@)),
    ensures
        (match r {
            Result::Ok((e, p)) => parse_call_spec(tview(toks@), pos as int, f, name@) == Result::<
                (Expression, int),
                SpecError,
            >::Ok((e, p as int)) && pos < p <= toks@.len() && expr_wf(e),
            Result::Err(er) => parse_call_spec(tview(toks@), pos as int, f, name@) == Result::<
                (Expression, int),
                SpecError,
            >::Err(er.deep_view()),
        }),
    decreases toks@.len() - pos, 0int,
{
    let n = toks.len();
    if pos + 1 < n && matches!(&toks[pos + 1], Token::LeftParen) {
        match parse_expression(toks, pos + 2) {
            Result::Ok((arg, p)) => {
                if p < n && matches!(&toks[p], Token::RightParen) {
                    Result::Ok((Expression::Apply(f, Box::new(arg)), p + 1))
                } else {
                    Result::Err(EvaluationError::ExpectedClosingParenFor(name.clone()))
                }
            },
            Result::Err(er) => Result::Err(map_unclosed_for(er, name)),
        }
    } else {
        Result::Err(EvaluationError::ExpectedOpeningParenFor(name.clone()))
    }
}

/// Parse an identifier: a variable, or a function call (exec).
#[verifier::rlimit(60)]
fn parse_ident(toks: &Vec<Token>, pos: usize, name: &Vec<u8>) -> (r: Result<
    (Expression, usize),
    EvaluationError,
>)
    requires
        pos < toks@.len(),
        toks_wf(tview(toks@)),
        tview(toks@)[pos as int] == SpecToken::Identifier(name@),
    ensures
        (match r {
            Result::Ok((e, p)) => parse_ident_spec(tview(toks@), pos as int, name@) == Result::<
                (Expression, int),
                SpecError,
            >::Ok((e, p as int)) && pos < p <= toks@.len() && expr_wf(e),
            Result::Err(er) => parse_ident_spec(tview(toks@), pos as int, name@) == Result::<
                (Expression, int),
                SpecError,
            >::Err(er.deep_view()),
        }),
    decreases toks@.len() - pos, 1int,
{
    let n = toks.len();
    proof {
        assert(pos < n);
        reveal_strlit("z");
        reveal_strlit("c");
        reveal_strlit("param");
    }
    if lit_bytes_eq(name.as_slice(), "z") {
        Result::Ok((Expression::Variable(Variable::Z), pos + 1))
    } else if lit_bytes_eq(name.as_slice(), "c") || lit_bytes_eq(name.as_slice(), "param") {
        Result::Ok((Expression::Variable(Variable::C), pos + 1))
    } else {
        match fn_of_name(name) {
            Option::Some(f) => parse_call(toks, pos, f, name),
            Option::None => Result::Err(EvaluationError::UnknownIdentifier(name.clone())),
        }
    }
}

/// Parse a primary expression (exec).
#[verifier::spinoff_prover]
#[verifier::rlimit(100)]
fn parse_primary(toks: &Vec<Token>, pos: usize) -> (r: Result<(Expression, usize), EvaluationError>)
    requires
        pos <= toks@.len(),
        toks_wf(tview(toks@)),
    ensures
        (match r {
            Result::Ok((e, p)) => parse_primary_spec(tview(toks@), pos as int) == Result::<
                (Expression, int),
                SpecError,
            >::Ok((e, p as int)) && pos < p <= toks@.len() && expr_wf(e),
            Result::Err(er) => parse_primary_spec(tview(toks@), pos as int) == Result::<
                (Expression, int),
                SpecError,
            >::Err(er.deep_view()),
        }),
    decreases toks@.len() - pos, 2int,
{
    let n = toks.len();
    if pos >= n {
        return Result::Err(EvaluationError::UnexpectedEnd);
    }
    match &toks[pos] {
        Token::Number(f) => Result::Ok(
            (
                Expression::Constant(ComplexValue { re: Fx { m: f.m }, im: Fx { m: 0 } }),
                pos + 1,
            ),
        ),
        Token::ComplexNumber(f) => Result::Ok(
            (
                Expression::Constant(ComplexValue { re: Fx { m: 0 }, im: Fx { m: f.m } }),
                pos + 1,
            ),
        ),
        Token::ImaginaryUnit => Result::Ok(
            (
                Expression::Constant(ComplexValue { re: Fx { m: 0 }, im: Fx { m: FX_SCALE } }),
                pos + 1,
            ),
        ),
        Token::Identifier(name) => parse_ident(toks, pos, name),
        Token::LeftParen => {
            match parse_expression(toks, pos + 1) {
                Result::Ok((e, p)) => {
                    if p < n && matches!(&toks[p], Token::RightParen) {
                        Result::Ok((e, p + 1))
                    } else {
                        Result::Err(EvaluationError::ExpectedClosingParen)
                    }
                },
                Result::Err(er) => Result::Err(map_unclosed(er)),
            }
        },
        _ => Result::Err(EvaluationError::UnexpectedToken),
    }
}

} // verus!
