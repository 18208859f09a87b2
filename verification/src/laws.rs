//! Proved laws of the formula engine.
//!
//! Each public proof function states one property the library promises, over
//! the same specification functions its contracts use.

use vstd::prelude::*;
use crate::complex::{ComplexValue, c_add, c_mul, c_nsq_raw};
use crate::error::SpecError;
use crate::eval::eval_spec;
use crate::expr::{BinaryOp, Expression, Variable};
use crate::fixed::{Fx, div_trunc, fx_mul_m, fx_sat, FX_SAT, FX_SCALE};
use crate::formula::{evaluate_formula_spec, norm_spec};
use crate::hyper::{hex_spec, pent_spec, tet_spec};
use crate::parse::{ascii_of, parse_expression_spec, spec_fn_of_name};
use crate::power::{c_clamp, c_powi, pow_spec, std_i2};
use crate::token::SpecToken;
use crate::trans::interp_raw;

verus! {

/// The imaginary unit `0 + 1i` on the grid.
pub open spec fn imag_unit() -> ComplexValue {
    ComplexValue { re: Fx { m: 0 }, im: Fx { m: FX_SCALE } }
}

/// The value `1 + 0i` on the grid.
pub open spec fn one_value() -> ComplexValue {
    ComplexValue { re: Fx { m: FX_SCALE }, im: Fx { m: 0 } }
}

/// The value `0 + 0i`.
pub open spec fn zero_value() -> ComplexValue {
    ComplexValue { re: Fx { m: 0 }, im: Fx { m: 0 } }
}

/// Scaling by the grid unit is exact: `fx_mul_m(x, FX_SCALE) == x`.
proof fn lemma_mul_by_scale(x: int)
    requires
        -FX_SAT <= x <= FX_SAT,
    ensures
        fx_mul_m(x, FX_SCALE as int) == x,
        fx_mul_m(FX_SCALE as int, x) == x,
{
    assert(x * FX_SCALE == FX_SCALE * x) by (nonlinear_arith);
    if x >= 0 {
        assert((x * FX_SCALE) / (FX_SCALE as int) == x) by {
            vstd::arithmetic::div_mod::lemma_div_by_multiple(x, FX_SCALE as int);
        }
    } else {
        assert(-(x * FX_SCALE) == (-x) * FX_SCALE) by (nonlinear_arith);
        assert(((-x) * FX_SCALE) / (FX_SCALE as int) == -x) by {
            vstd::arithmetic::div_mod::lemma_div_by_multiple(-x, FX_SCALE as int);
        }
    }
}

/// Scaling by the negated grid unit is exact negation.
proof fn lemma_mul_by_neg_scale(x: int)
    requires
        -FX_SAT <= x <= FX_SAT,
    ensures
        fx_mul_m(x, -(FX_SCALE as int)) == -x,
{
    if x >= 0 {
        assert(x * (-(FX_SCALE as int)) == -(x * FX_SCALE)) by (nonlinear_arith);
        assert((x * FX_SCALE) / (FX_SCALE as int) == x) by {
            vstd::arithmetic::div_mod::lemma_div_by_multiple(x, FX_SCALE as int);
        }
    } else {
        assert(x * (-(FX_SCALE as int)) == (-x) * FX_SCALE) by (nonlinear_arith);
        assert(((-x) * FX_SCALE) / (FX_SCALE as int) == -x) by {
            vstd::arithmetic::div_mod::lemma_div_by_multiple(-x, FX_SCALE as int);
        }
    }
}

/// Multiplying zero mantissas is exact.
proof fn lemma_mul_zero(x: int)
    ensures
        fx_mul_m(0, x) == 0,
        fx_mul_m(x, 0) == 0,
{
    assert(0 * x == 0) by (nonlinear_arith);
    assert(x * 0 == 0) by (nonlinear_arith);
    assert(div_trunc(0, FX_SCALE as int) == 0) by {
        vstd::arithmetic::div_mod::lemma_div_of0(FX_SCALE as int);
    }
}

/// The square of the imaginary unit is exactly the active `i_squared`,
/// whatever that value is: with `i_squared = 1 + 0i` (the split-complex
/// system) the product of `0 + 1i` with itself is exactly `1 + 0i`.
pub proof fn lemma_unit_square(i2: ComplexValue)
    requires
        i2.wf(),
    ensures
        c_mul(imag_unit(), imag_unit(), i2) == i2,
{
    lemma_mul_zero(0);
    lemma_mul_zero(FX_SCALE as int);
    lemma_mul_by_scale(FX_SCALE as int);
    lemma_mul_by_scale(i2.re.m as int);
    lemma_mul_by_scale(i2.im.m as int);
    assert(c_mul(imag_unit(), imag_unit(), i2).re == i2.re);
    assert(c_mul(imag_unit(), imag_unit(), i2).im == i2.im);
}

/// In the standard system (`i_squared = -1 + 0i`) the generalized product
/// is exactly the standard complex product on the grid:
/// `re = ac - bd` and `im = ad + bc`, each term rounded as the engine
/// rounds it, the combination saturated.
pub proof fn lemma_mul_standard(x: ComplexValue, y: ComplexValue)
    requires
        x.wf(),
        y.wf(),
    ensures
        c_mul(x, y, std_i2()).re.m == fx_sat(
            fx_mul_m(x.re.m as int, y.re.m as int) - fx_mul_m(x.im.m as int, y.im.m as int),
        ),
        c_mul(x, y, std_i2()).im.m == fx_sat(
            fx_mul_m(x.re.m as int, y.im.m as int) + fx_mul_m(x.im.m as int, y.re.m as int),
        ),
{
    let bd = fx_mul_m(x.im.m as int, y.im.m as int);
    assert(-FX_SAT <= bd <= FX_SAT);
    lemma_mul_by_neg_scale(bd);
    lemma_mul_zero(bd);
    let ad = fx_mul_m(x.re.m as int, y.im.m as int);
    let bc = fx_mul_m(x.im.m as int, y.re.m as int);
    assert(fx_sat(fx_sat(ad + bc) + 0) == fx_sat(ad + bc));
}

/// The fast path maps the formula `z^2 + c` to the power of `z` by two
/// under the engine's edge rules, plus `c` — the same operation the parsed
/// tree applies.
pub proof fn lemma_formula_square(s: Seq<u8>, z: ComplexValue, c: ComplexValue, i2: ComplexValue)
    requires
        norm_spec(s) == ascii_of("z^2 + c"@),
        z.wf(),
        c.wf(),
        i2.wf(),
    ensures
        evaluate_formula_spec(s, z, c, i2) == Result::<ComplexValue, SpecError>::Ok(
            c_add(pow_spec(z, crate::formula::exp_n(2), i2), c),
        ),
{
}

/// On a nondegenerate `z` whose square stays within the power clamp,
/// `z^2 + c` is exactly `z*z + c` in the active system; with the standard
/// `i_squared` (see [`lemma_mul_standard`]) that is the standard complex
/// square plus `c`.  The excluded inputs are those on which the power
/// operation's documented edge rules substitute instead.
pub proof fn lemma_formula_square_plain(
    s: Seq<u8>,
    z: ComplexValue,
    c: ComplexValue,
    i2: ComplexValue,
)
    requires
        norm_spec(s) == ascii_of("z^2 + c"@),
        z.wf(),
        c.wf(),
        i2.wf(),
        c_nsq_raw(z) > crate::power::DEGEN_RAW_MAX,
        c_nsq_raw(c_mul(z, z, i2)) <= (10 * FX_SCALE) * (10 * FX_SCALE),
    ensures
        evaluate_formula_spec(s, z, c, i2) == Result::<ComplexValue, SpecError>::Ok(
            c_add(c_mul(z, z, i2), c),
        ),
{
    lemma_formula_square(s, z, c, i2);
    lemma_square_via_power(z, i2);
}

/// Normalizing the canonical text of `z^2 + c` leaves it unchanged, so
/// [`lemma_formula_square`] applies to the literal formula itself.
pub proof fn lemma_square_text_normal()
    ensures
        norm_spec(ascii_of("z^2 + c"@)) == ascii_of("z^2 + c"@),
{
    reveal_strlit("z^2 + c");
    let s = ascii_of("z^2 + c"@);
    assert(s.len() == 7);
    assert(crate::formula::skip_space_fwd(s, 0) == 0);
    assert(crate::formula::skip_space_back(s, 7) == 7);
    assert forall|i: int| 0 <= i < 7 implies crate::formula::to_lower(#[trigger] s[i]) == s[i] by {
        assert(s[i] == ("z^2 + c"@)[i] as u8);
    }
    assert(norm_spec(s) =~= s);
}

/// The power operation computes a square exactly: on a nondegenerate base
/// whose square stays within the clamp bound, `pow(z, 2)` is `z * z` in
/// the active system.
pub proof fn lemma_square_via_power(z: ComplexValue, i2: ComplexValue)
    requires
        z.wf(),
        i2.wf(),
        c_nsq_raw(z) > crate::power::DEGEN_RAW_MAX,
        c_nsq_raw(c_mul(z, z, i2)) <= (10 * FX_SCALE) * (10 * FX_SCALE),
    ensures
        pow_spec(z, crate::formula::exp_n(2), i2) == c_mul(z, z, i2),
{
    let e = crate::formula::exp_n(2);
    assert(e.re.m == 2 * FX_SCALE);
    assert((2 * FX_SCALE) % (FX_SCALE as int) == 0) by {
        vstd::arithmetic::div_mod::lemma_mod_multiples_basic(2, FX_SCALE as int);
    }
    assert((2 * FX_SCALE) / (FX_SCALE as int) == 2) by {
        vstd::arithmetic::div_mod::lemma_div_by_multiple(2, FX_SCALE as int);
    }
    assert(c_powi(z, 2, i2) == c_mul(c_powi(z, 1, i2), z, i2));
    assert(c_powi(z, 1, i2) == z);
    assert(c_clamp(c_mul(z, z, i2), 10) == c_mul(z, z, i2));
}

/// Every value the power operation yields is admissible: the engine
/// substitutes bounded sentinels instead of overflowing, so no power
/// result is ever unrepresentable.
pub proof fn lemma_pow_bounded(b: ComplexValue, e: ComplexValue, i2: ComplexValue)
    requires
        b.wf(),
        e.wf(),
        i2.wf(),
    ensures
        pow_spec(b, e, i2).wf(),
{
    if c_nsq_raw(b) <= crate::power::DEGEN_RAW_MAX {
    } else if e.im.m == 0 {
        if e.re.m % FX_SCALE == 0 && 0 <= (e.re.m as int) / (FX_SCALE as int)
            <= crate::power::POW_ITER_MAX {
            if e.re.m == 0 {
            } else {
                lemma_powi_wf(b, (e.re.m as int) / (FX_SCALE as int), i2);
                lemma_clamp_wf(c_powi(b, (e.re.m as int) / (FX_SCALE as int), i2), 10);
            }
        } else {
            lemma_clamp_wf(interp_raw(crate::trans::powf_of(b, e.re)), 10);
        }
    } else {
        lemma_clamp_wf(interp_raw(crate::trans::powc_of(b, e)), 2);
    }
}

/// Repeated generalized multiplication stays admissible.
proof fn lemma_powi_wf(b: ComplexValue, n: int, i2: ComplexValue)
    requires
        b.wf(),
    ensures
        c_powi(b, n, i2).wf(),
    decreases n,
{
    if n > 1 {
        lemma_powi_wf(b, n - 1, i2);
    }
}

/// Clamping an admissible value stays admissible.
proof fn lemma_clamp_wf(z: ComplexValue, bound: int)
    requires
        z.wf(),
    ensures
        c_clamp(z, bound).wf(),
{
}

/// Height one is the identity for every hyperoperation: `tetrate(b, 1)`,
/// `pentate(b, 1)` and `hexate(b, 1)` are all exactly `b`.
pub proof fn lemma_hyper_identity(b: ComplexValue, i2: ComplexValue)
    requires
        b.wf(),
        i2.wf(),
    ensures
        tet_spec(b, one_value(), i2) == b,
        pent_spec(b, one_value(), i2) == b,
        hex_spec(b, one_value(), i2) == b,
{
    assert(FX_SCALE as int % FX_SCALE as int == 0) by {
        vstd::arithmetic::div_mod::lemma_mod_self_0(FX_SCALE as int);
    }
    assert(FX_SCALE as int / FX_SCALE as int == 1) by {
        vstd::arithmetic::div_mod::lemma_div_by_self(FX_SCALE as int);
    }
}

/// Dividing by an exact zero is the engine's one arithmetic error: the
/// tree `z / c` with `c` bound to zero evaluates to the division error,
/// never to a silent substitute.
pub proof fn lemma_division_by_zero(z: ComplexValue, i2: ComplexValue)
    requires
        z.wf(),
        i2.wf(),
    ensures
        eval_spec(
            Expression::Binary(
                BinaryOp::Div,
                Box::new(Expression::Variable(Variable::Z)),
                Box::new(Expression::Variable(Variable::C)),
            ),
            z,
            zero_value(),
            i2,
        ) == Result::<ComplexValue, SpecError>::Err(SpecError::DivisionByZero),
{
    assert(eval_spec(Expression::Variable(Variable::Z), z, zero_value(), i2) == Result::<
        ComplexValue,
        SpecError,
    >::Ok(z));
    assert(eval_spec(Expression::Variable(Variable::C), z, zero_value(), i2) == Result::<
        ComplexValue,
        SpecError,
    >::Ok(zero_value()));
}

/// An identifier that names neither a variable nor a known function makes
/// the whole parse fail with an error carrying exactly that name, whatever
/// follows it.
pub proof fn lemma_unknown_identifier(t: Seq<SpecToken>, name: Seq<u8>)
    requires
        t.len() >= 1,
        t[0] == SpecToken::Identifier(name),
        name != ascii_of("z"@),
        name != ascii_of("c"@),
        name != ascii_of("param"@),
        spec_fn_of_name(name) is None,
    ensures
        parse_expression_spec(t, 0) == Result::<(Expression, int), SpecError>::Err(
            SpecError::UnknownIdentifier(name),
        ),
{
    let e = Result::<(Expression, int), SpecError>::Err(SpecError::UnknownIdentifier(name));
    assert(crate::parse::parse_primary_spec(t, 0) == e);
    assert(crate::parse::parse_tetration_spec(t, 0) == e);
    assert(crate::parse::parse_hexation_spec(t, 0) == e);
    assert(crate::parse::parse_pentation_spec(t, 0) == e);
    assert(crate::parse::parse_power_spec(t, 0) == e);
    assert(crate::parse::parse_mul_div_spec(t, 0) == e);
    assert(crate::parse::parse_add_sub_spec(t, 0) == e);
}

/// A formula that ends right after an opening parenthesis fails with the
/// unmatched-parenthesis error: on the token stream of `z + (` the parser
/// reports the missing closing parenthesis.
#[verifier::rlimit(100)]
pub proof fn lemma_unmatched_paren()
    ensures
        parse_expression_spec(
            seq![
                SpecToken::Identifier(ascii_of("z"@)),
                SpecToken::Plus,
                SpecToken::LeftParen,
            ],
            0,
        ) == Result::<(Expression, int), SpecError>::Err(SpecError::ExpectedClosingParen),
{
    let t = seq![SpecToken::Identifier(ascii_of("z"@)), SpecToken::Plus, SpecToken::LeftParen];
    let vz = Expression::Variable(Variable::Z);
    let okz = Result::<(Expression, int), SpecError>::Ok((vz, 1int));
    assert(crate::parse::parse_primary_spec(t, 0) == okz);
    assert(crate::parse::parse_tetration_spec(t, 0) == okz);
    assert(crate::parse::parse_hexation_spec(t, 0) == okz);
    assert(crate::parse::parse_pentation_spec(t, 0) == okz);
    assert(crate::parse::parse_power_spec(t, 0) == okz);
    let uend = Result::<(Expression, int), SpecError>::Err(SpecError::UnexpectedEnd);
    assert(crate::parse::parse_add_sub_spec(t, 3) == uend);
    assert(crate::parse::parse_expression_spec(t, 3) == uend);
    let close = Result::<(Expression, int), SpecError>::Err(SpecError::ExpectedClosingParen);
    assert(crate::parse::parse_primary_spec(t, 2) == close);
    assert(crate::parse::parse_tetration_spec(t, 2) == close);
    assert(crate::parse::parse_hexation_spec(t, 2) == close);
    assert(crate::parse::parse_pentation_spec(t, 2) == close);
    assert(crate::parse::parse_power_spec(t, 2) == close);
    assert(crate::parse::parse_mul_div_spec(t, 2) == close);
    assert(crate::parse::parse_mul_div_spec(t, 0) == okz);
    assert(crate::parse::parse_add_sub_rest_spec(t, 1, vz) == close);
    assert(crate::parse::parse_add_sub_spec(t, 0) == close);
}

/// The token stream of the text `z + (`.
proof fn lemma_tokens_of_unmatched()
    ensures
        crate::token::tokenize_spec(ascii_of("z + ("@)) == Result::<
            Seq<SpecToken>,
            SpecError,
        >::Ok(
            seq![
                SpecToken::Identifier(ascii_of("z"@)),
                SpecToken::Plus,
                SpecToken::LeftParen,
            ],
        ),
{
    reveal_strlit("z + (");
    reveal_strlit("z");
    let s = ascii_of("z + ("@);
    assert(s.len() == 5);
    assert(s[0] == 122 && s[1] == 32 && s[2] == 43 && s[3] == 32 && s[4] == 40);
    assert(crate::token::ident_end(s, 1) == 1);
    assert(crate::token::ident_end(s, 0) == 1);
    assert(crate::token::tokenize_from(s, 5, false) == Result::<
        Seq<SpecToken>,
        SpecError,
    >::Ok(Seq::<SpecToken>::empty()));
    assert(crate::token::tokenize_from(s, 4, false) == crate::token::cons_tok(
        SpecToken::LeftParen,
        crate::token::tokenize_from(s, 5, false),
    ));
    assert(crate::token::tokenize_from(s, 3, false) == crate::token::tokenize_from(s, 4, false));
    assert(crate::token::tokenize_from(s, 2, true) == crate::token::cons_tok(
        SpecToken::Plus,
        crate::token::tokenize_from(s, 3, false),
    ));
    assert(crate::token::tokenize_from(s, 1, true) == crate::token::tokenize_from(s, 2, true));
    assert(crate::token::tokenize_from(s, 0, false) == crate::token::cons_tok(
        SpecToken::Identifier(s.subrange(0, 1)),
        crate::token::tokenize_from(s, 1, true),
    ));
    assert(s.subrange(0, 1) =~= ascii_of("z"@));
    assert(seq![SpecToken::LeftParen] + Seq::<SpecToken>::empty() =~= seq![SpecToken::LeftParen]);
    assert(seq![SpecToken::Plus] + seq![SpecToken::LeftParen] =~= seq![
        SpecToken::Plus,
        SpecToken::LeftParen,
    ]);
    assert(seq![SpecToken::Identifier(ascii_of("z"@))] + seq![
        SpecToken::Plus,
        SpecToken::LeftParen,
    ] =~= seq![
        SpecToken::Identifier(ascii_of("z"@)),
        SpecToken::Plus,
        SpecToken::LeftParen,
    ]);
}

/// The text `z + (` misses the fast-path table: after normalization it is
/// five bytes long and every table entry is longer.
proof fn lemma_unmatched_misses_table(z: ComplexValue, c: ComplexValue, i2: ComplexValue)
    ensures
        crate::formula::fast_path_spec(norm_spec(ascii_of("z + ("@)), z, c, i2) is None,
        norm_spec(ascii_of("z + ("@)) == ascii_of("z + ("@),
{
    reveal_strlit("z + (");
    let s = ascii_of("z + ("@);
    assert(s.len() == 5);
    assert(s[0] == 122 && s[4] == 40);
    assert(crate::formula::skip_space_fwd(s, 0) == 0);
    assert(crate::formula::skip_space_back(s, 5) == 5);
    assert forall|i: int| 0 <= i < 5 implies crate::formula::to_lower(#[trigger] s[i]) == s[i] by {
        assert(s[i] == ("z + ("@)[i] as u8);
    }
    assert(norm_spec(s) =~= s);
    reveal_strlit("z^2 + c");
    reveal_strlit("z^3 + c");
    reveal_strlit("z^4 + c");
    reveal_strlit("sin(z) + c");
    reveal_strlit("cos(z) + c");
    reveal_strlit("tan(z) + c");
    reveal_strlit("exp(z) + c");
    reveal_strlit("log(z) + c");
    reveal_strlit("z*z + sin(c)");
    reveal_strlit("z*z + cos(c)");
    reveal_strlit("z*z + tan(c)");
    reveal_strlit("z*z + exp(c)");
    reveal_strlit("z*z + log(c)");
    reveal_strlit("sin(z) + sin(c)");
    reveal_strlit("cos(z) + cos(c)");
    reveal_strlit("tan(z) + tan(c)");
    reveal_strlit("exp(z) + exp(c)");
    reveal_strlit("log(z) + log(c)");
    reveal_strlit("z^2 - c");
    reveal_strlit("z^2 + c^2");
    reveal_strlit("z^2 + c^3");
    reveal_strlit("z^2 + c^4");
    reveal_strlit("z^2 + c*z");
    reveal_strlit("z^3 - z + c");
    reveal_strlit("z^2 + c*sin(z)");
    reveal_strlit("z^2 + c*cos(z)");
    reveal_strlit("z^2 + c*tan(z)");
    reveal_strlit("z^2 + c*exp(z)");
    reveal_strlit("z^2 + c*log(z)");
    reveal_strlit("z^z + c");
    reveal_strlit("z^^z + c");
}

/// The whole engine reports the unmatched parenthesis of `z + (`: for
/// every binding and every number system, evaluating that formula text
/// yields the missing-closing-parenthesis error — and never a panic.
pub proof fn lemma_unmatched_paren_text(z: ComplexValue, c: ComplexValue, i2: ComplexValue)
    ensures
        evaluate_formula_spec(ascii_of("z + ("@), z, c, i2) == Result::<
            ComplexValue,
            SpecError,
        >::Err(SpecError::ExpectedClosingParen),
{
    lemma_unmatched_misses_table(z, c, i2);
    lemma_tokens_of_unmatched();
    lemma_unmatched_paren();
}

/// The token stream of the text `foo(z)` begins with the identifier `foo`.
proof fn lemma_tokens_of_foo()
    ensures
        (match crate::token::tokenize_spec(ascii_of("foo(z)"@)) {
            Result::Ok(ts) => ts.len() >= 1 && ts[0] == SpecToken::Identifier(ascii_of("foo"@)),
            Result::Err(_) => false,
        }),
{
    reveal_strlit("foo(z)");
    reveal_strlit("foo");
    let s = ascii_of("foo(z)"@);
    assert(s.len() == 6);
    assert(s[0] == 102 && s[1] == 111 && s[2] == 111 && s[3] == 40 && s[4] == 122 && s[5] == 41);
    assert(crate::token::ident_end(s, 3) == 3);
    assert(crate::token::ident_end(s, 2) == 3);
    assert(crate::token::ident_end(s, 1) == 3);
    assert(crate::token::ident_end(s, 0) == 3);
    assert(crate::token::ident_end(s, 5) == 5);
    assert(crate::token::ident_end(s, 4) == 5);
    assert(crate::token::tokenize_from(s, 6, true) == Result::<Seq<SpecToken>, SpecError>::Ok(
        Seq::<SpecToken>::empty(),
    ));
    assert(crate::token::tokenize_from(s, 5, true) == crate::token::cons_tok(
        SpecToken::RightParen,
        crate::token::tokenize_from(s, 6, true),
    ));
    assert(crate::token::tokenize_from(s, 4, false) == crate::token::cons_tok(
        SpecToken::Identifier(s.subrange(4, 5)),
        crate::token::tokenize_from(s, 5, true),
    ));
    assert(crate::token::tokenize_from(s, 3, true) == crate::token::cons_tok(
        SpecToken::LeftParen,
        crate::token::tokenize_from(s, 4, false),
    ));
    assert(crate::token::tokenize_from(s, 0, false) == crate::token::cons_tok(
        SpecToken::Identifier(s.subrange(0, 3)),
        crate::token::tokenize_from(s, 3, true),
    ));
    assert(s.subrange(0, 3) =~= ascii_of("foo"@));
}

/// `foo` names neither a variable nor a function.
proof fn lemma_foo_unknown()
    ensures
        ascii_of("foo"@) != ascii_of("z"@),
        ascii_of("foo"@) != ascii_of("c"@),
        ascii_of("foo"@) != ascii_of("param"@),
        spec_fn_of_name(ascii_of("foo"@)) is None,
{
    proof_distinct_names();
    reveal_strlit("foo");
    reveal_strlit("z");
    reveal_strlit("c");
    reveal_strlit("param");
    reveal_strlit("sin");
    reveal_strlit("cos");
    reveal_strlit("tan");
    reveal_strlit("exp");
    reveal_strlit("log");
    reveal_strlit("gamma");
    reveal_strlit("zeta");
    reveal_strlit("slog");
    reveal_strlit("sexp");
    reveal_strlit("penta_root");
    reveal_strlit("hexa_root");
    reveal_strlit("sqrt");
    reveal_strlit("cbrt");
    reveal_strlit("asin");
    reveal_strlit("acos");
    reveal_strlit("atan");
    reveal_strlit("sinh");
    reveal_strlit("cosh");
    reveal_strlit("tanh");
    let f = ascii_of("foo"@);
    assert(f.len() == 3);
    assert(f[0] == 102);
    assert(ascii_of("sin"@)[0] == 115);
    assert(ascii_of("cos"@)[0] == 99);
    assert(ascii_of("tan"@)[0] == 116);
    assert(ascii_of("exp"@)[0] == 101);
    assert(ascii_of("log"@)[0] == 108);
    assert(ascii_of("gamma"@).len() == 5);
    assert(ascii_of("zeta"@).len() == 4);
    assert(ascii_of("slog"@).len() == 4);
    assert(ascii_of("sexp"@).len() == 4);
    assert(ascii_of("penta_root"@).len() == 10);
    assert(ascii_of("hexa_root"@).len() == 9);
    assert(ascii_of("sqrt"@).len() == 4);
    assert(ascii_of("cbrt"@).len() == 4);
    assert(ascii_of("asin"@).len() == 4);
    assert(ascii_of("acos"@).len() == 4);
    assert(ascii_of("atan"@).len() == 4);
    assert(ascii_of("sinh"@).len() == 4);
    assert(ascii_of("cosh"@).len() == 4);
    assert(ascii_of("tanh"@).len() == 4);
}

/// The whole engine names the unknown identifier of `foo(z)`: for every
/// binding and every number system, evaluating that formula text yields an
/// error carrying exactly the name `foo`, never a silent default.
pub proof fn lemma_unknown_identifier_text(z: ComplexValue, c: ComplexValue, i2: ComplexValue)
    ensures
        evaluate_formula_spec(ascii_of("foo(z)"@), z, c, i2) == Result::<
            ComplexValue,
            SpecError,
        >::Err(SpecError::UnknownIdentifier(ascii_of("foo"@))),
{
    reveal_strlit("foo(z)");
    let s = ascii_of("foo(z)"@);
    assert(s.len() == 6);
    assert(s[0] == 102);
    assert(crate::formula::skip_space_fwd(s, 0) == 0);
    assert(crate::formula::skip_space_back(s, 6) == 6);
    assert forall|i: int| 0 <= i < 6 implies crate::formula::to_lower(#[trigger] s[i]) == s[i] by {
        assert(s[i] == ("foo(z)"@)[i] as u8);
    }
    assert(norm_spec(s) =~= s);
    reveal_strlit("z^2 + c");
    reveal_strlit("z^3 + c");
    reveal_strlit("z^4 + c");
    reveal_strlit("sin(z) + c");
    reveal_strlit("cos(z) + c");
    reveal_strlit("tan(z) + c");
    reveal_strlit("exp(z) + c");
    reveal_strlit("log(z) + c");
    reveal_strlit("z*z + sin(c)");
    reveal_strlit("z*z + cos(c)");
    reveal_strlit("z*z + tan(c)");
    reveal_strlit("z*z + exp(c)");
    reveal_strlit("z*z + log(c)");
    reveal_strlit("sin(z) + sin(c)");
    reveal_strlit("cos(z) + cos(c)");
    reveal_strlit("tan(z) + tan(c)");
    reveal_strlit("exp(z) + exp(c)");
    reveal_strlit("log(z) + log(c)");
    reveal_strlit("z^2 - c");
    reveal_strlit("z^2 + c^2");
    reveal_strlit("z^2 + c^3");
    reveal_strlit("z^2 + c^4");
    reveal_strlit("z^2 + c*z");
    reveal_strlit("z^3 - z + c");
    reveal_strlit("z^2 + c*sin(z)");
    reveal_strlit("z^2 + c*cos(z)");
    reveal_strlit("z^2 + c*tan(z)");
    reveal_strlit("z^2 + c*exp(z)");
    reveal_strlit("z^2 + c*log(z)");
    reveal_strlit("z^z + c");
    reveal_strlit("z^^z + c");
    assert(crate::formula::fast_path_spec(norm_spec(s), z, c, i2) is None);
    lemma_tokens_of_foo();
    lemma_foo_unknown();
    match crate::token::tokenize_spec(s) {
        Result::Ok(ts) => {
            lemma_unknown_identifier(ts, ascii_of("foo"@));
        },
        Result::Err(_) => {
            assert(false);
        },
    }
}

/// The token stream of the text `z/c`.
proof fn lemma_tokens_of_quotient()
    ensures
        crate::token::tokenize_spec(ascii_of("z/c"@)) == Result::<
            Seq<SpecToken>,
            SpecError,
        >::Ok(
            seq![
                SpecToken::Identifier(ascii_of("z"@)),
                SpecToken::Divide,
                SpecToken::Identifier(ascii_of("c"@)),
            ],
        ),
{
    reveal_strlit("z/c");
    reveal_strlit("z");
    reveal_strlit("c");
    let s = ascii_of("z/c"@);
    assert(s.len() == 3);
    assert(s[0] == 122 && s[1] == 47 && s[2] == 99);
    assert(crate::token::ident_end(s, 1) == 1);
    assert(crate::token::ident_end(s, 0) == 1);
    assert(crate::token::ident_end(s, 3) == 3);
    assert(crate::token::ident_end(s, 2) == 3);
    assert(crate::token::tokenize_from(s, 3, true) == Result::<Seq<SpecToken>, SpecError>::Ok(
        Seq::<SpecToken>::empty(),
    ));
    assert(crate::token::tokenize_from(s, 2, false) == crate::token::cons_tok(
        SpecToken::Identifier(s.subrange(2, 3)),
        crate::token::tokenize_from(s, 3, true),
    ));
    assert(crate::token::tokenize_from(s, 1, true) == crate::token::cons_tok(
        SpecToken::Divide,
        crate::token::tokenize_from(s, 2, false),
    ));
    assert(crate::token::tokenize_from(s, 0, false) == crate::token::cons_tok(
        SpecToken::Identifier(s.subrange(0, 1)),
        crate::token::tokenize_from(s, 1, true),
    ));
    assert(s.subrange(0, 1) =~= ascii_of("z"@));
    assert(s.subrange(2, 3) =~= ascii_of("c"@));
    assert(seq![SpecToken::Identifier(ascii_of("c"@))] + Seq::<SpecToken>::empty() =~= seq![
        SpecToken::Identifier(ascii_of("c"@)),
    ]);
    assert(seq![SpecToken::Divide] + seq![SpecToken::Identifier(ascii_of("c"@))] =~= seq![
        SpecToken::Divide,
        SpecToken::Identifier(ascii_of("c"@)),
    ]);
    assert(seq![SpecToken::Identifier(ascii_of("z"@))] + seq![
        SpecToken::Divide,
        SpecToken::Identifier(ascii_of("c"@)),
    ] =~= seq![
        SpecToken::Identifier(ascii_of("z"@)),
        SpecToken::Divide,
        SpecToken::Identifier(ascii_of("c"@)),
    ]);
}

/// The token stream of `z/c` parses to the quotient of the two variables.
#[verifier::rlimit(100)]
proof fn lemma_parse_of_quotient()
    ensures
        ({
            let t = seq![
                SpecToken::Identifier(ascii_of("z"@)),
                SpecToken::Divide,
                SpecToken::Identifier(ascii_of("c"@)),
            ];
            parse_expression_spec(t, 0) == Result::<(Expression, int), SpecError>::Ok(
                (
                    Expression::Binary(
                        BinaryOp::Div,
                        Box::new(Expression::Variable(Variable::Z)),
                        Box::new(Expression::Variable(Variable::C)),
                    ),
                    3int,
                ),
            )
        }),
{
    proof_distinct_names();
    let t = seq![
        SpecToken::Identifier(ascii_of("z"@)),
        SpecToken::Divide,
        SpecToken::Identifier(ascii_of("c"@)),
    ];
    let vz = Expression::Variable(Variable::Z);
    let vc = Expression::Variable(Variable::C);
    let okz = Result::<(Expression, int), SpecError>::Ok((vz, 1int));
    assert(crate::parse::parse_primary_spec(t, 0) == okz);
    assert(crate::parse::parse_tetration_spec(t, 0) == okz);
    assert(crate::parse::parse_hexation_spec(t, 0) == okz);
    assert(crate::parse::parse_pentation_spec(t, 0) == okz);
    assert(crate::parse::parse_power_spec(t, 0) == okz);
    let okc = Result::<(Expression, int), SpecError>::Ok((vc, 3int));
    assert(crate::parse::parse_primary_spec(t, 2) == okc);
    assert(crate::parse::parse_tetration_spec(t, 2) == okc);
    assert(crate::parse::parse_hexation_spec(t, 2) == okc);
    assert(crate::parse::parse_pentation_spec(t, 2) == okc);
    assert(crate::parse::parse_power_spec(t, 2) == okc);
    let node = Expression::Binary(BinaryOp::Div, Box::new(vz), Box::new(vc));
    assert(crate::parse::parse_mul_div_rest_spec(t, 3, node) == Result::<
        (Expression, int),
        SpecError,
    >::Ok((node, 3int)));
    assert(crate::parse::parse_mul_div_rest_spec(t, 1, vz) == Result::<
        (Expression, int),
        SpecError,
    >::Ok((node, 3int)));
    assert(crate::parse::parse_mul_div_spec(t, 0) == Result::<(Expression, int), SpecError>::Ok(
        (node, 3int),
    ));
    assert(crate::parse::parse_add_sub_rest_spec(t, 3, node) == Result::<
        (Expression, int),
        SpecError,
    >::Ok((node, 3int)));
    assert(crate::parse::parse_add_sub_spec(t, 0) == Result::<(Expression, int), SpecError>::Ok(
        (node, 3int),
    ));
}

/// The whole engine reports the division by zero of `z/c` with `c` bound
/// to zero: for every iterate and every number system, the explicit error
/// comes back, never a silent substitute value.
pub proof fn lemma_division_by_zero_text(z: ComplexValue, i2: ComplexValue)
    requires
        z.wf(),
        i2.wf(),
    ensures
        evaluate_formula_spec(ascii_of("z/c"@), z, zero_value(), i2) == Result::<
            ComplexValue,
            SpecError,
        >::Err(SpecError::DivisionByZero),
{
    reveal_strlit("z/c");
    let s = ascii_of("z/c"@);
    assert(s.len() == 3);
    assert(s[0] == 122);
    assert(crate::formula::skip_space_fwd(s, 0) == 0);
    assert(crate::formula::skip_space_back(s, 3) == 3);
    assert forall|i: int| 0 <= i < 3 implies crate::formula::to_lower(#[trigger] s[i]) == s[i] by {
        assert(s[i] == ("z/c"@)[i] as u8);
    }
    assert(norm_spec(s) =~= s);
    reveal_strlit("z^2 + c");
    reveal_strlit("z^3 + c");
    reveal_strlit("z^4 + c");
    reveal_strlit("sin(z) + c");
    reveal_strlit("cos(z) + c");
    reveal_strlit("tan(z) + c");
    reveal_strlit("exp(z) + c");
    reveal_strlit("log(z) + c");
    reveal_strlit("z*z + sin(c)");
    reveal_strlit("z*z + cos(c)");
    reveal_strlit("z*z + tan(c)");
    reveal_strlit("z*z + exp(c)");
    reveal_strlit("z*z + log(c)");
    reveal_strlit("sin(z) + sin(c)");
    reveal_strlit("cos(z) + cos(c)");
    reveal_strlit("tan(z) + tan(c)");
    reveal_strlit("exp(z) + exp(c)");
    reveal_strlit("log(z) + log(c)");
    reveal_strlit("z^2 - c");
    reveal_strlit("z^2 + c^2");
    reveal_strlit("z^2 + c^3");
    reveal_strlit("z^2 + c^4");
    reveal_strlit("z^2 + c*z");
    reveal_strlit("z^3 - z + c");
    reveal_strlit("z^2 + c*sin(z)");
    reveal_strlit("z^2 + c*cos(z)");
    reveal_strlit("z^2 + c*tan(z)");
    reveal_strlit("z^2 + c*exp(z)");
    reveal_strlit("z^2 + c*log(z)");
    reveal_strlit("z^z + c");
    reveal_strlit("z^^z + c");
    assert(crate::formula::fast_path_spec(norm_spec(s), z, zero_value(), i2) is None);
    lemma_tokens_of_quotient();
    lemma_parse_of_quotient();
    lemma_division_by_zero(z, i2);
}

/// On a fast-path miss, `evaluate_formula` is exactly the general route;
/// for every formula in the table the closed form is built from the same
/// primitives the general evaluator applies.  For the table entry
/// `z*z + sin(c)` the two agree exactly, token for token: parsing the
/// formula's token stream and evaluating equals the closed form, for all
/// bindings and every `i_squared`.
#[verifier::rlimit(100)]
pub proof fn lemma_fast_path_matches_parser(z: ComplexValue, c: ComplexValue, i2: ComplexValue)
    requires
        z.wf(),
        c.wf(),
        i2.wf(),
    ensures
        ({
            let t = seq![
                SpecToken::Identifier(ascii_of("z"@)),
                SpecToken::Multiply,
                SpecToken::Identifier(ascii_of("z"@)),
                SpecToken::Plus,
                SpecToken::Identifier(ascii_of("sin"@)),
                SpecToken::LeftParen,
                SpecToken::Identifier(ascii_of("c"@)),
                SpecToken::RightParen,
            ];
            match parse_expression_spec(t, 0) {
                Result::Ok((e, p)) => p == t.len() && eval_spec(e, z, c, i2) == Result::<
                    ComplexValue,
                    SpecError,
                >::Ok(c_add(c_mul(z, z, i2), interp_raw(crate::trans::sin_of(c)))),
                Result::Err(_) => false,
            }
        }),
{
    let t = seq![
        SpecToken::Identifier(ascii_of("z"@)),
        SpecToken::Multiply,
        SpecToken::Identifier(ascii_of("z"@)),
        SpecToken::Plus,
        SpecToken::Identifier(ascii_of("sin"@)),
        SpecToken::LeftParen,
        SpecToken::Identifier(ascii_of("c"@)),
        SpecToken::RightParen,
    ];
    proof_distinct_names();
    let vz = Expression::Variable(Variable::Z);
    let vc = Expression::Variable(Variable::C);
    let okz0 = Result::<(Expression, int), SpecError>::Ok((vz, 1int));
    assert(crate::parse::parse_primary_spec(t, 0) == okz0);
    assert(crate::parse::parse_tetration_spec(t, 0) == okz0);
    assert(crate::parse::parse_hexation_spec(t, 0) == okz0);
    assert(crate::parse::parse_pentation_spec(t, 0) == okz0);
    assert(crate::parse::parse_power_spec(t, 0) == okz0);
    let okz2 = Result::<(Expression, int), SpecError>::Ok((vz, 3int));
    assert(crate::parse::parse_primary_spec(t, 2) == okz2);
    assert(crate::parse::parse_tetration_spec(t, 2) == okz2);
    assert(crate::parse::parse_hexation_spec(t, 2) == okz2);
    assert(crate::parse::parse_pentation_spec(t, 2) == okz2);
    assert(crate::parse::parse_power_spec(t, 2) == okz2);
    let zz = Expression::Binary(BinaryOp::Mul, Box::new(vz), Box::new(vz));
    assert(crate::parse::parse_mul_div_rest_spec(t, 3, zz) == Result::<
        (Expression, int),
        SpecError,
    >::Ok((zz, 3int)));
    assert(crate::parse::parse_mul_div_spec(t, 0) == Result::<(Expression, int), SpecError>::Ok(
        (zz, 3int),
    ));
    let okc = Result::<(Expression, int), SpecError>::Ok((vc, 7int));
    assert(crate::parse::parse_primary_spec(t, 6) == okc);
    assert(crate::parse::parse_tetration_spec(t, 6) == okc);
    assert(crate::parse::parse_hexation_spec(t, 6) == okc);
    assert(crate::parse::parse_pentation_spec(t, 6) == okc);
    assert(crate::parse::parse_power_spec(t, 6) == okc);
    assert(crate::parse::parse_mul_div_spec(t, 6) == okc);
    assert(crate::parse::parse_add_sub_rest_spec(t, 7, vc) == okc);
    assert(crate::parse::parse_add_sub_spec(t, 6) == okc);
    assert(crate::parse::parse_expression_spec(t, 6) == okc);
    let sc = Expression::Apply(crate::expr::Function::Sin, Box::new(vc));
    assert(crate::parse::parse_call_spec(t, 4, crate::expr::Function::Sin, ascii_of("sin"@))
        == Result::<(Expression, int), SpecError>::Ok((sc, 8int)));
    assert(crate::parse::parse_primary_spec(t, 4) == Result::<(Expression, int), SpecError>::Ok(
        (sc, 8int),
    ));
    assert(crate::parse::parse_tetration_spec(t, 4) == Result::<
        (Expression, int),
        SpecError,
    >::Ok((sc, 8int)));
    assert(crate::parse::parse_hexation_spec(t, 4) == Result::<(Expression, int), SpecError>::Ok(
        (sc, 8int),
    ));
    assert(crate::parse::parse_pentation_spec(t, 4) == Result::<
        (Expression, int),
        SpecError,
    >::Ok((sc, 8int)));
    assert(crate::parse::parse_power_spec(t, 4) == Result::<(Expression, int), SpecError>::Ok(
        (sc, 8int),
    ));
    assert(crate::parse::parse_mul_div_spec(t, 4) == Result::<(Expression, int), SpecError>::Ok(
        (sc, 8int),
    ));
    let top = Expression::Binary(BinaryOp::Add, Box::new(zz), Box::new(sc));
    assert(crate::parse::parse_add_sub_rest_spec(t, 8, top) == Result::<
        (Expression, int),
        SpecError,
    >::Ok((top, 8int)));
    assert(crate::parse::parse_add_sub_rest_spec(t, 3, zz) == Result::<
        (Expression, int),
        SpecError,
    >::Ok((top, 8int)));
    assert(crate::parse::parse_add_sub_spec(t, 0) == Result::<(Expression, int), SpecError>::Ok(
        (top, 8int),
    ));
    assert(eval_spec(vz, z, c, i2) == Result::<ComplexValue, SpecError>::Ok(z));
    assert(eval_spec(vc, z, c, i2) == Result::<ComplexValue, SpecError>::Ok(c));
    assert(eval_spec(zz, z, c, i2) == Result::<ComplexValue, SpecError>::Ok(c_mul(z, z, i2)));
    assert(eval_spec(sc, z, c, i2) == Result::<ComplexValue, SpecError>::Ok(
        interp_raw(crate::trans::sin_of(c)),
    ));
    assert(eval_spec(top, z, c, i2) == Result::<ComplexValue, SpecError>::Ok(
        c_add(c_mul(z, z, i2), interp_raw(crate::trans::sin_of(c))),
    ));
}

/// The names `z`, `c`, `param` and `sin` are pairwise distinct byte
/// strings, and `z` and `c` name no function.
proof fn proof_distinct_names()
    ensures
        ascii_of("z"@) != ascii_of("c"@),
        ascii_of("z"@) != ascii_of("param"@),
        ascii_of("c"@) != ascii_of("param"@),
        ascii_of("sin"@) != ascii_of("z"@),
        ascii_of("sin"@) != ascii_of("c"@),
        ascii_of("sin"@) != ascii_of("param"@),
        spec_fn_of_name(ascii_of("z"@)) is None,
        spec_fn_of_name(ascii_of("c"@)) is None,
        spec_fn_of_name(ascii_of("sin"@)) == Option::Some(crate::expr::Function::Sin),
{
    reveal_strlit("z");
    reveal_strlit("c");
    reveal_strlit("param");
    reveal_strlit("sin");
    reveal_strlit("cos");
    reveal_strlit("tan");
    reveal_strlit("exp");
    reveal_strlit("log");
    reveal_strlit("gamma");
    reveal_strlit("zeta");
    reveal_strlit("slog");
    reveal_strlit("sexp");
    reveal_strlit("penta_root");
    reveal_strlit("hexa_root");
    reveal_strlit("sqrt");
    reveal_strlit("cbrt");
    reveal_strlit("asin");
    reveal_strlit("acos");
    reveal_strlit("atan");
    reveal_strlit("sinh");
    reveal_strlit("cosh");
    reveal_strlit("tanh");
    assert(ascii_of("z"@)[0] == 122);
    assert(ascii_of("c"@)[0] == 99);
    assert(ascii_of("param"@).len() == 5);
    assert(ascii_of("sin"@).len() == 3);
    assert(ascii_of("z"@).len() == 1);
    assert(ascii_of("c"@).len() == 1);
}


/// The token stream of the text `z*z + sin(c)`.
proof fn lemma_tokens_of_zz_sin()
    ensures
        crate::token::tokenize_spec(ascii_of("z*z + sin(c)"@)) == Result::<
            Seq<SpecToken>,
            SpecError,
        >::Ok(
            seq![
                SpecToken::Identifier(ascii_of("z"@)),
                SpecToken::Multiply,
                SpecToken::Identifier(ascii_of("z"@)),
                SpecToken::Plus,
                SpecToken::Identifier(ascii_of("sin"@)),
                SpecToken::LeftParen,
                SpecToken::Identifier(ascii_of("c"@)),
                SpecToken::RightParen,
            ],
        ),
{
    reveal_strlit("z*z + sin(c)");
    reveal_strlit("z");
    reveal_strlit("sin");
    reveal_strlit("c");
    let s = ascii_of("z*z + sin(c)"@);
    assert(s.len() == 12);
    assert(s[0] == 122 && s[1] == 42 && s[2] == 122 && s[3] == 32 && s[4] == 43 && s[5] == 32
        && s[6] == 115 && s[7] == 105 && s[8] == 110 && s[9] == 40 && s[10] == 99 && s[11]
        == 41);
    assert(crate::token::ident_end(s, 1) == 1);
    assert(crate::token::ident_end(s, 0) == 1);
    assert(crate::token::ident_end(s, 3) == 3);
    assert(crate::token::ident_end(s, 2) == 3);
    assert(crate::token::ident_end(s, 9) == 9);
    assert(crate::token::ident_end(s, 8) == 9);
    assert(crate::token::ident_end(s, 7) == 9);
    assert(crate::token::ident_end(s, 6) == 9);
    assert(crate::token::ident_end(s, 11) == 11);
    assert(crate::token::ident_end(s, 10) == 11);
    let e: Result<Seq<SpecToken>, SpecError> = Result::Ok(Seq::<SpecToken>::empty());
    assert(crate::token::tokenize_from(s, 12, true) == e);
    assert(crate::token::tokenize_from(s, 11, true) == crate::token::cons_tok(
        SpecToken::RightParen,
        crate::token::tokenize_from(s, 12, true),
    ));
    assert(crate::token::tokenize_from(s, 10, false) == crate::token::cons_tok(
        SpecToken::Identifier(s.subrange(10, 11)),
        crate::token::tokenize_from(s, 11, true),
    ));
    assert(crate::token::tokenize_from(s, 9, true) == crate::token::cons_tok(
        SpecToken::LeftParen,
        crate::token::tokenize_from(s, 10, false),
    ));
    assert(crate::token::tokenize_from(s, 6, false) == crate::token::cons_tok(
        SpecToken::Identifier(s.subrange(6, 9)),
        crate::token::tokenize_from(s, 9, true),
    ));
    assert(crate::token::tokenize_from(s, 5, false) == crate::token::tokenize_from(s, 6, false));
    assert(crate::token::tokenize_from(s, 4, true) == crate::token::cons_tok(
        SpecToken::Plus,
        crate::token::tokenize_from(s, 5, false),
    ));
    assert(crate::token::tokenize_from(s, 3, true) == crate::token::tokenize_from(s, 4, true));
    assert(crate::token::tokenize_from(s, 2, false) == crate::token::cons_tok(
        SpecToken::Identifier(s.subrange(2, 3)),
        crate::token::tokenize_from(s, 3, true),
    ));
    assert(crate::token::tokenize_from(s, 1, true) == crate::token::cons_tok(
        SpecToken::Multiply,
        crate::token::tokenize_from(s, 2, false),
    ));
    assert(crate::token::tokenize_from(s, 0, false) == crate::token::cons_tok(
        SpecToken::Identifier(s.subrange(0, 1)),
        crate::token::tokenize_from(s, 1, true),
    ));
    assert(s.subrange(0, 1) =~= ascii_of("z"@));
    assert(s.subrange(2, 3) =~= ascii_of("z"@));
    assert(s.subrange(6, 9) =~= ascii_of("sin"@));
    assert(s.subrange(10, 11) =~= ascii_of("c"@));
    assert(crate::token::tokenize_spec(s) matches Result::Ok(ts) && ts =~= seq![
        SpecToken::Identifier(ascii_of("z"@)),
        SpecToken::Multiply,
        SpecToken::Identifier(ascii_of("z"@)),
        SpecToken::Plus,
        SpecToken::Identifier(ascii_of("sin"@)),
        SpecToken::LeftParen,
        SpecToken::Identifier(ascii_of("c"@)),
        SpecToken::RightParen,
    ]);
}

/// On the formula text `z*z + sin(c)` the fast path and the general route
/// return the same value, for every binding and every `i_squared`: the
/// table's closed form is exactly what tokenizing, parsing and evaluating
/// the text yields.
pub proof fn lemma_fast_path_matches_parser_text(
    z: ComplexValue,
    c: ComplexValue,
    i2: ComplexValue,
)
    requires
        z.wf(),
        c.wf(),
        i2.wf(),
    ensures
        evaluate_formula_spec(ascii_of("z*z + sin(c)"@), z, c, i2) == crate::formula::parse_route_spec(
            ascii_of("z*z + sin(c)"@),
            z,
            c,
            i2,
        ),
        evaluate_formula_spec(ascii_of("z*z + sin(c)"@), z, c, i2) == Result::<
            ComplexValue,
            SpecError,
        >::Ok(c_add(c_mul(z, z, i2), interp_raw(crate::trans::sin_of(c)))),
{
    reveal_strlit("z*z + sin(c)");
    let s = ascii_of("z*z + sin(c)"@);
    assert(s.len() == 12);
    assert(crate::formula::skip_space_fwd(s, 0) == 0);
    assert(crate::formula::skip_space_back(s, 12) == 12);
    assert forall|i: int| 0 <= i < 12 implies crate::formula::to_lower(#[trigger] s[i]) == s[i] by {
        assert(s[i] == ("z*z + sin(c)"@)[i] as u8);
    }
    assert(norm_spec(s) =~= s);
    reveal_strlit("z^2 + c");
    reveal_strlit("z^3 + c");
    reveal_strlit("z^4 + c");
    reveal_strlit("sin(z) + c");
    reveal_strlit("cos(z) + c");
    reveal_strlit("tan(z) + c");
    reveal_strlit("exp(z) + c");
    reveal_strlit("log(z) + c");
    assert(norm_spec(s) == ascii_of("z*z + sin(c)"@));
    lemma_tokens_of_zz_sin();
    lemma_fast_path_matches_parser(z, c, i2);
}


} // verus!
