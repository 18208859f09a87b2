//! End-to-end formula engine tests: fast path, tokenizer, parser,
//! evaluator and the error taxonomy.

use fractal_toolkit::complex::ComplexValue;
use fractal_toolkit::error::EvaluationError;
use fractal_toolkit::evaluate_formula;
use fractal_toolkit::fixed::{Fx, FX_SCALE};
use fractal_toolkit::formula::{evaluate_special_function, ExpressionParser, MathEvaluator};

fn cv(a: i64, b: i64) -> ComplexValue {
    ComplexValue::from_ints(a, b)
}

fn std_i2() -> ComplexValue {
    cv(-1, 0)
}

fn ok(r: Result<ComplexValue, EvaluationError>) -> ComplexValue {
    match r {
        Ok(v) => v,
        Err(e) => panic!("unexpected error: {:?}", e),
    }
}

#[test]
fn square_plus_c_matches_direct_product() {
    // z^2 + c with the standard system equals z*z + c for the tested pairs
    let cases = [
        (cv(0, 0), cv(0, 0)),
        (cv(1, 1), cv(1, 0)),
        (cv(-2, 1), cv(0, -1)),
        (cv(2, 2), cv(-3, 5)),
    ];
    for (z, c) in cases {
        let got = ok(evaluate_formula("z^2 + c", z, c, std_i2()));
        let want = z.mul_c(z, std_i2()).add_c(c);
        assert_eq!(got, want);
    }
}

#[test]
fn round_trip_literal_product() {
    // tokenize + parse + evaluate of (1+2i)*(3-1i) is exactly 5 + 5i
    let r = ok(ExpressionParser::evaluate("(1+2i)*(3-1i)", cv(0, 0), cv(0, 0)));
    assert_eq!(r, cv(5, 5));
}

#[test]
fn division_by_zero_is_reported() {
    let r = evaluate_formula("z/c", cv(1, 1), cv(0, 0), std_i2());
    assert!(matches!(r, Err(EvaluationError::DivisionByZero)));
}

#[test]
fn unmatched_parenthesis_is_reported() {
    let r = evaluate_formula("z + (", cv(1, 0), cv(1, 0), std_i2());
    assert!(matches!(r, Err(EvaluationError::ExpectedClosingParen)));
}

#[test]
fn unknown_identifier_is_named() {
    let r = evaluate_formula("foo(z)", cv(1, 0), cv(1, 0), std_i2());
    match r {
        Err(EvaluationError::UnknownIdentifier(name)) => {
            assert_eq!(name, b"foo".to_vec());
        }
        other => panic!("expected an unknown-identifier error, got {:?}", other),
    }
}

#[test]
fn sin_at_origin_plus_one() {
    // sin(0) = 0, so sin(z) + c at z = 0, c = 1 is exactly 1 + 0i
    let r = ok(evaluate_formula("sin(z) + c", cv(0, 0), cv(1, 0), std_i2()));
    assert_eq!(r, cv(1, 0));
}

#[test]
fn sin_really_computes() {
    // sin(1) is about 0.8414709848; the wrapper must not echo its argument
    let r = ok(evaluate_formula("sin(z) + c", cv(1, 0), cv(0, 0), std_i2()));
    let want = 14117530; // 0.8414709848 on the grid
    assert!((r.re.m - want).abs() < 100, "sin(1) mantissa: {}", r.re.m);
    assert_eq!(r.im.m, 0);
}

#[test]
fn fast_path_agrees_with_parser() {
    // the fast-path table and the general route agree on its formulas
    let z = cv(1, 0);
    let c = cv(0, 1);
    let formulas = [
        "z^2 + c",
        "z^3 + c",
        "z^4 + c",
        "sin(z) + c",
        "cos(z) + c",
        "tan(z) + c",
        "exp(z) + c",
        "log(z) + c",
        "z*z + sin(c)",
        "z*z + cos(c)",
        "z*z + tan(c)",
        "z*z + exp(c)",
        "z*z + log(c)",
        "sin(z) + sin(c)",
        "cos(z) + cos(c)",
        "tan(z) + tan(c)",
        "exp(z) + exp(c)",
        "log(z) + log(c)",
        "z^2 - c",
        "z^2 + c^2",
        "z^2 + c^3",
        "z^2 + c^4",
        "z^2 + c*z",
        "z^3 - z + c",
        "z^2 + c*sin(z)",
        "z^2 + c*cos(z)",
        "z^2 + c*tan(z)",
        "z^2 + c*exp(z)",
        "z^2 + c*log(z)",
        "z^z + c",
        "z^^z + c",
    ];
    for f in formulas {
        let fast = ok(evaluate_formula(f, z, c, std_i2()));
        let parsed = ok(ExpressionParser::evaluate(f, z, c));
        assert_eq!(fast, parsed, "paths disagree on {f}");
    }
    // identity holds on the power edge rules too: 4^2 = 16 is rescaled to
    // norm 10 by both routes
    let big = cv(4, 0);
    for f in ["z^2 + c", "z^2 - c", "z^3 + c", "z^3 - z + c", "z^2 + c^2"] {
        let fast = ok(evaluate_formula(f, big, c, std_i2()));
        let parsed = ok(ExpressionParser::evaluate(f, big, c));
        assert_eq!(fast, parsed, "paths disagree on {f} at a clamped base");
    }
}

#[test]
fn fast_path_is_case_insensitive() {
    let z = cv(2, 0);
    let c = cv(1, 0);
    let a = ok(evaluate_formula("  Z^2 + C  ", z, c, std_i2()));
    let b = ok(evaluate_formula("z^2 + c", z, c, std_i2()));
    assert_eq!(a, b);
    assert_eq!(a, cv(5, 0));
}

#[test]
fn custom_i_squared_changes_the_square() {
    // with i_squared = 1 + 0i, (0 + 1i)^2 + 0 evaluates to 1 + 0i
    let split = cv(1, 0);
    let r = ok(MathEvaluator::evaluate_formula_with_param_and_custom_i(
        "z^2 + c",
        cv(0, 1),
        cv(0, 0),
        split,
    ));
    assert_eq!(r, cv(1, 0));
    // and i*i parsed from the text agrees
    let p = ok(ExpressionParser::evaluate_with_custom_i("i*i", cv(0, 0), cv(0, 0), split));
    assert_eq!(p, cv(1, 0));
}

#[test]
fn precedence_and_associativity() {
    let z = cv(0, 0);
    let c = cv(0, 0);
    assert_eq!(ok(evaluate_formula("2+3*4", z, c, std_i2())), cv(14, 0));
    assert_eq!(ok(evaluate_formula("2*3+4", z, c, std_i2())), cv(10, 0));
    assert_eq!(ok(evaluate_formula("2*3^2", z, c, std_i2())), cv(18, 0));
    // right-associative power: 2^3^2 = 2^(3^2) = 2^9 = 512, which the
    // edge rules rescale to norm 10
    assert_eq!(ok(evaluate_formula("2^3^2", z, c, std_i2())), cv(10, 0));
    // right-associative without the clamp: 4^1^2 = 4^(1^2) = 4, while the
    // left-associated reading would be 16 and get clamped
    assert_eq!(ok(evaluate_formula("4^1^2", z, c, std_i2())), cv(4, 0));
    assert_eq!(ok(evaluate_formula("10-2-3", z, c, std_i2())), cv(5, 0));
}

#[test]
fn implicit_multiplication_before_i() {
    let z = cv(0, 0);
    let c = cv(0, 0);
    // "2i" is a literal; "2 i" is multiplication; both denote 0 + 2i
    assert_eq!(ok(evaluate_formula("2i", z, c, std_i2())), cv(0, 2));
    assert_eq!(ok(evaluate_formula("2 i", z, c, std_i2())), cv(0, 2));
    // after a closing parenthesis the multiplication is implicit too
    assert_eq!(ok(evaluate_formula("(3)i", z, c, std_i2())), cv(0, 3));
}

#[test]
fn decimal_literals_land_on_the_grid() {
    let z = cv(0, 0);
    let c = cv(0, 0);
    let half = ok(evaluate_formula("0.5", z, c, std_i2()));
    assert_eq!(half.re.m, FX_SCALE / 2);
    let r = ok(evaluate_formula("2.25 + 0.75", z, c, std_i2()));
    assert_eq!(r, cv(3, 0));
}

#[test]
fn lexical_errors() {
    let z = cv(0, 0);
    let c = cv(0, 0);
    assert!(matches!(
        evaluate_formula("z $ c", z, c, std_i2()),
        Err(EvaluationError::UnexpectedChar(36))
    ));
    assert!(matches!(
        evaluate_formula("z + .", z, c, std_i2()),
        Err(EvaluationError::InvalidNumber(_))
    ));
}

#[test]
fn leftover_tokens_are_an_error() {
    let z = cv(1, 0);
    let c = cv(1, 0);
    // the parse must consume the whole token stream
    assert!(matches!(
        evaluate_formula("z z", z, c, std_i2()),
        Err(EvaluationError::UnexpectedToken)
    ));
    assert!(matches!(
        evaluate_formula("z )", z, c, std_i2()),
        Err(EvaluationError::UnexpectedToken)
    ));
    assert!(matches!(
        evaluate_formula("1 2", z, c, std_i2()),
        Err(EvaluationError::UnexpectedToken)
    ));
}

#[test]
fn identifiers_may_begin_with_i() {
    let z = cv(1, 0);
    let c = cv(1, 0);
    // a bare i is the imaginary unit, but a longer run is an identifier
    assert_eq!(ok(evaluate_formula("i", z, c, std_i2())), cv(0, 1));
    match evaluate_formula("iter", z, c, std_i2()) {
        Err(EvaluationError::UnknownIdentifier(name)) => assert_eq!(name, b"iter".to_vec()),
        other => panic!("expected an unknown-identifier error, got {:?}", other),
    }
    match evaluate_formula("i2 + z", z, c, std_i2()) {
        Err(EvaluationError::UnknownIdentifier(name)) => assert_eq!(name, b"i2".to_vec()),
        other => panic!("expected an unknown-identifier error, got {:?}", other),
    }
}

#[test]
fn syntax_errors() {
    let z = cv(0, 0);
    let c = cv(0, 0);
    assert!(matches!(
        evaluate_formula("z +", z, c, std_i2()),
        Err(EvaluationError::UnexpectedEnd)
    ));
    assert!(matches!(
        evaluate_formula("sin z", z, c, std_i2()),
        Err(EvaluationError::ExpectedOpeningParenFor(_))
    ));
    assert!(matches!(
        evaluate_formula("sin(z", z, c, std_i2()),
        Err(EvaluationError::ExpectedClosingParenFor(_))
    ));
}

#[test]
fn error_messages_are_descriptive() {
    let e = evaluate_formula("foo(z)", cv(0, 0), cv(0, 0), std_i2()).unwrap_err();
    assert_eq!(e.message(), "Unknown identifier: foo");
    let d = evaluate_formula("z/c", cv(1, 0), cv(0, 0), std_i2()).unwrap_err();
    assert_eq!(d.message(), "Division by zero");
}

#[test]
fn special_function_placeholders() {
    let z = cv(3, 4);
    assert_eq!(evaluate_special_function("gamma", z).unwrap(), z);
    assert_eq!(evaluate_special_function("ZETA", z).unwrap(), z);
    assert_eq!(MathEvaluator::evaluate_special_function("psi", z).unwrap(), z);
    assert!(matches!(
        evaluate_special_function("nope", z),
        Err(EvaluationError::UnknownSpecialFunction(_))
    ));
}

#[test]
fn param_is_an_alias_for_c() {
    let z = cv(2, 0);
    let c = cv(3, 0);
    let a = ok(ExpressionParser::evaluate("z + c", z, c));
    let b = ok(ExpressionParser::evaluate("z + param", z, c));
    assert_eq!(a, b);
    assert_eq!(a, cv(5, 0));
}
