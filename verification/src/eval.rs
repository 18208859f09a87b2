//! Expression tree evaluation.
//!
//! The tree is traversed recursively with `z` and `c` bound at call time
//! and the active `i_squared` threaded through every arithmetic primitive
//! (the algebraic reading of the custom imaginary unit: the literal `i`
//! still denotes `0 + 1i` syntactically, and multiplying two imaginary
//! parts contributes `i_squared`).  Division raises the engine's one
//! arithmetic error when the divisor is exactly zero — on the grid this is
//! the same test as a squared norm below machine epsilon.  The functions
//! `gamma` and `zeta` are placeholders that return their argument, `slog`,
//! `penta_root` and `hexa_root` are placeholders that return `1 + 0i`, and
//! `sexp` is a placeholder for the plain exponential; they are acknowledged
//! approximations, not implementations.

use vstd::prelude::*;
use crate::complex::{ComplexValue, c_add, c_div, c_mul, c_nsq_raw, c_sub};
use crate::error::{EvaluationError, SpecError};
use crate::expr::{BinaryOp, Expression, Function, Variable, expr_wf};
use crate::fixed::{Fx, FX_SCALE};
use crate::hyper::{hex_spec, pent_spec, tet_spec};
use crate::power::pow_spec;
use crate::trans::interp_raw;

verus! {

/// What applying a named function yields.
pub open spec fn apply_fn_spec(f: Function, v: ComplexValue) -> ComplexValue {
    match f {
        Function::Sin => interp_raw(crate::trans::sin_of(v)),
        Function::Cos => interp_raw(crate::trans::cos_of(v)),
        Function::Tan => interp_raw(crate::trans::tan_of(v)),
        Function::Exp => interp_raw(crate::trans::exp_of(v)),
        Function::Ln => interp_raw(crate::trans::ln_of(v)),
        Function::Gamma => v,
        Function::Zeta => v,
        Function::SuperLog => ComplexValue { re: Fx { m: FX_SCALE }, im: Fx { m: 0 } },
        Function::SuperExp => interp_raw(crate::trans::exp_of(v)),
        Function::PentaRoot => ComplexValue { re: Fx { m: FX_SCALE }, im: Fx { m: 0 } },
        Function::HexaRoot => ComplexValue { re: Fx { m: FX_SCALE }, im: Fx { m: 0 } },
        Function::Sqrt => interp_raw(crate::trans::sqrt_of(v)),
        Function::Cbrt => interp_raw(crate::trans::cbrt_of(v)),
        Function::Asin => interp_raw(crate::trans::asin_of(v)),
        Function::Acos => interp_raw(crate::trans::acos_of(v)),
        Function::Atan => interp_raw(crate::trans::atan_of(v)),
        Function::Sinh => interp_raw(crate::trans::sinh_of(v)),
        Function::Cosh => interp_raw(crate::trans::cosh_of(v)),
        Function::Tanh => interp_raw(crate::trans::tanh_of(v)),
    }
}

/// What a binary operator yields on evaluated operands, or the division
/// error.
pub open spec fn apply_op_spec(
    op: BinaryOp,
    l: ComplexValue,
    r: ComplexValue,
    i2: ComplexValue,
) -> Result<ComplexValue, SpecError> {
    match op {
        BinaryOp::Add => Result::Ok(c_add(l, r)),
        BinaryOp::Sub => Result::Ok(c_sub(l, r)),
        BinaryOp::Mul => Result::Ok(c_mul(l, r, i2)),
        BinaryOp::Div => if r.re.m == 0 && r.im.m == 0 {
            Result::Err(SpecError::DivisionByZero)
        } else {
            Result::Ok(c_div(l, r))
        },
        BinaryOp::Pow => Result::Ok(pow_spec(l, r, i2)),
        BinaryOp::Tetration => Result::Ok(tet_spec(l, r, i2)),
        BinaryOp::Pentation => Result::Ok(pent_spec(l, r, i2)),
        BinaryOp::Hexation => Result::Ok(hex_spec(l, r, i2)),
    }
}

/// The value of a tree under bindings `z`, `c` and the active `i_squared`,
/// or the first division-by-zero error met (left operand first).
pub open spec fn eval_spec(
    e: Expression,
    z: ComplexValue,
    c: ComplexValue,
    i2: ComplexValue,
) -> Result<ComplexValue, SpecError>
    decreases e,
{
    match e {
        Expression::Constant(v) => Result::Ok(v),
        Expression::Variable(Variable::Z) => Result::Ok(z),
        Expression::Variable(Variable::C) => Result::Ok(c),
        Expression::Binary(op, l, r) => match eval_spec(*l, z, c, i2) {
            Result::Ok(lv) => match eval_spec(*r, z, c, i2) {
                Result::Ok(rv) => apply_op_spec(op, lv, rv, i2),
                Result::Err(er) => Result::Err(er),
            },
            Result::Err(er) => Result::Err(er),
        },
        Expression::Apply(f, a) => match eval_spec(*a, z, c, i2) {
            Result::Ok(av) => Result::Ok(apply_fn_spec(f, av)),
            Result::Err(er) => Result::Err(er),
        },
    }
}

/// Apply a named function (exec).
fn apply_fn(f: Function, v: ComplexValue) -> (r: ComplexValue)
    requires
        v.wf(),
    ensures
        r == apply_fn_spec(f, v),
        r.wf(),
{
    match f {
        Function::Sin => crate::trans::sin_c(&v),
        Function::Cos => crate::trans::cos_c(&v),
        Function::Tan => crate::trans::tan_c(&v),
        Function::Exp => crate::trans::exp_c(&v),
        Function::Ln => crate::trans::ln_c(&v),
        Function::Gamma => v,
        Function::Zeta => v,
        Function::SuperLog => ComplexValue::one(),
        Function::SuperExp => crate::trans::exp_c(&v),
        Function::PentaRoot => ComplexValue::one(),
        Function::HexaRoot => ComplexValue::one(),
        Function::Sqrt => crate::trans::sqrt_c(&v),
        Function::Cbrt => crate::trans::cbrt_c(&v),
        Function::Asin => crate::trans::asin_c(&v),
        Function::Acos => crate::trans::acos_c(&v),
        Function::Atan => crate::trans::atan_c(&v),
        Function::Sinh => crate::trans::sinh_c(&v),
        Function::Cosh => crate::trans::cosh_c(&v),
        Function::Tanh => crate::trans::tanh_c(&v),
    }
}

/// Evaluate a tree under bindings `z`, `c` and the active `i_squared`.
pub fn evaluate(
    e: &Expression,
    z: ComplexValue,
    c: ComplexValue,
    i2: ComplexValue,
) -> (r: Result<ComplexValue, EvaluationError>)
    requires
        expr_wf(*e),
        z.wf(),
        c.wf(),
        i2.wf(),
    ensures
        (match r {
            Result::Ok(v) => eval_spec(*e, z, c, i2) == Result::<ComplexValue, SpecError>::Ok(v)
                && v.wf(),
            Result::Err(er) => eval_spec(*e, z, c, i2) == Result::<ComplexValue, SpecError>::Err(
                er.deep_view(),
            ),
        }),
    decreases *e,
{
    match e {
        Expression::Constant(v) => Result::Ok(*v),
        Expression::Variable(Variable::Z) => Result::Ok(z),
        Expression::Variable(Variable::C) => Result::Ok(c),
        Expression::Binary(op, l, r) => {
            let lv = match evaluate(l, z, c, i2) {
                Result::Ok(v) => v,
                Result::Err(er) => {
                    return Result::Err(er);
                },
            };
            let rv = match evaluate(r, z, c, i2) {
                Result::Ok(v) => v,
                Result::Err(er) => {
                    return Result::Err(er);
                },
            };
            match op {
                BinaryOp::Add => Result::Ok(lv.add_c(rv)),
                BinaryOp::Sub => Result::Ok(lv.sub_c(rv)),
                BinaryOp::Mul => Result::Ok(lv.mul_c(rv, i2)),
                BinaryOp::Div => {
                    if rv.is_exactly_zero() {
                        Result::Err(EvaluationError::DivisionByZero)
                    } else {
                        Result::Ok(lv.div_c(rv))
                    }
                },
                BinaryOp::Pow => Result::Ok(crate::power::pow_with(lv, rv, i2)),
                BinaryOp::Tetration => Result::Ok(crate::hyper::tetration(lv, rv, i2)),
                BinaryOp::Pentation => Result::Ok(crate::hyper::pentation(lv, rv, i2)),
                BinaryOp::Hexation => Result::Ok(crate::hyper::hexation(lv, rv, i2)),
            }
        },
        Expression::Apply(f, a) => {
            match evaluate(a, z, c, i2) {
                Result::Ok(av) => Result::Ok(apply_fn(*f, av)),
                Result::Err(er) => Result::Err(er),
            }
        },
    }
}

} // verus!
