//! Expression trees.
//!
//! A parsed formula is a closed sum type: a constant, a variable, a binary
//! operation or a function application.  The tree is immutable after
//! construction and is evaluated by recursive traversal, binding `z` and
//! `c` at evaluation time.

use vstd::prelude::*;
use crate::complex::ComplexValue;

verus! {

/// Every constant in the tree holds admissible mantissas.
pub open spec fn expr_wf(e: Expression) -> bool
    decreases e,
{
    match e {
        Expression::Constant(v) => v.wf(),
        Expression::Variable(_) => true,
        Expression::Binary(_, l, r) => expr_wf(*l) && expr_wf(*r),
        Expression::Apply(_, a) => expr_wf(*a),
    }
}

/// A variable bound at evaluation time.
#[derive(Debug, Clone, Copy, PartialEq, Eq, Structural)]
pub enum Variable {
    /// The current iterate `z`.
    Z,
    /// The parameter `c` (also written `param`).
    C,
}

/// A binary operator.
#[derive(Debug, Clone, Copy, PartialEq, Eq, Structural)]
pub enum BinaryOp {
    /// `+`
    Add,
    /// `-`
    Sub,
    /// `*`
    Mul,
    /// `/`
    Div,
    /// `^`
    Pow,
    /// `^^`
    Tetration,
    /// `^^^`
    Pentation,
    /// `^^^^`
    Hexation,
}

/// A named function of one argument.
#[derive(Debug, Clone, Copy, PartialEq, Eq, Structural)]
pub enum Function {
    /// `sin`
    Sin,
    /// `cos`
    Cos,
    /// `tan`
    Tan,
    /// `exp`
    Exp,
    /// `log` (natural logarithm)
    Ln,
    /// `gamma` (placeholder: identity)
    Gamma,
    /// `zeta` (placeholder: identity)
    Zeta,
    /// `slog` (placeholder: safe default)
    SuperLog,
    /// `sexp` (placeholder: plain exponential)
    SuperExp,
    /// `penta_root` (placeholder: safe default)
    PentaRoot,
    /// `hexa_root` (placeholder: safe default)
    HexaRoot,
    /// `sqrt`
    Sqrt,
    /// `cbrt`
    Cbrt,
    /// `asin`
    Asin,
    /// `acos`
    Acos,
    /// `atan`
    Atan,
    /// `sinh`
    Sinh,
    /// `cosh`
    Cosh,
    /// `tanh`
    Tanh,
}

/// A node of a parsed formula.
#[derive(Debug)]
pub enum Expression {
    /// A literal complex value.
    Constant(ComplexValue),
    /// A variable bound at evaluation time.
    Variable(Variable),
    /// A binary operation on two subtrees.
    Binary(BinaryOp, Box<Expression>, Box<Expression>),
    /// A function applied to one subtree.
    Apply(Function, Box<Expression>),
}

} // verus!
