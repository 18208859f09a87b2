//! A verified formula engine for escape-time fractals: a tokenizer, a
//! recursive-descent parser and an evaluator for complex-number formulas such
//! as `z^2 + c` or `sin(z)^^c`, over a generalized complex arithmetic in which
//! the square of the imaginary unit may be any complex constant.
//!
//! Numbers are held on a fixed-point grid (see [`fixed`]), so every
//! arithmetic step has an exact, machine-checked description; the
//! transcendental functions are obtained from `num_complex` through a small
//! trusted layer and named abstractly in the contracts.

pub mod cnum;
pub mod complex;
pub mod customc;
pub mod error;
pub mod eval;
pub mod expr;
pub mod fixed;
pub mod formula;
pub mod hyper;
pub mod iterate;
pub mod laws;
pub mod palette;
pub mod parse;
pub mod power;
pub mod render;
pub mod token;
pub mod trans;

pub use complex::ComplexValue;
pub use customc::CustomComplex;
pub use error::EvaluationError;
pub use expr::{BinaryOp, Expression, Function, Variable};
pub use fixed::Fx;
pub use formula::{ExpressionParser, MathEvaluator, evaluate_formula};
pub use render::FractalRenderer;
pub use token::Token;
