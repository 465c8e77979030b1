//! A calculator for integer formulas in reverse Polish notation.
//!
//! A formula is a line of tokens separated by white space, such as
//! `2 3 +`. [`RpnCalculator::eval`] gives its value or says why it has
//! none. What that value is for every formula is stated by [`eval::outcome`].

pub mod arith;
pub mod eval;
pub mod laws;
pub mod lexer;
pub mod number;
pub mod token;

pub use crate::arith::Operator;
pub use crate::eval::{EvalError, Evaluation, RpnCalculator, TraceRecord};
pub use crate::token::{Token, TokenKind};
