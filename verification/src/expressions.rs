//! Expressions: the syntax tree and the values it evaluates to.

pub mod expression;
pub mod visitor;
