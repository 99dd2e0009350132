//! Statements: the syntax tree of declarations and control flow.

pub mod statement;
pub mod stmt_visitor;
