//! A small dynamically-typed scripting language in the Lox family: a scanner,
//! a recursive-descent parser, the syntax tree, the runtime values and
//! environments, and a tree-walking evaluator.
//!
//! `grammar` says what the parser computes and `semantics` what the
//! evaluator computes; `spelling`, `roundtrip` and `sound` tie the parser to
//! the token sequences that spell a tree; `laws`, `frame`, `budget` and
//! `closed` state what holds of every evaluation.

pub mod budget;
pub mod closed;
pub mod driver;
pub mod env;
pub mod expressions;
pub mod frame;
pub mod grammar;
pub mod laws;
pub mod names;
pub mod numeral;
pub mod parser;
pub mod program;
pub mod roundtrip;
pub mod scanner;
pub mod semantics;
pub mod sound;
pub mod spelling;
pub mod statements;
pub mod token;
