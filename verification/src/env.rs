//! Lexical environments.

pub mod environment;
