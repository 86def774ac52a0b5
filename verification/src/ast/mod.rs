//! The syntax tree of the language and the parser that builds it from tokens.

pub mod grammar;
pub mod nodes;
pub mod parse;
pub mod spans;
