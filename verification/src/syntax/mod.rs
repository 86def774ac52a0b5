//! The syntax tree that the compiler reads: expressions and statements, each with the
//! position of the source text it stands for.

pub mod expressions;
pub mod operators;
pub mod statements;
pub mod writing;
