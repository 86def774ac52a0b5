use vstd::prelude::*;

pub mod span;
pub mod text;
pub mod errors;
pub mod join;
pub mod printing;
pub mod lexer;
pub mod stream;
pub mod ast;
pub mod punctuated;
pub mod syntax;
pub mod vm;
