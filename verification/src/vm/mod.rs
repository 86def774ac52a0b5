//! The bytecode, the values it computes with, the compiler from syntax trees to bytecode,
//! and the machine that runs bytecode.

pub mod bytecode;
pub mod compiler;
pub mod value;
pub mod machine;
pub mod listing;
