//! The VM-to-assembly translator: a line-oriented parser for stack-machine
//! statements and a per-opcode expander into Hack assembly.

pub mod ast;
pub mod parser;
pub mod translate;
pub mod translate_pop;
pub mod translate_push;
