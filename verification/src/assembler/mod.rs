//! The Hack assembler: a line parser for symbolic assembly, a label pass,
//! a variable pass, and an encoder into 16-bit words.

pub mod assemble;
pub mod ast;
pub mod convert_labels;
pub mod convert_variables;
pub mod interpreter;
pub mod parser;
pub mod symbol_table;
