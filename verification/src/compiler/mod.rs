//! The Jack compiler: a recursive-descent parser for the Jack language
//! and a symbol-table-driven code generator emitting stack-machine text.

pub mod ast;
pub mod codegen;
pub mod parser;
pub mod symbol_table;
