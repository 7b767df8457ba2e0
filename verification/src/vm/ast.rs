//! Statements of the stack-machine language.

use vstd::prelude::*;

verus! {

/// One parsed statement together with the raw line it came from; the raw
/// text is echoed as a comment above the statement's expansion.
#[derive(Debug, PartialEq)]
pub struct Stmt {
    pub operation: Operation,
    pub text: String,
}

#[derive(Debug, PartialEq)]
pub enum Operation {
    Pop(Address),
    Push(Address),
    Label(String),
    Function(Function),
    Return,
    Call(Function),
    ConditionalJump(String),
    Jump(String),
    Add,
    Sub,
    Neg,
    Eq,
    Gt,
    Lt,
    And,
    Or,
    Not,
}

/// A memory segment together with an index into it.
#[derive(Debug, PartialEq, Clone, Copy)]
pub struct Address {
    pub memory_segment: MemorySegment,
    pub address: u32,
}

/// A function name with its operand: the local count for `function`,
/// the argument count for `call`.
#[derive(Debug, PartialEq)]
pub struct Function {
    pub name: String,
    pub num: u32,
}

#[derive(Debug, PartialEq, Clone, Copy)]
pub enum MemorySegment {
    Constant,
    Local,
    Arguments,
    This,
    That,
    Static,
    Pointer,
    Temp,
}

} // verus!
