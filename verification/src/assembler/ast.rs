//! Statements of the symbolic Hack assembly language.

use vstd::prelude::*;

verus! {

/// The operand of an A-instruction: a literal value or a symbol.
#[derive(Debug, PartialEq, Eq, Clone)]
pub enum Address {
    Value(u16),
    Symbol(String),
}

/// The destination field of a C-instruction.
#[derive(Debug, PartialEq, Eq, Clone, Copy)]
pub enum Dest {
    NULL,
    M,
    D,
    MD,
    A,
    AM,
    AD,
    AMD,
}

/// The jump field of a C-instruction.
#[derive(Debug, PartialEq, Eq, Clone, Copy)]
pub enum Jump {
    NULL,
    JGT,
    JEQ,
    JGE,
    JLT,
    JNE,
    JLE,
    JMP,
}

/// The computation field of a C-instruction: the 28 canonical ALU
/// computations.
#[derive(Debug, PartialEq, Eq, Clone, Copy)]
pub enum Operation {
    Zero,
    One,
    MinusOne,
    D,
    A,
    M,
    NotD,
    NotA,
    NotM,
    MinusD,
    MinusA,
    MinusM,
    DPlus1,
    APlus1,
    MPlus1,
    DMinus1,
    AMinus1,
    MMinus1,
    DPlusA,
    DPlusM,
    DMinusA,
    DMinusM,
    AMinusD,
    MMinusD,
    DAndA,
    DAndM,
    DOrA,
    DOrM,
}

/// A full C-instruction.
#[derive(Debug, PartialEq, Eq, Clone, Copy)]
pub struct Command {
    pub dest: Option<Dest>,
    pub operation: Operation,
    pub jump: Option<Jump>,
}

/// One parsed line of assembly.
#[derive(Debug, PartialEq, Eq, Clone)]
pub enum Stmt {
    A(Address),
    C(Command),
    Label(String),
    Empty,
}

/// An A-operand with its symbol as a character sequence.
pub enum AddressV {
    Value(u16),
    Symbol(Seq<char>),
}

/// A parsed line with its names as character sequences.
pub enum StmtV {
    A(AddressV),
    C(Command),
    Label(Seq<char>),
    Empty,
}

/// The abstract shape of a parsed line.
pub open spec fn stmt_view(s: Stmt) -> StmtV {
    match s {
        Stmt::A(Address::Value(v)) => StmtV::A(AddressV::Value(v)),
        Stmt::A(Address::Symbol(name)) => StmtV::A(AddressV::Symbol(name@)),
        Stmt::C(c) => StmtV::C(c),
        Stmt::Label(name) => StmtV::Label(name@),
        Stmt::Empty => StmtV::Empty,
    }
}

/// The abstract shape of each statement of a sequence.
pub open spec fn stmt_views(v: Seq<Stmt>) -> Seq<StmtV> {
    Seq::new(v.len(), |i: int| stmt_view(v[i]))
}

} // verus!
