//! The encoder from parsed statements to 16-bit machine words.

use vstd::prelude::*;

use crate::assembler::ast::{
    stmt_view, stmt_views, Address, AddressV, Command, Dest, Jump, Operation, Stmt, StmtV,
};
use crate::assembler::symbol_table::SymbolTable;

verus! {

/// The 7-bit encoding of a computation.
pub open spec fn operation_bits(op: Operation) -> u16 {
    match op {
        Operation::Zero => 0b0101010,
        Operation::One => 0b0111111,
        Operation::MinusOne => 0b0111010,
        Operation::D => 0b0001100,
        Operation::A => 0b0110000,
        Operation::M => 0b1110000,
        Operation::NotD => 0b0001101,
        Operation::NotA => 0b0110001,
        Operation::NotM => 0b1110001,
        Operation::MinusD => 0b0001111,
        Operation::MinusA => 0b0110011,
        Operation::MinusM => 0b1110011,
        Operation::DPlus1 => 0b0011111,
        Operation::APlus1 => 0b0110111,
        Operation::MPlus1 => 0b1110111,
        Operation::DMinus1 => 0b0001110,
        Operation::AMinus1 => 0b0110010,
        Operation::MMinus1 => 0b1110010,
        Operation::DPlusA => 0b0000010,
        Operation::DPlusM => 0b1000010,
        Operation::DMinusA => 0b0010011,
        Operation::DMinusM => 0b1010011,
        Operation::AMinusD => 0b0000111,
        Operation::MMinusD => 0b1000111,
        Operation::DAndA => 0b0000000,
        Operation::DAndM => 0b1000000,
        Operation::DOrA => 0b0010101,
        Operation::DOrM => 0b1010101,
    }
}

/// The 3-bit encoding of a destination field.
pub open spec fn dest_bits(d: Dest) -> u16 {
    match d {
        Dest::NULL => 0,
        Dest::M => 1,
        Dest::D => 2,
        Dest::MD => 3,
        Dest::A => 4,
        Dest::AM => 5,
        Dest::AD => 6,
        Dest::AMD => 7,
    }
}

/// The 3-bit encoding of a jump field.
pub open spec fn jump_bits(j: Jump) -> u16 {
    match j {
        Jump::NULL => 0,
        Jump::JGT => 1,
        Jump::JEQ => 2,
        Jump::JGE => 3,
        Jump::JLT => 4,
        Jump::JNE => 5,
        Jump::JLE => 6,
        Jump::JMP => 7,
    }
}

/// The word of a C-instruction: three high bits set, then the
/// computation, destination and jump fields.
pub open spec fn c_bits(c: Command) -> u16 {
    0b1110_0000_0000_0000u16 | (operation_bits(c.operation) << 6) | ((match c.dest {
        Some(d) => dest_bits(d),
        None => 0,
    }) << 3) | (match c.jump {
        Some(j) => jump_bits(j),
        None => 0,
    })
}

/// The word of an A-instruction: the value or the symbol's binding,
/// masked to 15 bits.
pub open spec fn a_bits(a: AddressV, m: Map<Seq<char>, u16>) -> u16 {
    match a {
        AddressV::Value(v) => v & 0x7FFF,
        AddressV::Symbol(s) => m[s] & 0x7FFF,
    }
}

/// The word of one statement; labels and blanks encode to nothing and
/// are never handed to the encoder.
pub open spec fn stmt_bits(sv: StmtV, m: Map<Seq<char>, u16>) -> u16 {
    match sv {
        StmtV::A(a) => a_bits(a, m),
        StmtV::C(c) => c_bits(c),
        _ => 0,
    }
}

/// A statement the encoder accepts: an A-instruction whose symbol, if
/// any, is bound, or a C-instruction.
pub open spec fn encodable(sv: StmtV, m: Map<Seq<char>, u16>) -> bool {
    match sv {
        StmtV::A(AddressV::Value(v)) => true,
        StmtV::A(AddressV::Symbol(s)) => m.contains_key(s),
        StmtV::C(c) => true,
        _ => false,
    }
}

/// Encodes a computation.
pub fn convert_operation(operation: Operation) -> (r: u16)
    ensures
        r == operation_bits(operation),
{
    match operation {
        Operation::Zero => 0b0101010,
        Operation::One => 0b0111111,
        Operation::MinusOne => 0b0111010,
        Operation::D => 0b0001100,
        Operation::A => 0b0110000,
        Operation::M => 0b1110000,
        Operation::NotD => 0b0001101,
        Operation::NotA => 0b0110001,
        Operation::NotM => 0b1110001,
        Operation::MinusD => 0b0001111,
        Operation::MinusA => 0b0110011,
        Operation::MinusM => 0b1110011,
        Operation::DPlus1 => 0b0011111,
        Operation::APlus1 => 0b0110111,
        Operation::MPlus1 => 0b1110111,
        Operation::DMinus1 => 0b0001110,
        Operation::AMinus1 => 0b0110010,
        Operation::MMinus1 => 0b1110010,
        Operation::DPlusA => 0b0000010,
        Operation::DPlusM => 0b1000010,
        Operation::DMinusA => 0b0010011,
        Operation::DMinusM => 0b1010011,
        Operation::AMinusD => 0b0000111,
        Operation::MMinusD => 0b1000111,
        Operation::DAndA => 0b0000000,
        Operation::DAndM => 0b1000000,
        Operation::DOrA => 0b0010101,
        Operation::DOrM => 0b1010101,
    }
}

/// Encodes a destination field.
fn convert_dest(d: Dest) -> (r: u16)
    ensures
        r == dest_bits(d),
{
    match d {
        Dest::NULL => 0,
        Dest::M => 1,
        Dest::D => 2,
        Dest::MD => 3,
        Dest::A => 4,
        Dest::AM => 5,
        Dest::AD => 6,
        Dest::AMD => 7,
    }
}

/// Encodes a jump field.
fn convert_jump(j: Jump) -> (r: u16)
    ensures
        r == jump_bits(j),
{
    match j {
        Jump::NULL => 0,
        Jump::JGT => 1,
        Jump::JEQ => 2,
        Jump::JGE => 3,
        Jump::JLT => 4,
        Jump::JNE => 5,
        Jump::JLE => 6,
        Jump::JMP => 7,
    }
}

/// Encodes a C-instruction.
pub fn convert_c_statement(command: Command) -> (r: u16)
    ensures
        r == c_bits(command),
{
    let dest = match command.dest {
        Some(d) => convert_dest(d),
        None => 0,
    };
    let jump = match command.jump {
        Some(j) => convert_jump(j),
        None => 0,
    };
    0b1110_0000_0000_0000u16 | (convert_operation(command.operation) << 6u16) | (dest << 3u16)
        | jump
}

/// Encodes an A-instruction, resolving a symbol through the table.
pub fn convert_a_statement(address: &Address, symbol_table: &SymbolTable) -> (r: u16)
    requires
        address matches Address::Symbol(s) ==> symbol_table@.contains_key(s@),
    ensures
        r == a_bits(
            match address {
                Address::Value(v) => AddressV::Value(*v),
                Address::Symbol(s) => AddressV::Symbol(s@),
            },
            symbol_table@,
        ),
{
    match address {
        Address::Value(val) => *val & 0x7FFF,
        Address::Symbol(symbol) => {
            match symbol_table.get(symbol.as_str()) {
                Some(value) => value & 0x7FFF,
                None => {
                    proof {
                        assert(false);
                    }
                    0
                },
            }
        },
    }
}

/// Encodes a program: one word per statement, in order.
pub fn interpret_ast(statements: &Vec<Stmt>, symbol_table: &SymbolTable) -> (r: Vec<u16>)
    requires
        forall|i: int|
            0 <= i < statements@.len() ==> encodable(
                #[trigger] stmt_views(statements@)[i],
                symbol_table@,
            ),
    ensures
        r@ == Seq::new(
            statements@.len(),
            |i: int| stmt_bits(stmt_views(statements@)[i], symbol_table@),
        ),
{
    let ghost vs = stmt_views(statements@);
    let ghost target = Seq::new(
        statements@.len(),
        |i: int| stmt_bits(stmt_views(statements@)[i], symbol_table@),
    );
    let mut vals: Vec<u16> = Vec::new();
    let mut i: usize = 0;
    while i < statements.len()
        invariant
            i <= statements@.len(),
            vs == stmt_views(statements@),
            target == Seq::new(
                statements@.len(),
                |k: int| stmt_bits(stmt_views(statements@)[k], symbol_table@),
            ),
            forall|k: int|
                0 <= k < statements@.len() ==> encodable(
                    #[trigger] stmt_views(statements@)[k],
                    symbol_table@,
                ),
            vals@ == target.take(i as int),
        decreases statements@.len() - i,
    {
        proof {
            assert(encodable(vs[i as int], symbol_table@));
        }
        let word = match &statements[i] {
            Stmt::A(address) => convert_a_statement(address, symbol_table),
            Stmt::C(command) => convert_c_statement(*command),
            Stmt::Label(l) => {
                proof {
                    assert(false);
                }
                0
            },
            Stmt::Empty => {
                proof {
                    assert(false);
                }
                0
            },
        };
        vals.push(word);
        proof {
            assert(vals@ =~= target.take(i + 1));
        }
        i = i + 1;
    }
    proof {
        assert(target.take(statements@.len() as int) =~= target);
    }
    vals
}

} // verus!
