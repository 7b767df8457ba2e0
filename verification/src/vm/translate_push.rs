//! Expansion of `push` statements into Hack assembly.

use vstd::prelude::*;

use crate::strutil::{concat2, concat3, dec_str, lines_view, push_line, u32_to_string};
use crate::vm::ast::{Address, MemorySegment};

verus! {

/// `@n` for a numeric operand.
pub open spec fn at_dec(n: nat) -> Seq<char> {
    "@"@ + dec_str(n)
}

/// The register name standing for a `temp` index, valid for indices 0 to 7.
pub open spec fn temp_name(idx: nat) -> Seq<char> {
    if idx == 0 {
        "R5"@
    } else if idx == 1 {
        "R6"@
    } else if idx == 2 {
        "R7"@
    } else if idx == 3 {
        "R8"@
    } else if idx == 4 {
        "R9"@
    } else if idx == 5 {
        "R10"@
    } else if idx == 6 {
        "R11"@
    } else {
        "R12"@
    }
}

/// The error text for a `temp` index above 7.
pub open spec fn temp_err(idx: nat) -> Seq<char> {
    "Address "@ + dec_str(idx) + " outside scope of temp registers"@
}

/// The `@` line that addresses a static-segment slot of one source file.
pub open spec fn static_at(file: Seq<char>, idx: nat) -> Seq<char> {
    "@"@ + file + "."@ + dec_str(idx)
}

/// The assembly that fetches the value addressed by a segment and index
/// into the D register, or the error text for an invalid address.
pub open spec fn fetch_lines(a: Address, file: Seq<char>) -> Result<Seq<Seq<char>>, Seq<char>> {
    match a.memory_segment {
        MemorySegment::Constant => Ok(seq![at_dec(a.address as nat), "D=A"@]),
        MemorySegment::Local => Ok(
            seq![at_dec(a.address as nat), "D=A"@, "@LCL"@, "A=D+M"@, "D=M"@],
        ),
        MemorySegment::Arguments => Ok(
            seq![at_dec(a.address as nat), "D=A"@, "@ARG"@, "A=D+M"@, "D=M"@],
        ),
        MemorySegment::This => Ok(
            seq![at_dec(a.address as nat), "D=A"@, "@THIS"@, "A=D+M"@, "D=M"@],
        ),
        MemorySegment::That => Ok(
            seq![at_dec(a.address as nat), "D=A"@, "@THAT"@, "A=D+M"@, "D=M"@],
        ),
        MemorySegment::Static => Ok(seq![static_at(file, a.address as nat), "D=M"@]),
        MemorySegment::Temp => if a.address <= 7 {
            Ok(seq!["@"@ + temp_name(a.address as nat), "D=M"@])
        } else {
            Err(temp_err(a.address as nat))
        },
        MemorySegment::Pointer => if a.address == 0 {
            Ok(seq!["@THIS"@, "D=M"@])
        } else if a.address == 1 {
            Ok(seq!["@THAT"@, "D=M"@])
        } else {
            Err("Out of range pointer address "@ + dec_str(a.address as nat))
        },
    }
}

/// The full expansion of a `push` statement: fetch into D, store at `*SP`,
/// then increment SP.
pub open spec fn push_lines(a: Address, file: Seq<char>) -> Result<Seq<Seq<char>>, Seq<char>> {
    match fetch_lines(a, file) {
        Ok(ls) => Ok(ls + seq!["@SP"@, "A=M"@, "M=D"@, "@SP"@, "M=M+1"@]),
        Err(m) => Err(m),
    }
}

/// The register that backs a `temp` index, as text without the leading `@`.
pub fn address_to_temp(address: u32) -> (r: Result<String, String>)
    ensures
        address <= 7 ==> (r matches Ok(s) && s@ == temp_name(address as nat)),
        address > 7 ==> (r matches Err(e) && e@ == temp_err(address as nat)),
{
    let register: String = match address {
        0 => String::from_str("R5"),
        1 => String::from_str("R6"),
        2 => String::from_str("R7"),
        3 => String::from_str("R8"),
        4 => String::from_str("R9"),
        5 => String::from_str("R10"),
        6 => String::from_str("R11"),
        7 => String::from_str("R12"),
        _ => {
            let num = u32_to_string(address);
            return Err(concat3("Address ", num.as_str(), " outside scope of temp registers"));
        },
    };
    Ok(register)
}

/// Emits the fetch-into-D prefix for one segment and index.
pub fn translate_address_fetch(address: &Address, file_name: &str, out: &mut Vec<String>) -> (r:
    Result<(), String>)
    ensures
        match fetch_lines(*address, file_name@) {
            Ok(ls) => r matches Ok(u) && lines_view(final(out)@) == lines_view(old(out)@) + ls,
            Err(m) => r matches Err(e) && e@ == m && *final(out) == *old(out),
        },
{
    match address.memory_segment {
        MemorySegment::Constant => {
            let num = u32_to_string(address.address);
            push_line_string_pair(out, concat2("@", num.as_str()), "D=A");
        },
        MemorySegment::Local => {
            let num = u32_to_string(address.address);
            push_line_string_pair(out, concat2("@", num.as_str()), "D=A");
            push_line(out, "@LCL");
            push_line(out, "A=D+M");
            push_line(out, "D=M");
        },
        MemorySegment::Arguments => {
            let num = u32_to_string(address.address);
            push_line_string_pair(out, concat2("@", num.as_str()), "D=A");
            push_line(out, "@ARG");
            push_line(out, "A=D+M");
            push_line(out, "D=M");
        },
        MemorySegment::This => {
            let num = u32_to_string(address.address);
            push_line_string_pair(out, concat2("@", num.as_str()), "D=A");
            push_line(out, "@THIS");
            push_line(out, "A=D+M");
            push_line(out, "D=M");
        },
        MemorySegment::That => {
            let num = u32_to_string(address.address);
            push_line_string_pair(out, concat2("@", num.as_str()), "D=A");
            push_line(out, "@THAT");
            push_line(out, "A=D+M");
            push_line(out, "D=M");
        },
        MemorySegment::Static => {
            let num = u32_to_string(address.address);
            let mut at = concat3("@", file_name, ".");
            at.append(num.as_str());
            proof {
                assert(at@ =~= static_at(file_name@, address.address as nat));
            }
            push_line_string_pair(out, at, "D=M");
        },
        MemorySegment::Temp => {
            let reg = match address_to_temp(address.address) {
                Ok(reg) => reg,
                Err(e) => {
                    return Err(e);
                },
            };
            push_line_string_pair(out, concat2("@", reg.as_str()), "D=M");
        },
        MemorySegment::Pointer => {
            match address.address {
                0 => push_line(out, "@THIS"),
                1 => push_line(out, "@THAT"),
                _ => {
                    let num = u32_to_string(address.address);
                    return Err(concat2("Out of range pointer address ", num.as_str()));
                },
            }
            push_line(out, "D=M");
        },
    }
    proof {
        assert(lines_view(out@) =~= lines_view(old(out)@) + fetch_lines(
            *address,
            file_name@,
        )->Ok_0);
    }
    Ok(())
}

/// Pushes an already built line and then a fixed line.
fn push_line_string_pair(out: &mut Vec<String>, first: String, second: &str)
    ensures
        final(out)@.len() == old(out)@.len() + 2,
        lines_view(final(out)@) == lines_view(old(out)@) + seq![first@, second@],
{
    let ghost v = first@;
    out.push(first);
    push_line(out, second);
    proof {
        assert(lines_view(out@) =~= lines_view(old(out)@) + seq![v, second@]);
    }
}

/// Expands one `push` statement.
pub fn translate_push(address: &Address, file_name: &str) -> (r: Result<Vec<String>, String>)
    ensures
        match push_lines(*address, file_name@) {
            Ok(ls) => r matches Ok(v) && lines_view(v@) == ls,
            Err(m) => r matches Err(e) && e@ == m,
        },
{
    let mut result: Vec<String> = Vec::new();

    match translate_address_fetch(address, file_name, &mut result) {
        Ok(()) => {},
        Err(e) => {
            return Err(e);
        },
    }

    push_line(&mut result, "@SP");
    push_line(&mut result, "A=M");
    push_line(&mut result, "M=D");
    push_line(&mut result, "@SP");
    push_line(&mut result, "M=M+1");

    proof {
        assert(lines_view(result@) =~= push_lines(*address, file_name@)->Ok_0);
    }
    Ok(result)
}

} // verus!
