//! Expansion of `pop` statements into Hack assembly.

use vstd::prelude::*;

use crate::strutil::{concat2, concat3, dec_str, lines_view, push_line, push_line_string, u32_to_string};
use crate::vm::ast::{Address, MemorySegment};
use crate::vm::translate_push::{address_to_temp, at_dec, static_at, temp_err, temp_name};

verus! {

/// The `@` line of the base register of a pointer-addressed segment.
pub open spec fn base_at(seg: MemorySegment) -> Seq<char> {
    match seg {
        MemorySegment::Arguments => "@ARG"@,
        MemorySegment::Local => "@LCL"@,
        MemorySegment::This => "@THIS"@,
        _ => "@THAT"@,
    }
}

/// The `@` line of the fixed cell that backs a direct segment (`pointer`,
/// `static` or `temp`), or the error text for an invalid index.
pub open spec fn direct_at(a: Address, file: Seq<char>) -> Result<Seq<char>, Seq<char>> {
    match a.memory_segment {
        MemorySegment::Temp => if a.address <= 7 {
            Ok("@"@ + temp_name(a.address as nat))
        } else {
            Err(temp_err(a.address as nat))
        },
        MemorySegment::Static => Ok(static_at(file, a.address as nat)),
        _ => if a.address == 0 {
            Ok("@THIS"@)
        } else if a.address == 1 {
            Ok("@THAT"@)
        } else {
            Err("Invalid pop pointer address "@ + dec_str(a.address as nat))
        },
    }
}

/// The full expansion of a `pop` statement, or the error text for an
/// unsupported segment and index combination.
pub open spec fn pop_lines(a: Address, file: Seq<char>) -> Result<Seq<Seq<char>>, Seq<char>> {
    match a.memory_segment {
        MemorySegment::Arguments | MemorySegment::Local | MemorySegment::This
            | MemorySegment::That => Ok(
            seq![
                at_dec(a.address as nat),
                "D=A"@,
                base_at(a.memory_segment),
                "D=D+M"@,
                "@SP"@,
                "M=M-1"@,
                "A=M+1"@,
                "M=D"@,
                "A=A-1"@,
                "D=M"@,
                "A=A+1"@,
                "A=M"@,
                "M=D"@,
            ],
        ),
        MemorySegment::Pointer | MemorySegment::Static | MemorySegment::Temp => match direct_at(
            a,
            file,
        ) {
            Ok(cell) => Ok(seq!["@SP"@, "M=M-1"@, "A=M"@, "D=M"@, cell, "M=D"@]),
            Err(m) => Err(m),
        },
        MemorySegment::Constant => Err(
            "Invalid pop statement: pop constant "@ + dec_str(a.address as nat),
        ),
    }
}

/// The `@` line of the cell a `pop` stores into.
pub fn segment_to_var(address: &Address, file_name: &str) -> (r: Result<String, String>)
    ensures
        match address.memory_segment {
            MemorySegment::Pointer | MemorySegment::Static | MemorySegment::Temp => match direct_at(
                *address,
                file_name@,
            ) {
                Ok(cell) => r matches Ok(s) && s@ == cell,
                Err(m) => r matches Err(e) && e@ == m,
            },
            MemorySegment::Arguments => r matches Ok(s) && s@ == "@ARG"@,
            MemorySegment::Local => r matches Ok(s) && s@ == "@LCL"@,
            MemorySegment::This => r matches Ok(s) && s@ == "@THIS"@,
            MemorySegment::That => r matches Ok(s) && s@ == "@THAT"@,
            MemorySegment::Constant => r matches Err(e),
        },
{
    match address.memory_segment {
        MemorySegment::Arguments => Ok(String::from_str("@ARG")),
        MemorySegment::Local => Ok(String::from_str("@LCL")),
        MemorySegment::This => Ok(String::from_str("@THIS")),
        MemorySegment::That => Ok(String::from_str("@THAT")),
        MemorySegment::Temp => {
            let reg = match address_to_temp(address.address) {
                Ok(reg) => reg,
                Err(e) => {
                    return Err(e);
                },
            };
            Ok(concat2("@", reg.as_str()))
        },
        MemorySegment::Static => {
            let num = u32_to_string(address.address);
            let mut at = concat3("@", file_name, ".");
            at.append(num.as_str());
            proof {
                assert(at@ =~= static_at(file_name@, address.address as nat));
            }
            Ok(at)
        },
        MemorySegment::Pointer => {
            match address.address {
                0 => Ok(String::from_str("@THIS")),
                1 => Ok(String::from_str("@THAT")),
                _ => {
                    let num = u32_to_string(address.address);
                    Err(concat2("Invalid pop pointer address ", num.as_str()))
                },
            }
        },
        MemorySegment::Constant => Err(
            String::from_str("Unable to convert memory segment to address"),
        ),
    }
}

/// Expands one `pop` statement.
#[verifier::rlimit(50)]
pub fn translate_pop(address: &Address, file_name: &str) -> (r: Result<Vec<String>, String>)
    ensures
        match pop_lines(*address, file_name@) {
            Ok(ls) => r matches Ok(v) && lines_view(v@) == ls,
            Err(m) => r matches Err(e) && e@ == m,
        },
{
    let mut result: Vec<String> = Vec::new();

    match address.memory_segment {
        MemorySegment::Arguments | MemorySegment::Local | MemorySegment::This
            | MemorySegment::That => {
            let num = u32_to_string(address.address);
            let at = concat2("@", num.as_str());
            push_line_string(&mut result, at);
            push_line(&mut result, "D=A");
            let base = match segment_to_var(address, file_name) {
                Ok(base) => base,
                Err(e) => {
                    return Err(e);
                },
            };
            push_line_string(&mut result, base);
            push_line(&mut result, "D=D+M");
            push_line(&mut result, "@SP");
            push_line(&mut result, "M=M-1");
            push_line(&mut result, "A=M+1");
            push_line(&mut result, "M=D");
            push_line(&mut result, "A=A-1");
            push_line(&mut result, "D=M");
            push_line(&mut result, "A=A+1");
            push_line(&mut result, "A=M");
            push_line(&mut result, "M=D");
            proof {
                assert(lines_view(result@) =~= pop_lines(*address, file_name@)->Ok_0);
            }
        },
        MemorySegment::Pointer | MemorySegment::Static | MemorySegment::Temp => {
            let cell = match segment_to_var(address, file_name) {
                Ok(cell) => cell,
                Err(e) => {
                    return Err(e);
                },
            };
            push_line(&mut result, "@SP");
            push_line(&mut result, "M=M-1");
            push_line(&mut result, "A=M");
            push_line(&mut result, "D=M");
            push_line_string(&mut result, cell);
            push_line(&mut result, "M=D");
            proof {
                assert(lines_view(result@) =~= pop_lines(*address, file_name@)->Ok_0);
            }
        },
        MemorySegment::Constant => {
            let num = u32_to_string(address.address);
            return Err(concat2("Invalid pop statement: pop constant ", num.as_str()));
        },
    }

    proof {
        assert(lines_view(result@) =~= pop_lines(*address, file_name@)->Ok_0);
    }
    Ok(result)
}

} // verus!
