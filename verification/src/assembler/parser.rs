//! The line parser for symbolic Hack assembly.

use vstd::prelude::*;

use crate::assembler::ast::{Address, AddressV, Command, Dest, Jump, Operation, Stmt, StmtV};
use crate::strutil::{concat2, lines_view};
use crate::textparse::{
    all_digits, chars_to_string, dec_val, digits_end, digits_end_exec, is_alpha_char,
    is_alpha_exec, is_digit_char, line_end_ok, line_end_ok_exec, name_end, name_end_exec,
    parse_digits, skip_spaces, skip_spaces_exec, spec_lines, split_lines, starts_with,
    starts_with_exec, str_to_chars,
};

verus! {

/// The destination field read at position `i`, with the position after
/// it; the longest destination wins.
pub open spec fn dest_at(s: Seq<char>, i: int) -> Option<(int, Dest)> {
    if 0 <= i && i < s.len() {
        if s[i] == 'A' {
            if i + 2 < s.len() && s[i + 1] == 'M' && s[i + 2] == 'D' {
                Some((i + 3, Dest::AMD))
            } else if i + 1 < s.len() && s[i + 1] == 'M' {
                Some((i + 2, Dest::AM))
            } else if i + 1 < s.len() && s[i + 1] == 'D' {
                Some((i + 2, Dest::AD))
            } else {
                Some((i + 1, Dest::A))
            }
        } else if s[i] == 'M' {
            if i + 1 < s.len() && s[i + 1] == 'D' {
                Some((i + 2, Dest::MD))
            } else {
                Some((i + 1, Dest::M))
            }
        } else if s[i] == 'D' {
            Some((i + 1, Dest::D))
        } else if s[i] == '0' {
            Some((i + 1, Dest::NULL))
        } else {
            None
        }
    } else {
        None
    }
}

/// The computation field read at position `i`, with the position after
/// it; three-character computations win over their one-character prefixes.
pub open spec fn comp_at(s: Seq<char>, i: int) -> Option<(int, Operation)> {
    if 0 <= i && i < s.len() {
        let c = s[i];
        if c == '0' {
            Some((i + 1, Operation::Zero))
        } else if c == '1' {
            Some((i + 1, Operation::One))
        } else if c == '-' {
            if i + 1 < s.len() && s[i + 1] == '1' {
                Some((i + 2, Operation::MinusOne))
            } else if i + 1 < s.len() && s[i + 1] == 'D' {
                Some((i + 2, Operation::MinusD))
            } else if i + 1 < s.len() && s[i + 1] == 'A' {
                Some((i + 2, Operation::MinusA))
            } else if i + 1 < s.len() && s[i + 1] == 'M' {
                Some((i + 2, Operation::MinusM))
            } else {
                None
            }
        } else if c == '!' {
            if i + 1 < s.len() && s[i + 1] == 'D' {
                Some((i + 2, Operation::NotD))
            } else if i + 1 < s.len() && s[i + 1] == 'A' {
                Some((i + 2, Operation::NotA))
            } else if i + 1 < s.len() && s[i + 1] == 'M' {
                Some((i + 2, Operation::NotM))
            } else {
                None
            }
        } else if c == 'D' {
            if i + 2 < s.len() && s[i + 1] == '+' && s[i + 2] == '1' {
                Some((i + 3, Operation::DPlus1))
            } else if i + 2 < s.len() && s[i + 1] == '+' && s[i + 2] == 'A' {
                Some((i + 3, Operation::DPlusA))
            } else if i + 2 < s.len() && s[i + 1] == '+' && s[i + 2] == 'M' {
                Some((i + 3, Operation::DPlusM))
            } else if i + 2 < s.len() && s[i + 1] == '-' && s[i + 2] == '1' {
                Some((i + 3, Operation::DMinus1))
            } else if i + 2 < s.len() && s[i + 1] == '-' && s[i + 2] == 'A' {
                Some((i + 3, Operation::DMinusA))
            } else if i + 2 < s.len() && s[i + 1] == '-' && s[i + 2] == 'M' {
                Some((i + 3, Operation::DMinusM))
            } else if i + 2 < s.len() && s[i + 1] == '&' && s[i + 2] == 'A' {
                Some((i + 3, Operation::DAndA))
            } else if i + 2 < s.len() && s[i + 1] == '&' && s[i + 2] == 'M' {
                Some((i + 3, Operation::DAndM))
            } else if i + 2 < s.len() && s[i + 1] == '|' && s[i + 2] == 'A' {
                Some((i + 3, Operation::DOrA))
            } else if i + 2 < s.len() && s[i + 1] == '|' && s[i + 2] == 'M' {
                Some((i + 3, Operation::DOrM))
            } else {
                Some((i + 1, Operation::D))
            }
        } else if c == 'A' {
            if i + 2 < s.len() && s[i + 1] == '+' && s[i + 2] == '1' {
                Some((i + 3, Operation::APlus1))
            } else if i + 2 < s.len() && s[i + 1] == '+' && s[i + 2] == 'D' {
                Some((i + 3, Operation::DPlusA))
            } else if i + 2 < s.len() && s[i + 1] == '-' && s[i + 2] == '1' {
                Some((i + 3, Operation::AMinus1))
            } else if i + 2 < s.len() && s[i + 1] == '-' && s[i + 2] == 'D' {
                Some((i + 3, Operation::AMinusD))
            } else {
                Some((i + 1, Operation::A))
            }
        } else if c == 'M' {
            if i + 2 < s.len() && s[i + 1] == '+' && s[i + 2] == '1' {
                Some((i + 3, Operation::MPlus1))
            } else if i + 2 < s.len() && s[i + 1] == '+' && s[i + 2] == 'D' {
                Some((i + 3, Operation::DPlusM))
            } else if i + 2 < s.len() && s[i + 1] == '-' && s[i + 2] == '1' {
                Some((i + 3, Operation::MMinus1))
            } else if i + 2 < s.len() && s[i + 1] == '-' && s[i + 2] == 'D' {
                Some((i + 3, Operation::MMinusD))
            } else {
                Some((i + 1, Operation::M))
            }
        } else {
            None
        }
    } else {
        None
    }
}

/// The jump field read at position `i`, with the position after it.
pub open spec fn jump_at(s: Seq<char>, i: int) -> Option<(int, Jump)> {
    if 0 <= i && i + 3 <= s.len() && s[i] == 'J' {
        if s[i + 1] == 'G' && s[i + 2] == 'T' {
            Some((i + 3, Jump::JGT))
        } else if s[i + 1] == 'E' && s[i + 2] == 'Q' {
            Some((i + 3, Jump::JEQ))
        } else if s[i + 1] == 'G' && s[i + 2] == 'E' {
            Some((i + 3, Jump::JGE))
        } else if s[i + 1] == 'L' && s[i + 2] == 'T' {
            Some((i + 3, Jump::JLT))
        } else if s[i + 1] == 'N' && s[i + 2] == 'E' {
            Some((i + 3, Jump::JNE))
        } else if s[i + 1] == 'L' && s[i + 2] == 'E' {
            Some((i + 3, Jump::JLE))
        } else if s[i + 1] == 'M' && s[i + 2] == 'P' {
            Some((i + 3, Jump::JMP))
        } else {
            None
        }
    } else {
        None
    }
}

/// A symbol starting at `i`: a letter or underscore, then letters,
/// digits, underscores, dots and dollar signs, ending at `name_end`.
pub open spec fn name_at(s: Seq<char>, i: int) -> Option<(int, Seq<char>)> {
    if 0 <= i && i < s.len() && (is_alpha_char(s[i]) || s[i] == '_') {
        Some((name_end(s, i), s.subrange(i, name_end(s, i))))
    } else {
        None
    }
}

/// A C-instruction starting at `i`: either `dest=comp` or `comp;jump`,
/// followed by only blanks or a comment.
pub open spec fn c_at(s: Seq<char>, i: int) -> Option<Command> {
    let with_dest = {
        match dest_at(s, i) {
            Some((p, dest)) => {
                if p < s.len() && s[p] == '=' {
                    match comp_at(s, p + 1) {
                        Some((q, op)) => {
                            if line_end_ok(s, q) {
                                Some(Command { dest: Some(dest), operation: op, jump: None })
                            } else {
                                None
                            }
                        },
                        None => None,
                    }
                } else {
                    None
                }
            },
            None => None,
        }
    };
    if with_dest is Some {
        with_dest
    } else {
        match comp_at(s, i) {
            Some((q, op)) => {
                if q < s.len() && s[q] == ';' {
                    let w = skip_spaces(s, q + 1);
                    match jump_at(s, w) {
                        Some((x, jump)) => {
                            if line_end_ok(s, x) {
                                Some(Command { dest: None, operation: op, jump: Some(jump) })
                            } else {
                                None
                            }
                        },
                        None => None,
                    }
                } else {
                    None
                }
            },
            None => None,
        }
    }
}

/// What one line of assembly means: a statement, or a parse error.
pub open spec fn asm_line(s: Seq<char>) -> Option<StmtV> {
    let i = skip_spaces(s, 0);
    if i == s.len() {
        Some(StmtV::Empty)
    } else if starts_with(s, i, "//"@) {
        Some(StmtV::Empty)
    } else if s[i] == '(' {
        match name_at(s, i + 1) {
            Some((ne, name)) => {
                if ne < s.len() && s[ne] == ')' && line_end_ok(s, ne + 1) {
                    Some(StmtV::Label(name))
                } else {
                    None
                }
            },
            None => None,
        }
    } else if s[i] == '@' {
        if i + 1 < s.len() && is_digit_char(s[i + 1]) {
            let ke = digits_end(s, i + 1);
            let tok = s.subrange(i + 1, ke);
            if dec_val(tok) <= u16::MAX && line_end_ok(s, ke) {
                Some(StmtV::A(AddressV::Value(dec_val(tok) as u16)))
            } else {
                None
            }
        } else {
            match name_at(s, i + 1) {
                Some((ne, name)) => {
                    if line_end_ok(s, ne) {
                        Some(StmtV::A(AddressV::Symbol(name)))
                    } else {
                        None
                    }
                },
                None => None,
            }
        }
    } else {
        match c_at(s, i) {
            Some(c) => Some(StmtV::C(c)),
            None => None,
        }
    }
}

/// Reads the destination field at `i`.
pub fn parse_destination(v: &Vec<char>, i: usize) -> (r: Option<(usize, Dest)>)
    requires
        i <= v@.len(),
    ensures
        match dest_at(v@, i as int) {
            Some((p, d)) => r matches Some(x) && x.0 as int == p && x.1 == d,
            None => r is None,
        },
{
    if i >= v.len() {
        return None;
    }
    let c = v[i];
    if c == 'A' {
        if v.len() - i > 2 && v[i + 1] == 'M' && v[i + 2] == 'D' {
            Some((i + 3, Dest::AMD))
        } else if v.len() - i > 1 && v[i + 1] == 'M' {
            Some((i + 2, Dest::AM))
        } else if v.len() - i > 1 && v[i + 1] == 'D' {
            Some((i + 2, Dest::AD))
        } else {
            Some((i + 1, Dest::A))
        }
    } else if c == 'M' {
        if v.len() - i > 1 && v[i + 1] == 'D' {
            Some((i + 2, Dest::MD))
        } else {
            Some((i + 1, Dest::M))
        }
    } else if c == 'D' {
        Some((i + 1, Dest::D))
    } else if c == '0' {
        Some((i + 1, Dest::NULL))
    } else {
        None
    }
}

/// Reads the computation field at `i`.
pub fn parse_operation(v: &Vec<char>, i: usize) -> (r: Option<(usize, Operation)>)
    requires
        i <= v@.len(),
    ensures
        match comp_at(v@, i as int) {
            Some((p, op)) => r matches Some(x) && x.0 as int == p && x.1 == op,
            None => r is None,
        },
{
    if i >= v.len() {
        return None;
    }
    let c = v[i];
    if c == '0' {
        Some((i + 1, Operation::Zero))
    } else if c == '1' {
        Some((i + 1, Operation::One))
    } else if c == '-' {
        if v.len() - i > 1 && v[i + 1] == '1' {
            Some((i + 2, Operation::MinusOne))
        } else if v.len() - i > 1 && v[i + 1] == 'D' {
            Some((i + 2, Operation::MinusD))
        } else if v.len() - i > 1 && v[i + 1] == 'A' {
            Some((i + 2, Operation::MinusA))
        } else if v.len() - i > 1 && v[i + 1] == 'M' {
            Some((i + 2, Operation::MinusM))
        } else {
            None
        }
    } else if c == '!' {
        if v.len() - i > 1 && v[i + 1] == 'D' {
            Some((i + 2, Operation::NotD))
        } else if v.len() - i > 1 && v[i + 1] == 'A' {
            Some((i + 2, Operation::NotA))
        } else if v.len() - i > 1 && v[i + 1] == 'M' {
            Some((i + 2, Operation::NotM))
        } else {
            None
        }
    } else if c == 'D' {
        if v.len() - i > 2 && v[i + 1] == '+' && v[i + 2] == '1' {
            Some((i + 3, Operation::DPlus1))
        } else if v.len() - i > 2 && v[i + 1] == '+' && v[i + 2] == 'A' {
            Some((i + 3, Operation::DPlusA))
        } else if v.len() - i > 2 && v[i + 1] == '+' && v[i + 2] == 'M' {
            Some((i + 3, Operation::DPlusM))
        } else if v.len() - i > 2 && v[i + 1] == '-' && v[i + 2] == '1' {
            Some((i + 3, Operation::DMinus1))
        } else if v.len() - i > 2 && v[i + 1] == '-' && v[i + 2] == 'A' {
            Some((i + 3, Operation::DMinusA))
        } else if v.len() - i > 2 && v[i + 1] == '-' && v[i + 2] == 'M' {
            Some((i + 3, Operation::DMinusM))
        } else if v.len() - i > 2 && v[i + 1] == '&' && v[i + 2] == 'A' {
            Some((i + 3, Operation::DAndA))
        } else if v.len() - i > 2 && v[i + 1] == '&' && v[i + 2] == 'M' {
            Some((i + 3, Operation::DAndM))
        } else if v.len() - i > 2 && v[i + 1] == '|' && v[i + 2] == 'A' {
            Some((i + 3, Operation::DOrA))
        } else if v.len() - i > 2 && v[i + 1] == '|' && v[i + 2] == 'M' {
            Some((i + 3, Operation::DOrM))
        } else {
            Some((i + 1, Operation::D))
        }
    } else if c == 'A' {
        if v.len() - i > 2 && v[i + 1] == '+' && v[i + 2] == '1' {
            Some((i + 3, Operation::APlus1))
        } else if v.len() - i > 2 && v[i + 1] == '+' && v[i + 2] == 'D' {
            Some((i + 3, Operation::DPlusA))
        } else if v.len() - i > 2 && v[i + 1] == '-' && v[i + 2] == '1' {
            Some((i + 3, Operation::AMinus1))
        } else if v.len() - i > 2 && v[i + 1] == '-' && v[i + 2] == 'D' {
            Some((i + 3, Operation::AMinusD))
        } else {
            Some((i + 1, Operation::A))
        }
    } else if c == 'M' {
        if v.len() - i > 2 && v[i + 1] == '+' && v[i + 2] == '1' {
            Some((i + 3, Operation::MPlus1))
        } else if v.len() - i > 2 && v[i + 1] == '+' && v[i + 2] == 'D' {
            Some((i + 3, Operation::DPlusM))
        } else if v.len() - i > 2 && v[i + 1] == '-' && v[i + 2] == '1' {
            Some((i + 3, Operation::MMinus1))
        } else if v.len() - i > 2 && v[i + 1] == '-' && v[i + 2] == 'D' {
            Some((i + 3, Operation::MMinusD))
        } else {
            Some((i + 1, Operation::M))
        }
    } else {
        None
    }
}

/// Reads the jump field at `i`.
pub fn parse_jump(v: &Vec<char>, i: usize) -> (r: Option<(usize, Jump)>)
    requires
        i <= v@.len(),
    ensures
        match jump_at(v@, i as int) {
            Some((p, j)) => r matches Some(x) && x.0 as int == p && x.1 == j,
            None => r is None,
        },
{
    if i >= v.len() || v.len() - i < 3 {
        return None;
    }
    if v[i] != 'J' {
        return None;
    }
    let c1 = v[i + 1];
    let c2 = v[i + 2];
    if c1 == 'G' && c2 == 'T' {
        Some((i + 3, Jump::JGT))
    } else if c1 == 'E' && c2 == 'Q' {
        Some((i + 3, Jump::JEQ))
    } else if c1 == 'G' && c2 == 'E' {
        Some((i + 3, Jump::JGE))
    } else if c1 == 'L' && c2 == 'T' {
        Some((i + 3, Jump::JLT))
    } else if c1 == 'N' && c2 == 'E' {
        Some((i + 3, Jump::JNE))
    } else if c1 == 'L' && c2 == 'E' {
        Some((i + 3, Jump::JLE))
    } else if c1 == 'M' && c2 == 'P' {
        Some((i + 3, Jump::JMP))
    } else {
        None
    }
}

/// Reads the symbol starting at `i`.
fn parse_name_at(v: &Vec<char>, i: usize) -> (r: Option<(usize, String)>)
    requires
        i <= v@.len(),
    ensures
        match name_at(v@, i as int) {
            Some((ne, name)) => r matches Some(x) && x.0 as int == ne && x.1@ == name && x.0
                <= v@.len(),
            None => r is None,
        },
{
    if i >= v.len() {
        return None;
    }
    let c = v[i];
    if !(is_alpha_exec(c) || c == '_') {
        return None;
    }
    let ne = name_end_exec(v, i);
    Some((ne, chars_to_string(v, i, ne)))
}

/// Parses a symbol token from the start of a string: a letter or an
/// underscore, then letters, digits, underscores, dots and dollar signs.
pub fn parse_name(i: &str) -> (r: Option<String>)
    ensures
        match name_at(i@, 0) {
            Some((ne, name)) => r matches Some(s) && s@ == name,
            None => r is None,
        },
{
    let v = str_to_chars(i);
    match parse_name_at(&v, 0) {
        Some(p) => Some(p.1),
        None => None,
    }
}

/// Tests whether a line is nothing but blanks and a `//` comment.
pub fn parse_comment(i: &str) -> (r: bool)
    ensures
        r == ({
            let s = i@;
            let p = skip_spaces(s, 0);
            p < s.len() && starts_with(s, p, "//"@)
        }),
{
    let v = str_to_chars(i);
    let p = skip_spaces_exec(&v, 0);
    if p == v.len() {
        false
    } else {
        starts_with_exec(&v, p, "//")
    }
}

/// A blank character: a space, a tab, or a line break.
pub open spec fn is_blank_char(c: char) -> bool {
    c == ' ' || c == '\t' || c == '\n' || c == '\r'
}

/// Tests whether a line holds only blanks, line breaks included.
pub fn parse_empty_lines(i: &str) -> (r: bool)
    ensures
        r == (forall|k: int| 0 <= k < i@.len() ==> is_blank_char(#[trigger] i@[k])),
{
    let v = str_to_chars(i);
    let mut k: usize = 0;
    while k < v.len()
        invariant
            k <= v@.len(),
            v@ == i@,
            forall|q: int| 0 <= q < k ==> is_blank_char(#[trigger] i@[q]),
        decreases v@.len() - k,
    {
        let c = v[k];
        if !(c == ' ' || c == '\t' || c == '\n' || c == '\r') {
            return false;
        }
        k = k + 1;
    }
    true
}

/// Parses one line that should hold a label declaration `(NAME)`.
pub fn parse_label(i: &str) -> (r: Option<Stmt>)
    ensures
        match asm_line(i@) {
            Some(sv) => (sv is Label ==> (r matches Some(s) && stmt_view(s) == sv)) && (!(sv
                is Label) ==> r is None),
            None => r is None,
        },
{
    let v = str_to_chars(i);
    let p = skip_spaces_exec(&v, 0);
    if p == v.len() {
        return None;
    }
    if starts_with_exec(&v, p, "//") {
        return None;
    }
    let c = v[p];
    if c != '(' {
        return None;
    }
    let (ne, name) = match parse_name_at(&v, p + 1) {
        Some(x) => x,
        None => {
            return None;
        },
    };
    if ne < v.len() && v[ne] == ')' && line_end_ok_exec(&v, ne + 1) {
        Some(Stmt::Label(name))
    } else {
        None
    }
}

/// Parses one line that should hold an A-instruction `@value` or
/// `@symbol`.
pub fn parse_a_instruction(i: &str) -> (r: Option<Stmt>)
    ensures
        match asm_line(i@) {
            Some(sv) => (sv is A ==> (r matches Some(s) && stmt_view(s) == sv)) && (!(sv is A)
                ==> r is None),
            None => r is None,
        },
{
    let v = str_to_chars(i);
    let p = skip_spaces_exec(&v, 0);
    if p == v.len() {
        return None;
    }
    if starts_with_exec(&v, p, "//") {
        return None;
    }
    let c = v[p];
    if c != '@' {
        return None;
    }
    parse_a_body(&v, p)
}

/// Parses the body of an A-instruction whose `@` stands at `p`.
fn parse_a_body(v: &Vec<char>, p: usize) -> (r: Option<Stmt>)
    requires
        p < v@.len(),
        v@[p as int] == '@',
        skip_spaces(v@, 0) == p,
        !starts_with(v@, p as int, "//"@),
    ensures
        match asm_line(v@) {
            Some(sv) => (sv is A ==> (r matches Some(s) && stmt_view(s) == sv)) && (!(sv is A)
                ==> r is None),
            None => r is None,
        },
{
    let mut digit_start = false;
    if v.len() - p > 1 {
        let d = v[p + 1];
        if d as u32 >= 48 && d as u32 <= 57 {
            digit_start = true;
        }
    }
    if digit_start {
        let ke = digits_end_exec(v, p + 1);
        let num = match parse_digits(v, p + 1, ke, 0xFFFF) {
            Some(n) => n,
            None => {
                proof {
                    lemma_digits_run_public(v@, p + 1 as int, ke as int);
                }
                return None;
            },
        };
        proof {
            lemma_digits_run_public(v@, p + 1 as int, ke as int);
        }
        if line_end_ok_exec(v, ke) {
            Some(Stmt::A(Address::Value(num as u16)))
        } else {
            None
        }
    } else {
        let (ne, name) = match parse_name_at(v, p + 1) {
            Some(x) => x,
            None => {
                return None;
            },
        };
        if line_end_ok_exec(v, ne) {
            Some(Stmt::A(Address::Symbol(name)))
        } else {
            None
        }
    }
}

/// Every character of a maximal digit run is a digit, and the run is not
/// empty when it starts on a digit.
pub proof fn lemma_digits_run_public(s: Seq<char>, i: int, ke: int)
    requires
        0 <= i <= s.len(),
        ke == digits_end(s, i),
    ensures
        all_digits(s.subrange(i, ke)),
        i <= ke <= s.len(),
        i < s.len() && is_digit_char(s[i]) ==> ke > i,
    decreases s.len() - i,
{
    crate::textparse::lemma_digits_end_bounds(s, i);
    if i < s.len() && is_digit_char(s[i]) {
        lemma_digits_run_public(s, i + 1, ke);
        assert(s.subrange(i + 1, ke) =~= s.subrange(i, ke).skip(1));
        assert(forall|k: int|
            0 <= k < ke - i ==> is_digit_char(#[trigger] s.subrange(i, ke)[k])) by {
            assert(forall|k: int|
                1 <= k < ke - i ==> s.subrange(i, ke)[k] == s.subrange(i + 1, ke)[k - 1]);
        }
    } else {
        assert(s.subrange(i, ke).len() == 0);
    }
}

/// Parses one line that should hold a C-instruction.
pub fn parse_c_statement(i: &str) -> (r: Option<Stmt>)
    ensures
        match asm_line(i@) {
            Some(sv) => (sv is C ==> (r matches Some(s) && stmt_view(s) == sv)) && (!(sv is C)
                ==> r is None),
            None => r is None,
        },
{
    let v = str_to_chars(i);
    let p = skip_spaces_exec(&v, 0);
    if p == v.len() {
        return None;
    }
    if starts_with_exec(&v, p, "//") {
        return None;
    }
    let c = v[p];
    if c == '(' || c == '@' {
        return None;
    }
    match parse_c_body(&v, p) {
        Some(cmd) => Some(Stmt::C(cmd)),
        None => None,
    }
}

/// Parses a C-instruction starting at `i`: `dest=comp` or `comp;jump`.
fn parse_c_body(v: &Vec<char>, i: usize) -> (r: Option<Command>)
    requires
        i <= v@.len(),
    ensures
        r == c_at(v@, i as int),
{
    if let Some((p, dest)) = parse_destination(v, i) {
        if p < v.len() && v[p] == '=' {
            if let Some((q, op)) = parse_operation(v, p + 1) {
                if line_end_ok_exec(v, q) {
                    return Some(Command { dest: Some(dest), operation: op, jump: None });
                }
            }
        }
    }
    if let Some((q, op)) = parse_operation(v, i) {
        if q < v.len() && v[q] == ';' {
            let w = skip_spaces_exec(v, q + 1);
            if let Some((x, jump)) = parse_jump(v, w) {
                if line_end_ok_exec(v, x) {
                    return Some(Command { dest: None, operation: op, jump: Some(jump) });
                }
            }
        }
    }
    None
}

/// Parses one line of assembly into a statement.
fn parse_line(line: &str) -> (r: Option<Stmt>)
    ensures
        match asm_line(line@) {
            Some(sv) => r matches Some(s) && stmt_view(s) == sv,
            None => r is None,
        },
{
    let v = str_to_chars(line);
    let p = skip_spaces_exec(&v, 0);
    if p == v.len() {
        return Some(Stmt::Empty);
    }
    if starts_with_exec(&v, p, "//") {
        return Some(Stmt::Empty);
    }
    let c = v[p];
    if c == '(' {
        let (ne, name) = match parse_name_at(&v, p + 1) {
            Some(x) => x,
            None => {
                return None;
            },
        };
        if ne < v.len() && v[ne] == ')' && line_end_ok_exec(&v, ne + 1) {
            Some(Stmt::Label(name))
        } else {
            None
        }
    } else if c == '@' {
        parse_a_body(&v, p)
    } else {
        match parse_c_body(&v, p) {
            Some(cmd) => Some(Stmt::C(cmd)),
            None => None,
        }
    }
}

/// The view of each line paired with its parsed statement.
pub open spec fn pair_views(v: Seq<(String, Stmt)>) -> Seq<(Seq<char>, StmtV)> {
    Seq::new(v.len(), |i: int| (v[i].0@, stmt_view(v[i].1)))
}

/// The statements of an assembly text, each with its source line, or the
/// error message for the first malformed line.
pub open spec fn parse_hack_lines(lines: Seq<Seq<char>>) -> Result<
    Seq<(Seq<char>, StmtV)>,
    Seq<char>,
>
    decreases lines.len(),
{
    if lines.len() == 0 {
        Ok(Seq::empty())
    } else {
        match asm_line(lines[0]) {
            None => Err("Found parse error on line "@ + lines[0]),
            Some(sv) => match parse_hack_lines(lines.skip(1)) {
                Err(m) => Err(m),
                Ok(rest) => Ok(seq![(lines[0], sv)] + rest),
            },
        }
    }
}

use crate::assembler::ast::stmt_view;

/// Parses a whole assembly text, line by line, keeping each source line
/// beside its statement.
pub fn parse_hack(i: &str) -> (r: Result<Vec<(String, Stmt)>, String>)
    ensures
        match parse_hack_lines(spec_lines(i@)) {
            Ok(items) => r matches Ok(v) && pair_views(v@) == items,
            Err(m) => r matches Err(e) && e@ == m,
        },
{
    let lines = split_lines(i);
    let ghost lv = lines_view(lines@);
    let mut statements: Vec<(String, Stmt)> = Vec::new();
    let mut k: usize = 0;
    proof {
        assert(lv.skip(0) =~= lv);
        match parse_hack_lines(lv) {
            Ok(rest) => {
                assert(pair_views(statements@) + rest =~= rest);
            },
            Err(m) => {},
        }
    }
    while k < lines.len()
        invariant
            k <= lines@.len(),
            lv == lines_view(lines@),
            lv == spec_lines(i@),
            parse_hack_lines(lv) == (match parse_hack_lines(lv.skip(k as int)) {
                Ok(rest) => Ok::<Seq<(Seq<char>, StmtV)>, Seq<char>>(
                    pair_views(statements@) + rest,
                ),
                Err(m) => Err::<Seq<(Seq<char>, StmtV)>, Seq<char>>(m),
            }),
        decreases lines@.len() - k,
    {
        let ghost sfx = lv.skip(k as int);
        proof {
            assert(sfx[0] == lv[k as int]);
            assert(sfx.skip(1) =~= lv.skip(k + 1));
        }
        let line = &lines[k];
        let parsed = parse_line(line.as_str());
        match parsed {
            None => {
                let msg = concat2("Found parse error on line ", line.as_str());
                return Err(msg);
            },
            Some(stmt) => {
                let text_copy = line.clone();
                let ghost pre = pair_views(statements@);
                let ghost sv = stmt_view(stmt);
                statements.push((text_copy, stmt));
                proof {
                    assert(pair_views(statements@) =~= pre.push((lv[k as int], sv)));
                    match parse_hack_lines(lv.skip(k + 1)) {
                        Ok(rest) => {
                            assert(pre + (seq![(lv[k as int], sv)] + rest) =~= pair_views(
                                statements@,
                            ) + rest);
                        },
                        Err(m) => {},
                    }
                }
            },
        }
        k = k + 1;
    }
    proof {
        assert(lv.skip(k as int) =~= Seq::<Seq<char>>::empty());
        assert(pair_views(statements@) + Seq::<(Seq<char>, StmtV)>::empty() =~= pair_views(
            statements@,
        ));
    }
    Ok(statements)
}

} // verus!
