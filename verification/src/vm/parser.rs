//! The line-oriented parser for the stack-machine language.

use vstd::prelude::*;

use crate::strutil::{concat2, lines_view};
use crate::textparse::{
    all_digits, chars_to_string, dec_val, is_space_char, line_end_ok, line_end_ok_exec,
    parse_digits, skip_spaces, skip_spaces_exec, spec_lines, split_lines, starts_with,
    starts_with_exec, str_to_chars, token_end, token_end_exec, token_eq, token_is, token_is_exec,
};
use crate::vm::ast::{Address, Function, MemorySegment, Operation, Stmt};

verus! {

/// A parsed statement with its name operands as character sequences; the
/// shape that the grammar below yields.
pub enum OpV {
    Pop(Address),
    Push(Address),
    Label(Seq<char>),
    Function(Seq<char>, nat),
    Return,
    Call(Seq<char>, nat),
    ConditionalJump(Seq<char>),
    Jump(Seq<char>),
    Add,
    Sub,
    Neg,
    Eq,
    Gt,
    Lt,
    And,
    Or,
    Not,
}

/// What one line parses to: nothing, one statement, or an error.
pub enum LineOp {
    Blank,
    Op(OpV),
    Bad,
}

/// The abstract shape of a parsed statement.
pub open spec fn op_view(op: Operation) -> OpV {
    match op {
        Operation::Pop(a) => OpV::Pop(a),
        Operation::Push(a) => OpV::Push(a),
        Operation::Label(l) => OpV::Label(l@),
        Operation::Function(f) => OpV::Function(f.name@, f.num as nat),
        Operation::Return => OpV::Return,
        Operation::Call(f) => OpV::Call(f.name@, f.num as nat),
        Operation::ConditionalJump(l) => OpV::ConditionalJump(l@),
        Operation::Jump(l) => OpV::Jump(l@),
        Operation::Add => OpV::Add,
        Operation::Sub => OpV::Sub,
        Operation::Neg => OpV::Neg,
        Operation::Eq => OpV::Eq,
        Operation::Gt => OpV::Gt,
        Operation::Lt => OpV::Lt,
        Operation::And => OpV::And,
        Operation::Or => OpV::Or,
        Operation::Not => OpV::Not,
    }
}

/// The memory segment a token names.
pub open spec fn seg_of(tok: Seq<char>) -> Option<MemorySegment> {
    if tok == "argument"@ {
        Some(MemorySegment::Arguments)
    } else if tok == "local"@ {
        Some(MemorySegment::Local)
    } else if tok == "static"@ {
        Some(MemorySegment::Static)
    } else if tok == "constant"@ {
        Some(MemorySegment::Constant)
    } else if tok == "this"@ {
        Some(MemorySegment::This)
    } else if tok == "that"@ {
        Some(MemorySegment::That)
    } else if tok == "pointer"@ {
        Some(MemorySegment::Pointer)
    } else if tok == "temp"@ {
        Some(MemorySegment::Temp)
    } else {
        None
    }
}

/// After a `push` or `pop` keyword ending at `e`: a segment token, an
/// unsigned index, then only blanks or a comment.
pub open spec fn spec_seg_idx(s: Seq<char>, e: int) -> Option<Address> {
    if 0 <= e && e < s.len() && is_space_char(s[e]) {
        let j = skip_spaces(s, e);
        let te = token_end(s, j);
        match seg_of(s.subrange(j, te)) {
            None => None,
            Some(seg) => {
                if te < s.len() && is_space_char(s[te]) {
                    let k = skip_spaces(s, te);
                    let ke = token_end(s, k);
                    let tok = s.subrange(k, ke);
                    if k < ke && all_digits(tok) && dec_val(tok) <= u32::MAX && line_end_ok(
                        s,
                        ke,
                    ) {
                        Some(Address { memory_segment: seg, address: dec_val(tok) as u32 })
                    } else {
                        None
                    }
                } else {
                    None
                }
            },
        }
    } else {
        None
    }
}

/// After a branch keyword ending at `e`: one non-empty name token, then
/// only blanks or a comment.
pub open spec fn spec_name_arg(s: Seq<char>, e: int) -> Option<Seq<char>> {
    if 0 <= e && e < s.len() && is_space_char(s[e]) {
        let j = skip_spaces(s, e);
        let te = token_end(s, j);
        if j < te && line_end_ok(s, te) {
            Some(s.subrange(j, te))
        } else {
            None
        }
    } else {
        None
    }
}

/// After a `function` or `call` keyword ending at `e`: a name token and an
/// unsigned operand, then only blanks or a comment.
pub open spec fn spec_fn_arg(s: Seq<char>, e: int) -> Option<(Seq<char>, nat)> {
    if 0 <= e && e < s.len() && is_space_char(s[e]) {
        let j = skip_spaces(s, e);
        let te = token_end(s, j);
        if j < te && te < s.len() && is_space_char(s[te]) {
            let k = skip_spaces(s, te);
            let ke = token_end(s, k);
            let tok = s.subrange(k, ke);
            if k < ke && all_digits(tok) && dec_val(tok) <= u32::MAX && line_end_ok(s, ke) {
                Some((s.subrange(j, te), dec_val(tok) as nat))
            } else {
                None
            }
        } else {
            None
        }
    } else {
        None
    }
}

/// What one line of a `.vm` file means: a statement, nothing (blank line
/// or comment), or a parse error.
pub open spec fn line_op(s: Seq<char>) -> LineOp {
    let i = skip_spaces(s, 0);
    if i == s.len() {
        LineOp::Blank
    } else if starts_with(s, i, "//"@) {
        LineOp::Blank
    } else if token_is(s, i, "push"@) {
        match spec_seg_idx(s, i + 4) {
            Some(a) => LineOp::Op(OpV::Push(a)),
            None => LineOp::Bad,
        }
    } else if token_is(s, i, "pop"@) {
        match spec_seg_idx(s, i + 3) {
            Some(a) => LineOp::Op(OpV::Pop(a)),
            None => LineOp::Bad,
        }
    } else if token_is(s, i, "label"@) {
        match spec_name_arg(s, i + 5) {
            Some(n) => LineOp::Op(OpV::Label(n)),
            None => LineOp::Bad,
        }
    } else if token_is(s, i, "goto"@) {
        match spec_name_arg(s, i + 4) {
            Some(n) => LineOp::Op(OpV::Jump(n)),
            None => LineOp::Bad,
        }
    } else if token_is(s, i, "if-goto"@) {
        match spec_name_arg(s, i + 7) {
            Some(n) => LineOp::Op(OpV::ConditionalJump(n)),
            None => LineOp::Bad,
        }
    } else if token_is(s, i, "function"@) {
        match spec_fn_arg(s, i + 8) {
            Some((n, num)) => LineOp::Op(OpV::Function(n, num)),
            None => LineOp::Bad,
        }
    } else if token_is(s, i, "call"@) {
        match spec_fn_arg(s, i + 4) {
            Some((n, num)) => LineOp::Op(OpV::Call(n, num)),
            None => LineOp::Bad,
        }
    } else if token_is(s, i, "return"@) {
        if line_end_ok(s, i + 6) {
            LineOp::Op(OpV::Return)
        } else {
            LineOp::Bad
        }
    } else if token_is(s, i, "add"@) {
        if line_end_ok(s, i + 3) {
            LineOp::Op(OpV::Add)
        } else {
            LineOp::Bad
        }
    } else if token_is(s, i, "sub"@) {
        if line_end_ok(s, i + 3) {
            LineOp::Op(OpV::Sub)
        } else {
            LineOp::Bad
        }
    } else if token_is(s, i, "eq"@) {
        if line_end_ok(s, i + 2) {
            LineOp::Op(OpV::Eq)
        } else {
            LineOp::Bad
        }
    } else if token_is(s, i, "gt"@) {
        if line_end_ok(s, i + 2) {
            LineOp::Op(OpV::Gt)
        } else {
            LineOp::Bad
        }
    } else if token_is(s, i, "lt"@) {
        if line_end_ok(s, i + 2) {
            LineOp::Op(OpV::Lt)
        } else {
            LineOp::Bad
        }
    } else if token_is(s, i, "and"@) {
        if line_end_ok(s, i + 3) {
            LineOp::Op(OpV::And)
        } else {
            LineOp::Bad
        }
    } else if token_is(s, i, "or"@) {
        if line_end_ok(s, i + 2) {
            LineOp::Op(OpV::Or)
        } else {
            LineOp::Bad
        }
    } else if token_is(s, i, "neg"@) {
        if line_end_ok(s, i + 3) {
            LineOp::Op(OpV::Neg)
        } else {
            LineOp::Bad
        }
    } else if token_is(s, i, "not"@) {
        if line_end_ok(s, i + 3) {
            LineOp::Op(OpV::Not)
        } else {
            LineOp::Bad
        }
    } else {
        LineOp::Bad
    }
}

/// Reads the segment token `[j, te)`.
pub fn parse_memory_segment(v: &Vec<char>, j: usize, te: usize) -> (r: Option<MemorySegment>)
    requires
        j <= te <= v@.len(),
    ensures
        r == seg_of(v@.subrange(j as int, te as int)),
{
    if token_eq(v, j, te, "argument") {
        Some(MemorySegment::Arguments)
    } else if token_eq(v, j, te, "local") {
        Some(MemorySegment::Local)
    } else if token_eq(v, j, te, "static") {
        Some(MemorySegment::Static)
    } else if token_eq(v, j, te, "constant") {
        Some(MemorySegment::Constant)
    } else if token_eq(v, j, te, "this") {
        Some(MemorySegment::This)
    } else if token_eq(v, j, te, "that") {
        Some(MemorySegment::That)
    } else if token_eq(v, j, te, "pointer") {
        Some(MemorySegment::Pointer)
    } else if token_eq(v, j, te, "temp") {
        Some(MemorySegment::Temp)
    } else {
        None
    }
}

/// Reads the segment and index operands of `push` or `pop`.
fn parse_seg_idx(v: &Vec<char>, e: usize) -> (r: Option<Address>)
    requires
        e <= v@.len(),
    ensures
        r == spec_seg_idx(v@, e as int),
{
    if e == v.len() {
        return None;
    }
    let c = v[e];
    if !(c == ' ' || c == '\t') {
        return None;
    }
    let j = skip_spaces_exec(v, e);
    let te = token_end_exec(v, j);
    let seg = match parse_memory_segment(v, j, te) {
        Some(seg) => seg,
        None => {
            return None;
        },
    };
    if te == v.len() {
        return None;
    }
    let c2 = v[te];
    if !(c2 == ' ' || c2 == '\t') {
        return None;
    }
    let k = skip_spaces_exec(v, te);
    let ke = token_end_exec(v, k);
    let num = match parse_digits(v, k, ke, 0xFFFF_FFFF) {
        Some(n) => n,
        None => {
            return None;
        },
    };
    if !line_end_ok_exec(v, ke) {
        return None;
    }
    Some(Address { memory_segment: seg, address: num as u32 })
}

/// Reads the name operand of `label`, `goto` or `if-goto`.
fn parse_name_arg(v: &Vec<char>, e: usize) -> (r: Option<String>)
    requires
        e <= v@.len(),
    ensures
        match spec_name_arg(v@, e as int) {
            Some(n) => r matches Some(s) && s@ == n,
            None => r is None,
        },
{
    if e == v.len() {
        return None;
    }
    let c = v[e];
    if !(c == ' ' || c == '\t') {
        return None;
    }
    let j = skip_spaces_exec(v, e);
    let te = token_end_exec(v, j);
    if j == te {
        return None;
    }
    if !line_end_ok_exec(v, te) {
        return None;
    }
    Some(chars_to_string(v, j, te))
}

/// Reads the name and count operands of `function` or `call`.
fn parse_fn_arg(v: &Vec<char>, e: usize) -> (r: Option<(String, u32)>)
    requires
        e <= v@.len(),
    ensures
        match spec_fn_arg(v@, e as int) {
            Some((n, num)) => r matches Some(p) && p.0@ == n && p.1 as nat == num,
            None => r is None,
        },
{
    if e == v.len() {
        return None;
    }
    let c = v[e];
    if !(c == ' ' || c == '\t') {
        return None;
    }
    let j = skip_spaces_exec(v, e);
    let te = token_end_exec(v, j);
    if j == te {
        return None;
    }
    if te == v.len() {
        return None;
    }
    let c2 = v[te];
    if !(c2 == ' ' || c2 == '\t') {
        return None;
    }
    let k = skip_spaces_exec(v, te);
    let ke = token_end_exec(v, k);
    let num = match parse_digits(v, k, ke, 0xFFFF_FFFF) {
        Some(n) => n,
        None => {
            return None;
        },
    };
    if !line_end_ok_exec(v, ke) {
        return None;
    }
    Some((chars_to_string(v, j, te), num as u32))
}

/// Parses one line; yields `Some(None)` for a blank line or comment,
/// `Some(Some(op))` for a statement, `None` on a malformed line.
pub fn parse_operation(line: &str) -> (r: Option<Option<Operation>>)
    ensures
        match line_op(line@) {
            LineOp::Blank => r matches Some(o) && o is None,
            LineOp::Op(opv) => r matches Some(o) && o matches Some(op) && op_view(op) == opv,
            LineOp::Bad => r is None,
        },
{
    proof {
        reveal_strlit("push");
        reveal_strlit("pop");
        reveal_strlit("label");
        reveal_strlit("goto");
        reveal_strlit("if-goto");
        reveal_strlit("function");
        reveal_strlit("call");
        reveal_strlit("return");
        reveal_strlit("add");
        reveal_strlit("sub");
        reveal_strlit("eq");
        reveal_strlit("gt");
        reveal_strlit("lt");
        reveal_strlit("and");
        reveal_strlit("or");
        reveal_strlit("neg");
        reveal_strlit("not");
    }
    let v = str_to_chars(line);
    let i = skip_spaces_exec(&v, 0);
    if i == v.len() {
        return Some(None);
    }
    if starts_with_exec(&v, i, "//") {
        return Some(None);
    }
    if token_is_exec(&v, i, "push") {
        return match parse_seg_idx(&v, i + 4) {
            Some(a) => Some(Some(Operation::Push(a))),
            None => None,
        };
    }
    if token_is_exec(&v, i, "pop") {
        return match parse_seg_idx(&v, i + 3) {
            Some(a) => Some(Some(Operation::Pop(a))),
            None => None,
        };
    }
    if token_is_exec(&v, i, "label") {
        return match parse_name_arg(&v, i + 5) {
            Some(n) => Some(Some(Operation::Label(n))),
            None => None,
        };
    }
    if token_is_exec(&v, i, "goto") {
        return match parse_name_arg(&v, i + 4) {
            Some(n) => Some(Some(Operation::Jump(n))),
            None => None,
        };
    }
    if token_is_exec(&v, i, "if-goto") {
        return match parse_name_arg(&v, i + 7) {
            Some(n) => Some(Some(Operation::ConditionalJump(n))),
            None => None,
        };
    }
    if token_is_exec(&v, i, "function") {
        return match parse_fn_arg(&v, i + 8) {
            Some(p) => Some(Some(Operation::Function(Function { name: p.0, num: p.1 }))),
            None => None,
        };
    }
    if token_is_exec(&v, i, "call") {
        return match parse_fn_arg(&v, i + 4) {
            Some(p) => Some(Some(Operation::Call(Function { name: p.0, num: p.1 }))),
            None => None,
        };
    }
    if token_is_exec(&v, i, "return") {
        return if line_end_ok_exec(&v, i + 6) {
            Some(Some(Operation::Return))
        } else {
            None
        };
    }
    if token_is_exec(&v, i, "add") {
        return if line_end_ok_exec(&v, i + 3) {
            Some(Some(Operation::Add))
        } else {
            None
        };
    }
    if token_is_exec(&v, i, "sub") {
        return if line_end_ok_exec(&v, i + 3) {
            Some(Some(Operation::Sub))
        } else {
            None
        };
    }
    if token_is_exec(&v, i, "eq") {
        return if line_end_ok_exec(&v, i + 2) {
            Some(Some(Operation::Eq))
        } else {
            None
        };
    }
    if token_is_exec(&v, i, "gt") {
        return if line_end_ok_exec(&v, i + 2) {
            Some(Some(Operation::Gt))
        } else {
            None
        };
    }
    if token_is_exec(&v, i, "lt") {
        return if line_end_ok_exec(&v, i + 2) {
            Some(Some(Operation::Lt))
        } else {
            None
        };
    }
    if token_is_exec(&v, i, "and") {
        return if line_end_ok_exec(&v, i + 3) {
            Some(Some(Operation::And))
        } else {
            None
        };
    }
    if token_is_exec(&v, i, "or") {
        return if line_end_ok_exec(&v, i + 2) {
            Some(Some(Operation::Or))
        } else {
            None
        };
    }
    if token_is_exec(&v, i, "neg") {
        return if line_end_ok_exec(&v, i + 3) {
            Some(Some(Operation::Neg))
        } else {
            None
        };
    }
    if token_is_exec(&v, i, "not") {
        return if line_end_ok_exec(&v, i + 3) {
            Some(Some(Operation::Not))
        } else {
            None
        };
    }
    None
}

/// The text and abstract statement of each parsed line.
pub open spec fn stmt_views(v: Seq<Stmt>) -> Seq<(Seq<char>, OpV)> {
    Seq::new(v.len(), |i: int| (v[i].text@, op_view(v[i].operation)))
}

/// The statements of a `.vm` text, each with its source line, or the
/// error message for the first malformed line.
pub open spec fn parse_vm_lines(lines: Seq<Seq<char>>) -> Result<Seq<(Seq<char>, OpV)>, Seq<char>>
    decreases lines.len(),
{
    if lines.len() == 0 {
        Ok(Seq::empty())
    } else {
        match line_op(lines[0]) {
            LineOp::Bad => Err("Error occurred parsing line "@ + lines[0]),
            LineOp::Blank => parse_vm_lines(lines.skip(1)),
            LineOp::Op(opv) => match parse_vm_lines(lines.skip(1)) {
                Err(m) => Err(m),
                Ok(rest) => Ok(seq![(lines[0], opv)] + rest),
            },
        }
    }
}

/// Parses a `.vm` text into statements, line by line; blank lines and
/// comments yield nothing, and the first malformed line is the error.
pub fn parser(text: &str) -> (r: Result<Vec<Stmt>, String>)
    ensures
        match parse_vm_lines(spec_lines(text@)) {
            Ok(items) => r matches Ok(v) && stmt_views(v@) == items,
            Err(m) => r matches Err(e) && e@ == m,
        },
{
    let lines = split_lines(text);
    let ghost lv = lines_view(lines@);
    let mut statements: Vec<Stmt> = Vec::new();
    let mut i: usize = 0;
    proof {
        assert(lv.skip(0) =~= lv);
        match parse_vm_lines(lv) {
            Ok(rest) => {
                assert(stmt_views(statements@) + rest =~= rest);
            },
            Err(m) => {},
        }
    }
    while i < lines.len()
        invariant
            i <= lines@.len(),
            lv == lines_view(lines@),
            lv == spec_lines(text@),
            parse_vm_lines(lv) == (match parse_vm_lines(lv.skip(i as int)) {
                Ok(rest) => Ok::<Seq<(Seq<char>, OpV)>, Seq<char>>(stmt_views(statements@) + rest),
                Err(m) => Err::<Seq<(Seq<char>, OpV)>, Seq<char>>(m),
            }),
        decreases lines@.len() - i,
    {
        let ghost sfx = lv.skip(i as int);
        proof {
            assert(sfx[0] == lv[i as int]);
            assert(sfx.skip(1) =~= lv.skip(i + 1));
        }
        let line = &lines[i];
        let parsed = parse_operation(line.as_str());
        match parsed {
            None => {
                let msg = concat2("Error occurred parsing line ", line.as_str());
                return Err(msg);
            },
            Some(None) => {},
            Some(Some(op)) => {
                let text_copy = line.clone();
                let ghost pre = stmt_views(statements@);
                let ghost opv = op_view(op);
                statements.push(Stmt { operation: op, text: text_copy });
                proof {
                    assert(stmt_views(statements@) =~= pre.push((lv[i as int], opv)));
                    match parse_vm_lines(lv.skip(i + 1)) {
                        Ok(rest) => {
                            assert(pre + (seq![(lv[i as int], opv)] + rest) =~= stmt_views(
                                statements@,
                            ) + rest);
                        },
                        Err(m) => {},
                    }
                }
            },
        }
        i = i + 1;
    }
    proof {
        assert(lv.skip(i as int) =~= Seq::<Seq<char>>::empty());
        assert(stmt_views(statements@) + Seq::<(Seq<char>, OpV)>::empty() =~= stmt_views(
            statements@,
        ));
    }
    Ok(statements)
}

} // verus!
