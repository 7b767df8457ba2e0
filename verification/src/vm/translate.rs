//! Expansion of arithmetic, logical, branch and function-protocol
//! statements, and the per-file translation driver.

use vstd::prelude::*;
use vstd::string::StringExecFns;

use crate::strutil::{
    concat2, concat3, dec_str, join, join_lines, lines_view, push_line, push_line_string,
    u32_to_string, usize_to_string,
};
use crate::vm::ast::{Function, Operation, Stmt};
use crate::vm::translate_pop::{pop_lines, translate_pop};
use crate::vm::translate_push::{push_lines, translate_push};

verus! {

/// The expansion of `add`.
pub open spec fn add_lines() -> Seq<Seq<char>> {
    seq!["@SP"@, "AM=M-1"@, "D=M"@, "A=A-1"@, "M=D+M"@]
}

/// The expansion of `sub`.
pub open spec fn sub_lines() -> Seq<Seq<char>> {
    seq!["@SP"@, "AM=M-1"@, "D=M"@, "A=A-1"@, "M=M-D"@]
}

/// The expansion of `and`.
pub open spec fn and_lines() -> Seq<Seq<char>> {
    seq!["@SP"@, "AM=M-1"@, "D=M"@, "A=A-1"@, "M=D&M"@]
}

/// The expansion of `or`.
pub open spec fn or_lines() -> Seq<Seq<char>> {
    seq!["@SP"@, "AM=M-1"@, "D=M"@, "A=A-1"@, "M=D|M"@]
}

/// The expansion of `neg`.
pub open spec fn neg_lines() -> Seq<Seq<char>> {
    seq!["@SP"@, "A=M-1"@, "M=-M"@]
}

/// The expansion of `not`.
pub open spec fn not_lines() -> Seq<Seq<char>> {
    seq!["@SP"@, "A=M-1"@, "M=!M"@]
}

/// The label that closes the n-th `eq` of one file.
pub open spec fn eq_end_label(file: Seq<char>, n: nat) -> Seq<char> {
    file + ".EQ_END_"@ + dec_str(n)
}

/// The label that closes the n-th `gt` of one file.
pub open spec fn gt_end_label(file: Seq<char>, n: nat) -> Seq<char> {
    file + ".GT_END_"@ + dec_str(n)
}

/// The label that closes the n-th `lt` of one file.
pub open spec fn lt_end_label(file: Seq<char>, n: nat) -> Seq<char> {
    file + ".LT_END_"@ + dec_str(n)
}

/// The loop label of the n-th `return` of one file.
pub open spec fn return_loop_label(file: Seq<char>, n: nat) -> Seq<char> {
    file + ".RETURN_DMA_START_"@ + dec_str(n)
}

/// The return-address label of the n-th `call` of one file.
pub open spec fn call_return_label(file: Seq<char>, n: nat) -> Seq<char> {
    file + ".RETURN_ADDRESS_CALL_"@ + dec_str(n)
}

/// The expansion of the n-th `eq` of one file: the result cell is preset to
/// true (-1) and overwritten with false (0) unless the difference is zero.
pub open spec fn eq_lines(file: Seq<char>, n: nat) -> Seq<Seq<char>> {
    seq![
        "@SP"@,
        "AM=M-1"@,
        "D=M"@,
        "A=A-1"@,
        "MD=D-M"@,
        "M=M-1"@,
        "@"@ + eq_end_label(file, n),
        "D;JEQ"@,
        "@SP"@,
        "A=M-1"@,
        "M=0"@,
        "("@ + eq_end_label(file, n) + ")"@,
    ]
}

/// The expansion of the n-th `gt` of one file.
pub open spec fn gt_lines(file: Seq<char>, n: nat) -> Seq<Seq<char>> {
    seq![
        "@SP"@,
        "AM=M-1"@,
        "D=M"@,
        "A=A-1"@,
        "D=M-D"@,
        "M=-1"@,
        "@"@ + gt_end_label(file, n),
        "D;JGT"@,
        "@SP"@,
        "A=M-1"@,
        "M=0"@,
        "("@ + gt_end_label(file, n) + ")"@,
    ]
}

/// The expansion of the n-th `lt` of one file.
pub open spec fn lt_lines(file: Seq<char>, n: nat) -> Seq<Seq<char>> {
    seq![
        "@SP"@,
        "AM=M-1"@,
        "D=M"@,
        "A=A-1"@,
        "D=M-D"@,
        "M=-1"@,
        "@"@ + lt_end_label(file, n),
        "D;JLT"@,
        "@SP"@,
        "A=M-1"@,
        "M=0"@,
        "("@ + lt_end_label(file, n) + ")"@,
    ]
}

/// The expansion of `label X`.
pub open spec fn label_lines(label: Seq<char>) -> Seq<Seq<char>> {
    seq!["("@ + label + ")"@]
}

/// The expansion of `if-goto X`: pop, jump when non-zero.
pub open spec fn if_goto_lines(label: Seq<char>) -> Seq<Seq<char>> {
    seq!["@SP"@, "AM=M-1"@, "D=M"@, "@"@ + label, "D;JNE"@]
}

/// The expansion of `goto X`.
pub open spec fn goto_lines(label: Seq<char>) -> Seq<Seq<char>> {
    seq!["@"@ + label, "0;JMP"@]
}

/// The body of the local-initialisation loop of `function F N`: N cells
/// set to zero, walking A forward.
pub open spec fn local_init_lines(num: nat) -> Seq<Seq<char>> {
    Seq::new(2 * num, |i: int| if i % 2 == 0 { "M=0"@ } else { "A=A+1"@ })
}

/// The expansion of `function F N`: the entry label, N zeroed locals, and
/// SP moved past them.
pub open spec fn function_lines(name: Seq<char>, num: nat) -> Seq<Seq<char>> {
    seq!["("@ + name + ")"@, "@LCL"@, "A=M"@] + local_init_lines(num) + seq![
        "@"@ + dec_str(num),
        "D=A"@,
        "@SP"@,
        "M=D+M"@,
    ]
}

/// The expansion of the n-th `call F N` of one file: push the return
/// address and the four saved pointers, reposition ARG and LCL, jump, and
/// declare the return-address label.
pub open spec fn call_lines(name: Seq<char>, num: nat, file: Seq<char>, n: nat) -> Seq<Seq<char>> {
    seq![
        "@"@ + call_return_label(file, n),
        "D=A"@,
        "@SP"@,
        "M=M+1"@,
        "A=M-1"@,
        "M=D"@,
        "@LCL"@,
        "D=M"@,
        "@SP"@,
        "M=M+1"@,
        "A=M-1"@,
        "M=D"@,
        "@ARG"@,
        "D=M"@,
        "@SP"@,
        "M=M+1"@,
        "A=M-1"@,
        "M=D"@,
        "@THIS"@,
        "D=M"@,
        "@SP"@,
        "M=M+1"@,
        "A=M-1"@,
        "M=D"@,
        "@THAT"@,
        "D=M"@,
        "@SP"@,
        "M=M+1"@,
        "A=M-1"@,
        "M=D"@,
        "@SP"@,
        "D=M"@,
        "@"@ + dec_str((5 + num) as nat),
        "D=D-A"@,
        "@ARG"@,
        "M=D"@,
        "@SP"@,
        "D=M"@,
        "@LCL"@,
        "M=D"@,
        "@"@ + name,
        "0;JMP"@,
        "("@ + call_return_label(file, n) + ")"@,
    ]
}

/// The expansion of the n-th `return` of one file: save endFrame and the
/// return address, store the result at `*ARG`, reset SP, restore the four
/// saved pointers in a small loop, then jump to the return address.
pub open spec fn return_lines(file: Seq<char>, n: nat) -> Seq<Seq<char>> {
    seq![
        "@LCL"@,
        "D=M"@,
        "@R13"@,
        "M=D"@,
        "@5"@,
        "D=A"@,
        "@R13"@,
        "A=M-D"@,
        "D=M"@,
        "@R15"@,
        "M=D"@,
        "@SP"@,
        "A=M-1"@,
        "D=M"@,
        "@ARG"@,
        "A=M"@,
        "M=D"@,
        "@ARG"@,
        "D=M+1"@,
        "@SP"@,
        "M=D"@,
        "@THAT"@,
        "D=A"@,
        "@R14"@,
        "M=D"@,
        "("@ + return_loop_label(file, n) + ")"@,
        "@R13"@,
        "AM=M-1"@,
        "D=M"@,
        "@R14"@,
        "A=M"@,
        "M=D"@,
        "@R14"@,
        "M=M-1"@,
        "D=M"@,
        "@"@ + return_loop_label(file, n),
        "D;JGT"@,
        "@R15"@,
        "A=M"@,
        "0;JMP"@,
    ]
}

/// Expands `add`.
pub fn translate_add() -> (r: Vec<String>)
    ensures
        lines_view(r@) == add_lines(),
{
    let mut out: Vec<String> = Vec::new();
    push_line(&mut out, "@SP");
    push_line(&mut out, "AM=M-1");
    push_line(&mut out, "D=M");
    push_line(&mut out, "A=A-1");
    push_line(&mut out, "M=D+M");
    proof {
        assert(lines_view(out@) =~= add_lines());
    }
    out
}

/// Expands `sub`.
pub fn translate_sub() -> (r: Vec<String>)
    ensures
        lines_view(r@) == sub_lines(),
{
    let mut out: Vec<String> = Vec::new();
    push_line(&mut out, "@SP");
    push_line(&mut out, "AM=M-1");
    push_line(&mut out, "D=M");
    push_line(&mut out, "A=A-1");
    push_line(&mut out, "M=M-D");
    proof {
        assert(lines_view(out@) =~= sub_lines());
    }
    out
}

/// Expands `and`.
pub fn translate_and() -> (r: Vec<String>)
    ensures
        lines_view(r@) == and_lines(),
{
    let mut out: Vec<String> = Vec::new();
    push_line(&mut out, "@SP");
    push_line(&mut out, "AM=M-1");
    push_line(&mut out, "D=M");
    push_line(&mut out, "A=A-1");
    push_line(&mut out, "M=D&M");
    proof {
        assert(lines_view(out@) =~= and_lines());
    }
    out
}

/// Expands `or`.
pub fn translate_or() -> (r: Vec<String>)
    ensures
        lines_view(r@) == or_lines(),
{
    let mut out: Vec<String> = Vec::new();
    push_line(&mut out, "@SP");
    push_line(&mut out, "AM=M-1");
    push_line(&mut out, "D=M");
    push_line(&mut out, "A=A-1");
    push_line(&mut out, "M=D|M");
    proof {
        assert(lines_view(out@) =~= or_lines());
    }
    out
}

/// Expands `neg`.
pub fn translate_neg() -> (r: Vec<String>)
    ensures
        lines_view(r@) == neg_lines(),
{
    let mut out: Vec<String> = Vec::new();
    push_line(&mut out, "@SP");
    push_line(&mut out, "A=M-1");
    push_line(&mut out, "M=-M");
    proof {
        assert(lines_view(out@) =~= neg_lines());
    }
    out
}

/// Expands `not`.
pub fn translate_not() -> (r: Vec<String>)
    ensures
        lines_view(r@) == not_lines(),
{
    let mut out: Vec<String> = Vec::new();
    push_line(&mut out, "@SP");
    push_line(&mut out, "A=M-1");
    push_line(&mut out, "M=!M");
    proof {
        assert(lines_view(out@) =~= not_lines());
    }
    out
}

/// Builds `file_name` + `mid` + the decimal of `n`.
fn counter_label(file_name: &str, mid: &str, n: usize) -> (s: String)
    ensures
        s@ == file_name@ + mid@ + dec_str(n as nat),
{
    let mut s = String::from_str(file_name);
    s.append(mid);
    let d = usize_to_string(n);
    s.append(d.as_str());
    s
}

/// Expands the next `eq`, advancing the per-file counter.
pub fn translate_eq(eq_counter: &mut usize, file_name: &str) -> (r: Vec<String>)
    requires
        *old(eq_counter) < usize::MAX,
    ensures
        lines_view(r@) == eq_lines(file_name@, *old(eq_counter) as nat),
        *final(eq_counter) == *old(eq_counter) + 1,
{
    let label = counter_label(file_name, ".EQ_END_", *eq_counter);
    let mut out: Vec<String> = Vec::new();
    push_line(&mut out, "@SP");
    push_line(&mut out, "AM=M-1");
    push_line(&mut out, "D=M");
    push_line(&mut out, "A=A-1");
    push_line(&mut out, "MD=D-M");
    push_line(&mut out, "M=M-1");
    push_line_string(&mut out, concat2("@", label.as_str()));
    push_line(&mut out, "D;JEQ");
    push_line(&mut out, "@SP");
    push_line(&mut out, "A=M-1");
    push_line(&mut out, "M=0");
    push_line_string(&mut out, concat3("(", label.as_str(), ")"));
    *eq_counter = *eq_counter + 1;
    proof {
        assert(lines_view(out@) =~= eq_lines(file_name@, *old(eq_counter) as nat));
    }
    out
}

/// Expands the next `gt`, advancing the per-file counter.
pub fn translate_gt(gt_counter: &mut usize, file_name: &str) -> (r: Vec<String>)
    requires
        *old(gt_counter) < usize::MAX,
    ensures
        lines_view(r@) == gt_lines(file_name@, *old(gt_counter) as nat),
        *final(gt_counter) == *old(gt_counter) + 1,
{
    let label = counter_label(file_name, ".GT_END_", *gt_counter);
    let mut out: Vec<String> = Vec::new();
    push_line(&mut out, "@SP");
    push_line(&mut out, "AM=M-1");
    push_line(&mut out, "D=M");
    push_line(&mut out, "A=A-1");
    push_line(&mut out, "D=M-D");
    push_line(&mut out, "M=-1");
    push_line_string(&mut out, concat2("@", label.as_str()));
    push_line(&mut out, "D;JGT");
    push_line(&mut out, "@SP");
    push_line(&mut out, "A=M-1");
    push_line(&mut out, "M=0");
    push_line_string(&mut out, concat3("(", label.as_str(), ")"));
    *gt_counter = *gt_counter + 1;
    proof {
        assert(lines_view(out@) =~= gt_lines(file_name@, *old(gt_counter) as nat));
    }
    out
}

/// Expands the next `lt`, advancing the per-file counter.
pub fn translate_lt(lt_counter: &mut usize, file_name: &str) -> (r: Vec<String>)
    requires
        *old(lt_counter) < usize::MAX,
    ensures
        lines_view(r@) == lt_lines(file_name@, *old(lt_counter) as nat),
        *final(lt_counter) == *old(lt_counter) + 1,
{
    let label = counter_label(file_name, ".LT_END_", *lt_counter);
    let mut out: Vec<String> = Vec::new();
    push_line(&mut out, "@SP");
    push_line(&mut out, "AM=M-1");
    push_line(&mut out, "D=M");
    push_line(&mut out, "A=A-1");
    push_line(&mut out, "D=M-D");
    push_line(&mut out, "M=-1");
    push_line_string(&mut out, concat2("@", label.as_str()));
    push_line(&mut out, "D;JLT");
    push_line(&mut out, "@SP");
    push_line(&mut out, "A=M-1");
    push_line(&mut out, "M=0");
    push_line_string(&mut out, concat3("(", label.as_str(), ")"));
    *lt_counter = *lt_counter + 1;
    proof {
        assert(lines_view(out@) =~= lt_lines(file_name@, *old(lt_counter) as nat));
    }
    out
}

/// Expands `label X`.
pub fn translate_label(label: &str) -> (r: Vec<String>)
    ensures
        lines_view(r@) == label_lines(label@),
{
    let mut out: Vec<String> = Vec::new();
    push_line_string(&mut out, concat3("(", label, ")"));
    proof {
        assert(lines_view(out@) =~= label_lines(label@));
    }
    out
}

/// Expands `if-goto X`.
pub fn translate_if_goto(label: &str) -> (r: Vec<String>)
    ensures
        lines_view(r@) == if_goto_lines(label@),
{
    let mut out: Vec<String> = Vec::new();
    push_line(&mut out, "@SP");
    push_line(&mut out, "AM=M-1");
    push_line(&mut out, "D=M");
    push_line_string(&mut out, concat2("@", label));
    push_line(&mut out, "D;JNE");
    proof {
        assert(lines_view(out@) =~= if_goto_lines(label@));
    }
    out
}

/// Expands `goto X`.
pub fn translate_goto(label: &str) -> (r: Vec<String>)
    ensures
        lines_view(r@) == goto_lines(label@),
{
    let mut out: Vec<String> = Vec::new();
    push_line_string(&mut out, concat2("@", label));
    push_line(&mut out, "0;JMP");
    proof {
        assert(lines_view(out@) =~= goto_lines(label@));
    }
    out
}

/// Expands `function F N`.
pub fn translate_function(function: &Function) -> (r: Vec<String>)
    ensures
        lines_view(r@) == function_lines(function.name@, function.num as nat),
{
    let mut out: Vec<String> = Vec::new();
    push_line_string(&mut out, concat3("(", function.name.as_str(), ")"));
    push_line(&mut out, "@LCL");
    push_line(&mut out, "A=M");

    let ghost head = lines_view(out@);
    let mut i: u32 = 0;
    while i < function.num
        invariant
            i <= function.num,
            out@.len() == 3 + 2 * i,
            lines_view(out@) == head + local_init_lines(i as nat),
        decreases function.num - i,
    {
        push_line(&mut out, "M=0");
        push_line(&mut out, "A=A+1");
        i = i + 1;
        proof {
            assert(lines_view(out@) =~= head + local_init_lines(i as nat));
        }
    }

    let num = u32_to_string(function.num);
    push_line_string(&mut out, concat2("@", num.as_str()));
    push_line(&mut out, "D=A");
    push_line(&mut out, "@SP");
    push_line(&mut out, "M=D+M");
    proof {
        assert(lines_view(out@) =~= function_lines(function.name@, function.num as nat));
    }
    out
}

/// Expands the next `call F N`, advancing the per-file counter.
pub fn translate_call(function: &Function, call_count: &mut usize, file_name: &str) -> (r: Vec<
    String,
>)
    requires
        *old(call_count) < usize::MAX,
    ensures
        lines_view(r@) == call_lines(
            function.name@,
            function.num as nat,
            file_name@,
            *old(call_count) as nat,
        ),
        *final(call_count) == *old(call_count) + 1,
{
    let label = counter_label(file_name, ".RETURN_ADDRESS_CALL_", *call_count);
    let mut out: Vec<String> = Vec::new();
    push_line_string(&mut out, concat2("@", label.as_str()));
    push_line(&mut out, "D=A");
    push_line(&mut out, "@SP");
    push_line(&mut out, "M=M+1");
    push_line(&mut out, "A=M-1");
    push_line(&mut out, "M=D");

    push_line(&mut out, "@LCL");
    push_line(&mut out, "D=M");
    push_line(&mut out, "@SP");
    push_line(&mut out, "M=M+1");
    push_line(&mut out, "A=M-1");
    push_line(&mut out, "M=D");

    push_line(&mut out, "@ARG");
    push_line(&mut out, "D=M");
    push_line(&mut out, "@SP");
    push_line(&mut out, "M=M+1");
    push_line(&mut out, "A=M-1");
    push_line(&mut out, "M=D");

    push_line(&mut out, "@THIS");
    push_line(&mut out, "D=M");
    push_line(&mut out, "@SP");
    push_line(&mut out, "M=M+1");
    push_line(&mut out, "A=M-1");
    push_line(&mut out, "M=D");

    push_line(&mut out, "@THAT");
    push_line(&mut out, "D=M");
    push_line(&mut out, "@SP");
    push_line(&mut out, "M=M+1");
    push_line(&mut out, "A=M-1");
    push_line(&mut out, "M=D");

    push_line(&mut out, "@SP");
    push_line(&mut out, "D=M");
    let offset = u32_to_string_plus_5(function.num);
    push_line_string(&mut out, concat2("@", offset.as_str()));
    push_line(&mut out, "D=D-A");
    push_line(&mut out, "@ARG");
    push_line(&mut out, "M=D");

    push_line(&mut out, "@SP");
    push_line(&mut out, "D=M");
    push_line(&mut out, "@LCL");
    push_line(&mut out, "M=D");

    push_line_string(&mut out, concat2("@", function.name.as_str()));
    push_line(&mut out, "0;JMP");

    push_line_string(&mut out, concat3("(", label.as_str(), ")"));

    *call_count = *call_count + 1;
    proof {
        assert(lines_view(out@) =~= call_lines(
            function.name@,
            function.num as nat,
            file_name@,
            *old(call_count) as nat,
        ));
    }
    out
}

/// Renders `5 + n` in decimal; the call protocol skips the five saved
/// frame words plus the arguments.
fn u32_to_string_plus_5(n: u32) -> (s: String)
    ensures
        s@ == dec_str((5 + n) as nat),
{
    let wide: u64 = (n as u64) + 5;
    crate::strutil::u64_to_string(wide)
}

/// Expands the next `return`, advancing the per-file counter.
pub fn translate_return(return_counter: &mut usize, file_name: &str) -> (r: Vec<String>)
    requires
        *old(return_counter) < usize::MAX,
    ensures
        lines_view(r@) == return_lines(file_name@, *old(return_counter) as nat),
        *final(return_counter) == *old(return_counter) + 1,
{
    let label = counter_label(file_name, ".RETURN_DMA_START_", *return_counter);
    let mut out: Vec<String> = Vec::new();

    push_line(&mut out, "@LCL");
    push_line(&mut out, "D=M");
    push_line(&mut out, "@R13");
    push_line(&mut out, "M=D");

    push_line(&mut out, "@5");
    push_line(&mut out, "D=A");
    push_line(&mut out, "@R13");
    push_line(&mut out, "A=M-D");
    push_line(&mut out, "D=M");
    push_line(&mut out, "@R15");
    push_line(&mut out, "M=D");

    push_line(&mut out, "@SP");
    push_line(&mut out, "A=M-1");
    push_line(&mut out, "D=M");
    push_line(&mut out, "@ARG");
    push_line(&mut out, "A=M");
    push_line(&mut out, "M=D");

    push_line(&mut out, "@ARG");
    push_line(&mut out, "D=M+1");
    push_line(&mut out, "@SP");
    push_line(&mut out, "M=D");

    push_line(&mut out, "@THAT");
    push_line(&mut out, "D=A");
    push_line(&mut out, "@R14");
    push_line(&mut out, "M=D");

    push_line_string(&mut out, concat3("(", label.as_str(), ")"));
    push_line(&mut out, "@R13");
    push_line(&mut out, "AM=M-1");
    push_line(&mut out, "D=M");
    push_line(&mut out, "@R14");
    push_line(&mut out, "A=M");
    push_line(&mut out, "M=D");
    push_line(&mut out, "@R14");
    push_line(&mut out, "M=M-1");

    push_line(&mut out, "D=M");
    push_line_string(&mut out, concat2("@", label.as_str()));
    push_line(&mut out, "D;JGT");

    push_line(&mut out, "@R15");
    push_line(&mut out, "A=M");
    push_line(&mut out, "0;JMP");

    *return_counter = *return_counter + 1;
    proof {
        assert(lines_view(out@) =~= return_lines(file_name@, *old(return_counter) as nat));
    }
    out
}

/// `// <original line>`: the comment echoed above each expansion.
pub open spec fn comment_line(text: Seq<char>) -> Seq<char> {
    "// "@ + text
}

/// The expansion of one statement under the current counter values, or
/// the error text for an unsupported statement.
pub open spec fn stmt_lines(
    op: Operation,
    file: Seq<char>,
    eq: nat,
    gt: nat,
    lt: nat,
    ret: nat,
    call: nat,
) -> Result<Seq<Seq<char>>, Seq<char>> {
    match op {
        Operation::Push(a) => push_lines(a, file),
        Operation::Pop(a) => pop_lines(a, file),
        Operation::Add => Ok(add_lines()),
        Operation::Sub => Ok(sub_lines()),
        Operation::Neg => Ok(neg_lines()),
        Operation::Eq => Ok(eq_lines(file, eq)),
        Operation::Gt => Ok(gt_lines(file, gt)),
        Operation::Lt => Ok(lt_lines(file, lt)),
        Operation::And => Ok(and_lines()),
        Operation::Or => Ok(or_lines()),
        Operation::Not => Ok(not_lines()),
        Operation::Label(l) => Ok(label_lines(l@)),
        Operation::ConditionalJump(l) => Ok(if_goto_lines(l@)),
        Operation::Jump(l) => Ok(goto_lines(l@)),
        Operation::Function(f) => Ok(function_lines(f.name@, f.num as nat)),
        Operation::Return => Ok(return_lines(file, ret)),
        Operation::Call(f) => Ok(call_lines(f.name@, f.num as nat, file, call)),
    }
}

/// How one statement advances the five per-file label counters.
pub open spec fn bump_counters(op: Operation, eq: nat, gt: nat, lt: nat, ret: nat, call: nat) -> (
    nat,
    nat,
    nat,
    nat,
    nat,
) {
    match op {
        Operation::Eq => (eq + 1, gt, lt, ret, call),
        Operation::Gt => (eq, gt + 1, lt, ret, call),
        Operation::Lt => (eq, gt, lt + 1, ret, call),
        Operation::Return => (eq, gt, lt, ret + 1, call),
        Operation::Call(f) => (eq, gt, lt, ret, call + 1),
        _ => (eq, gt, lt, ret, call),
    }
}

/// The lines of a whole translation, each statement's expansion preceded
/// by a comment holding its source line, or the first error.
pub open spec fn translation_lines(
    stmts: Seq<Stmt>,
    file: Seq<char>,
    eq: nat,
    gt: nat,
    lt: nat,
    ret: nat,
    call: nat,
) -> Result<Seq<Seq<char>>, Seq<char>>
    decreases stmts.len(),
{
    if stmts.len() == 0 {
        Ok(Seq::empty())
    } else {
        match stmt_lines(stmts[0].operation, file, eq, gt, lt, ret, call) {
            Err(m) => Err(m),
            Ok(ls) => {
                let (eq2, gt2, lt2, ret2, call2) = bump_counters(
                    stmts[0].operation,
                    eq,
                    gt,
                    lt,
                    ret,
                    call,
                );
                match translation_lines(stmts.skip(1), file, eq2, gt2, lt2, ret2, call2) {
                    Err(m) => Err(m),
                    Ok(rest) => Ok(seq![comment_line(stmts[0].text@)] + ls + rest),
                }
            },
        }
    }
}

/// The full text of a translation: its lines joined with newlines, or the
/// first error.
pub open spec fn spec_translate_ast(stmts: Seq<Stmt>, file: Seq<char>) -> Result<
    Seq<char>,
    Seq<char>,
> {
    match translation_lines(stmts, file, 0, 0, 0, 0, 0) {
        Ok(ls) => Ok(join_lines(ls)),
        Err(m) => Err(m),
    }
}

/// Translates a parsed file: each statement is echoed as a comment and
/// followed by its expansion; the five label families count up per file.
pub fn translate_ast(ast: Vec<Stmt>, file_name: &str) -> (r: Result<String, String>)
    ensures
        match spec_translate_ast(ast@, file_name@) {
            Ok(text) => r matches Ok(s) && s@ == text,
            Err(m) => r matches Err(e) && e@ == m,
        },
{
    let mut output: Vec<String> = Vec::new();
    let mut eq_counter: usize = 0;
    let mut gt_counter: usize = 0;
    let mut lt_counter: usize = 0;
    let mut return_counter: usize = 0;
    let mut call_counter: usize = 0;

    proof {
        assert(ast@.skip(0) =~= ast@);
        match translation_lines(ast@, file_name@, 0, 0, 0, 0, 0) {
            Ok(rest) => {
                assert(lines_view(output@) + rest =~= rest);
            },
            Err(m) => {},
        }
    }
    let mut i: usize = 0;
    while i < ast.len()
        invariant
            i <= ast@.len(),
            eq_counter <= i && gt_counter <= i && lt_counter <= i && return_counter <= i
                && call_counter <= i,
            translation_lines(ast@, file_name@, 0, 0, 0, 0, 0) == (match translation_lines(
                ast@.skip(i as int),
                file_name@,
                eq_counter as nat,
                gt_counter as nat,
                lt_counter as nat,
                return_counter as nat,
                call_counter as nat,
            ) {
                Ok(rest) => Ok::<Seq<Seq<char>>, Seq<char>>(lines_view(output@) + rest),
                Err(m) => Err::<Seq<Seq<char>>, Seq<char>>(m),
            }),
        decreases ast@.len() - i,
    {
        let ghost e0 = eq_counter as nat;
        let ghost g0 = gt_counter as nat;
        let ghost l0 = lt_counter as nat;
        let ghost r0 = return_counter as nat;
        let ghost c0 = call_counter as nat;
        let ghost out0 = lines_view(output@);
        let ghost sfx = ast@.skip(i as int);
        proof {
            assert(sfx[0] == ast@[i as int]);
            assert(sfx.skip(1) =~= ast@.skip(i + 1));
        }
        let stmt = &ast[i];
        let lines_result: Result<Vec<String>, String> = match &stmt.operation {
            Operation::Push(address) => translate_push(address, file_name),
            Operation::Pop(address) => translate_pop(address, file_name),
            Operation::Add => Ok(translate_add()),
            Operation::Sub => Ok(translate_sub()),
            Operation::Neg => Ok(translate_neg()),
            Operation::Eq => Ok(translate_eq(&mut eq_counter, file_name)),
            Operation::Gt => Ok(translate_gt(&mut gt_counter, file_name)),
            Operation::Lt => Ok(translate_lt(&mut lt_counter, file_name)),
            Operation::And => Ok(translate_and()),
            Operation::Or => Ok(translate_or()),
            Operation::Not => Ok(translate_not()),
            Operation::Label(label) => Ok(translate_label(label.as_str())),
            Operation::ConditionalJump(label) => Ok(translate_if_goto(label.as_str())),
            Operation::Jump(label) => Ok(translate_goto(label.as_str())),
            Operation::Function(function) => Ok(translate_function(function)),
            Operation::Return => Ok(translate_return(&mut return_counter, file_name)),
            Operation::Call(function) => Ok(
                translate_call(function, &mut call_counter, file_name),
            ),
        };
        let mut asm_lines = match lines_result {
            Ok(lines) => lines,
            Err(e) => {
                proof {
                    assert(translation_lines(sfx, file_name@, e0, g0, l0, r0, c0) is Err);
                }
                return Err(e);
            },
        };
        let ghost al = lines_view(asm_lines@);
        push_line_string(&mut output, concat2("// ", stmt.text.as_str()));
        let ghost mid = lines_view(output@);
        output.append(&mut asm_lines);
        proof {
            assert(lines_view(output@) =~= mid + al);
            let sl = stmt_lines(sfx[0].operation, file_name@, e0, g0, l0, r0, c0);
            assert(sl is Ok && al == sl->Ok_0);
            assert((
                eq_counter as nat,
                gt_counter as nat,
                lt_counter as nat,
                return_counter as nat,
                call_counter as nat,
            ) == bump_counters(sfx[0].operation, e0, g0, l0, r0, c0));
            let nxt = translation_lines(
                ast@.skip(i + 1),
                file_name@,
                eq_counter as nat,
                gt_counter as nat,
                lt_counter as nat,
                return_counter as nat,
                call_counter as nat,
            );
            match nxt {
                Ok(rest) => {
                    assert(translation_lines(sfx, file_name@, e0, g0, l0, r0, c0) == Ok::<
                        Seq<Seq<char>>,
                        Seq<char>,
                    >(seq![comment_line(sfx[0].text@)] + al + rest));
                    assert(out0 + (seq![comment_line(sfx[0].text@)] + al + rest) =~= lines_view(
                        output@,
                    ) + rest);
                },
                Err(m) => {
                    assert(translation_lines(sfx, file_name@, e0, g0, l0, r0, c0) == Err::<
                        Seq<Seq<char>>,
                        Seq<char>,
                    >(m));
                },
            }
        }
        i = i + 1;
    }
    proof {
        assert(ast@.skip(i as int) =~= Seq::<Stmt>::empty());
        assert(lines_view(output@) + Seq::<Seq<char>>::empty() =~= lines_view(output@));
    }
    let text = join(&output);
    Ok(text)
}

/// Every input statement's source line stands as a `//` comment in the
/// output, immediately followed by that statement's expansion.
pub proof fn lemma_each_statement_commented(
    stmts: Seq<Stmt>,
    file: Seq<char>,
    e: nat,
    g: nat,
    l: nat,
    rr: nat,
    cc: nat,
    k: int,
)
    requires
        0 <= k < stmts.len(),
        translation_lines(stmts, file, e, g, l, rr, cc) is Ok,
    ensures
        ({
            let ls = translation_lines(stmts, file, e, g, l, rr, cc)->Ok_0;
            exists|j: int, e2: nat, g2: nat, l2: nat, r2: nat, c2: nat|
                {
                    &&& 0 <= j < ls.len()
                    &&& ls[j] == comment_line(stmts[k].text@)
                    &&& stmt_lines(stmts[k].operation, file, e2, g2, l2, r2, c2) is Ok
                    &&& j + 1 + stmt_lines(
                        stmts[k].operation,
                        file,
                        e2,
                        g2,
                        l2,
                        r2,
                        c2,
                    )->Ok_0.len() <= ls.len()
                    &&& #[trigger] ls.subrange(
                        j + 1,
                        j + 1 + stmt_lines(stmts[k].operation, file, e2, g2, l2, r2, c2)->Ok_0.len(),
                    ) == stmt_lines(stmts[k].operation, file, e2, g2, l2, r2, c2)->Ok_0
                }
        }),
    decreases stmts.len(),
{
    let ls = translation_lines(stmts, file, e, g, l, rr, cc)->Ok_0;
    let sl = stmt_lines(stmts[0].operation, file, e, g, l, rr, cc)->Ok_0;
    let (e1, g1, l1, r1, c1) = bump_counters(stmts[0].operation, e, g, l, rr, cc);
    let rest = translation_lines(stmts.skip(1), file, e1, g1, l1, r1, c1)->Ok_0;
    assert(ls == seq![comment_line(stmts[0].text@)] + sl + rest);
    if k == 0 {
        assert(ls[0] == comment_line(stmts[0].text@));
        assert(ls.subrange(1, 1 + sl.len() as int) =~= sl);
        assert({
            &&& 0 <= 0 < ls.len()
            &&& ls[0] == comment_line(stmts[0].text@)
            &&& stmt_lines(stmts[0].operation, file, e, g, l, rr, cc) is Ok
            &&& 0 + 1 + sl.len() <= ls.len()
            &&& ls.subrange(0int + 1, 0int + 1 + sl.len() as int) == sl
        });
    } else {
        lemma_each_statement_commented(stmts.skip(1), file, e1, g1, l1, r1, c1, k - 1);
        assert(stmts.skip(1)[k - 1] == stmts[k]);
        let (j0, e2, g2, l2, r2, c2) = choose|j0: int, e2: nat, g2: nat, l2: nat, r2: nat, c2: nat|
            {
                &&& 0 <= j0 < rest.len()
                &&& rest[j0] == comment_line(stmts.skip(1)[k - 1].text@)
                &&& stmt_lines(
                    stmts.skip(1)[k - 1].operation,
                    file,
                    e2,
                    g2,
                    l2,
                    r2,
                    c2,
                ) is Ok
                &&& j0 + 1 + stmt_lines(
                    stmts.skip(1)[k - 1].operation,
                    file,
                    e2,
                    g2,
                    l2,
                    r2,
                    c2,
                )->Ok_0.len() <= rest.len()
                &&& #[trigger] rest.subrange(
                    j0 + 1,
                    j0 + 1 + stmt_lines(
                        stmts.skip(1)[k - 1].operation,
                        file,
                        e2,
                        g2,
                        l2,
                        r2,
                        c2,
                    )->Ok_0.len(),
                ) == stmt_lines(stmts.skip(1)[k - 1].operation, file, e2, g2, l2, r2, c2)->Ok_0
            };
        let off = 1 + sl.len();
        let j = off + j0;
        let sk = stmt_lines(stmts[k].operation, file, e2, g2, l2, r2, c2)->Ok_0;
        assert(ls[j] == rest[j0]);
        assert(ls.subrange(j + 1, j + 1 + sk.len()) =~= rest.subrange(j0 + 1, j0 + 1 + sk.len()));
        assert({
            &&& 0 <= j < ls.len()
            &&& ls[j] == comment_line(stmts[k].text@)
            &&& stmt_lines(stmts[k].operation, file, e2, g2, l2, r2, c2) is Ok
            &&& j + 1 + sk.len() <= ls.len()
            &&& ls.subrange(j + 1, j + 1 + sk.len()) == sk
        });
    }
}

/// The five families of namespaced labels the translator makes up.
pub enum LabelFam {
    EqEnd,
    GtEnd,
    LtEnd,
    ReturnLoop,
    CallReturn,
}

/// The label a family and counter value name.
pub open spec fn fam_label(f: LabelFam, file: Seq<char>, n: nat) -> Seq<char> {
    match f {
        LabelFam::EqEnd => eq_end_label(file, n),
        LabelFam::GtEnd => gt_end_label(file, n),
        LabelFam::LtEnd => lt_end_label(file, n),
        LabelFam::ReturnLoop => return_loop_label(file, n),
        LabelFam::CallReturn => call_return_label(file, n),
    }
}

/// The family and counter of each namespaced label a translation makes
/// up, in order of appearance.
pub open spec fn gen_label_ids(stmts: Seq<Stmt>, e: nat, g: nat, l: nat, r: nat, c: nat) -> Seq<
    (LabelFam, nat),
>
    decreases stmts.len(),
{
    if stmts.len() == 0 {
        Seq::empty()
    } else {
        let head: Seq<(LabelFam, nat)> = match stmts[0].operation {
            Operation::Eq => seq![(LabelFam::EqEnd, e)],
            Operation::Gt => seq![(LabelFam::GtEnd, g)],
            Operation::Lt => seq![(LabelFam::LtEnd, l)],
            Operation::Return => seq![(LabelFam::ReturnLoop, r)],
            Operation::Call(f) => seq![(LabelFam::CallReturn, c)],
            _ => Seq::empty(),
        };
        let (e2, g2, l2, r2, c2) = bump_counters(stmts[0].operation, e, g, l, r, c);
        head + gen_label_ids(stmts.skip(1), e2, g2, l2, r2, c2)
    }
}

/// Every collected counter is at least the running counter of its
/// family.
proof fn lemma_gen_ids_bounds(stmts: Seq<Stmt>, e: nat, g: nat, l: nat, r: nat, c: nat)
    ensures
        forall|k: int|
            0 <= k < gen_label_ids(stmts, e, g, l, r, c).len() ==> {
                let id = #[trigger] gen_label_ids(stmts, e, g, l, r, c)[k];
                &&& (id.0 is EqEnd ==> id.1 >= e)
                &&& (id.0 is GtEnd ==> id.1 >= g)
                &&& (id.0 is LtEnd ==> id.1 >= l)
                &&& (id.0 is ReturnLoop ==> id.1 >= r)
                &&& (id.0 is CallReturn ==> id.1 >= c)
            },
    decreases stmts.len(),
{
    if stmts.len() > 0 {
        let (e2, g2, l2, r2, c2) = bump_counters(stmts[0].operation, e, g, l, r, c);
        lemma_gen_ids_bounds(stmts.skip(1), e2, g2, l2, r2, c2);
    }
}

/// No family-and-counter pair is collected twice.
proof fn lemma_gen_ids_distinct(
    stmts: Seq<Stmt>,
    e: nat,
    g: nat,
    l: nat,
    r: nat,
    c: nat,
    a: int,
    b: int,
)
    requires
        0 <= a < b < gen_label_ids(stmts, e, g, l, r, c).len(),
    ensures
        gen_label_ids(stmts, e, g, l, r, c)[a] != gen_label_ids(stmts, e, g, l, r, c)[b],
    decreases stmts.len(),
{
    let ids = gen_label_ids(stmts, e, g, l, r, c);
    let (e2, g2, l2, r2, c2) = bump_counters(stmts[0].operation, e, g, l, r, c);
    let rest = gen_label_ids(stmts.skip(1), e2, g2, l2, r2, c2);
    let head: Seq<(LabelFam, nat)> = match stmts[0].operation {
        Operation::Eq => seq![(LabelFam::EqEnd, e)],
        Operation::Gt => seq![(LabelFam::GtEnd, g)],
        Operation::Lt => seq![(LabelFam::LtEnd, l)],
        Operation::Return => seq![(LabelFam::ReturnLoop, r)],
        Operation::Call(f) => seq![(LabelFam::CallReturn, c)],
        _ => Seq::empty(),
    };
    if a < head.len() {
        lemma_gen_ids_bounds(stmts.skip(1), e2, g2, l2, r2, c2);
        assert(ids[b] == rest[b - head.len()]);
    } else {
        lemma_gen_ids_distinct(
            stmts.skip(1),
            e2,
            g2,
            l2,
            r2,
            c2,
            a - head.len(),
            b - head.len(),
        );
        assert(ids[a] == rest[a - head.len()]);
        assert(ids[b] == rest[b - head.len()]);
    }
}

/// The decimal rendering is never empty.
proof fn lemma_dec_str_len(n: nat)
    ensures
        dec_str(n).len() >= 1,
    decreases n,
{
    if n >= 10 {
        lemma_dec_str_len(n / 10);
    }
}

/// Different values render to different decimals.
proof fn lemma_dec_str_injective(m: nat, n: nat)
    requires
        dec_str(m) == dec_str(n),
    ensures
        m == n,
    decreases m,
{
    lemma_dec_str_len(m);
    lemma_dec_str_len(n);
    if m < 10 && n < 10 {
        assert(dec_str(m)[0] == crate::strutil::dec_digit(m));
        assert(dec_str(n)[0] == crate::strutil::dec_digit(n));
        assert(crate::strutil::dec_digit(m) as u32 == m + 48);
        assert(crate::strutil::dec_digit(n) as u32 == n + 48);
    } else if m < 10 {
        lemma_dec_str_len(n / 10);
        assert(dec_str(n).len() >= 2);
    } else if n < 10 {
        lemma_dec_str_len(m / 10);
        assert(dec_str(m).len() >= 2);
    } else {
        assert(dec_str(m).last() == crate::strutil::dec_digit(m % 10));
        assert(dec_str(n).last() == crate::strutil::dec_digit(n % 10));
        assert(crate::strutil::dec_digit(m % 10) as u32 == m % 10 + 48);
        assert(crate::strutil::dec_digit(n % 10) as u32 == n % 10 + 48);
        assert(m % 10 == n % 10);
        assert(dec_str(m).drop_last() == dec_str(m / 10));
        assert(dec_str(n).drop_last() == dec_str(n / 10));
        lemma_dec_str_injective(m / 10, n / 10);
    }
}

/// The middle piece of each family's label.
pub open spec fn fam_mid(f: LabelFam) -> Seq<char> {
    match f {
        LabelFam::EqEnd => ".EQ_END_"@,
        LabelFam::GtEnd => ".GT_END_"@,
        LabelFam::LtEnd => ".LT_END_"@,
        LabelFam::ReturnLoop => ".RETURN_DMA_START_"@,
        LabelFam::CallReturn => ".RETURN_ADDRESS_CALL_"@,
    }
}

/// Each family's label is the file, its middle piece, and the counter.
proof fn lemma_fam_label_shape(f: LabelFam, file: Seq<char>, n: nat)
    ensures
        fam_label(f, file, n) == file + fam_mid(f) + dec_str(n),
{
}

/// Two distinct family-and-counter pairs name distinct labels.
proof fn lemma_fam_label_injective(f1: LabelFam, n1: nat, f2: LabelFam, n2: nat, file: Seq<char>)
    requires
        fam_label(f1, file, n1) == fam_label(f2, file, n2),
    ensures
        f1 == f2 && n1 == n2,
{
    reveal_strlit(".EQ_END_");
    reveal_strlit(".GT_END_");
    reveal_strlit(".LT_END_");
    reveal_strlit(".RETURN_DMA_START_");
    reveal_strlit(".RETURN_ADDRESS_CALL_");
    lemma_fam_label_shape(f1, file, n1);
    lemma_fam_label_shape(f2, file, n2);
    lemma_dec_str_len(n1);
    lemma_dec_str_len(n2);
    let m1 = fam_mid(f1);
    let m2 = fam_mid(f2);
    let l1 = file + m1 + dec_str(n1);
    let l2 = file + m2 + dec_str(n2);
    if f1 == f2 {
        assert(dec_str(n1) =~= l1.subrange(file.len() + m1.len() as int, l1.len() as int));
        assert(dec_str(n2) =~= l2.subrange(file.len() + m2.len() as int, l2.len() as int));
        lemma_dec_str_injective(n1, n2);
    } else {
        // The middle pieces differ at index 1, or at index 8 for the two
        // return-protocol families.
        let p: int = if (f1 is ReturnLoop && f2 is CallReturn) || (f1 is CallReturn && f2
            is ReturnLoop) {
            8
        } else {
            1
        };
        assert(l1[file.len() + p] == m1[p]);
        assert(l2[file.len() + p] == m2[p]);
        assert(m1[p] != m2[p]);
        assert(false);
    }
}

/// The namespaced labels of one translation, by name.
pub open spec fn gen_labels(
    stmts: Seq<Stmt>,
    file: Seq<char>,
    e: nat,
    g: nat,
    l: nat,
    r: nat,
    c: nat,
) -> Seq<Seq<char>> {
    gen_label_ids(stmts, e, g, l, r, c).map_values(|id: (LabelFam, nat)| fam_label(id.0, file, id.1))
}

/// The translator's namespaced labels are pairwise distinct within one
/// output file: every `eq`, `gt`, `lt`, `return` and `call` makes up a
/// label that no other statement of the file shares.
pub proof fn lemma_namespaced_labels_unique(
    stmts: Seq<Stmt>,
    file: Seq<char>,
    a: int,
    b: int,
)
    requires
        0 <= a < b < gen_labels(stmts, file, 0, 0, 0, 0, 0).len(),
    ensures
        gen_labels(stmts, file, 0, 0, 0, 0, 0)[a] != gen_labels(stmts, file, 0, 0, 0, 0, 0)[b],
{
    let ids = gen_label_ids(stmts, 0, 0, 0, 0, 0);
    lemma_gen_ids_distinct(stmts, 0, 0, 0, 0, 0, a, b);
    if fam_label(ids[a].0, file, ids[a].1) == fam_label(ids[b].0, file, ids[b].1) {
        lemma_fam_label_injective(ids[a].0, ids[a].1, ids[b].0, ids[b].1, file);
    }
}

} // verus!
