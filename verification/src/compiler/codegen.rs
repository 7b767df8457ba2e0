//! The code generator: walks the syntax tree and emits stack-machine
//! text, resolving names through the symbol table.

use vstd::prelude::*;
use vstd::string::StringExecFns;

use crate::compiler::ast::{
    var_type_name, BinaryOp, Class, ClassVariable, ClassVariableVisibility, CompiledClass,
    Constant, Expr,
    KeywordConstant, Statement, Subroutine, SubroutineCall, SubroutineType, UnaryOp, Variable,
    VariableRef, AST,
};
use crate::compiler::symbol_table::{
    count_scope, segment_name, spec_add, spec_find, spec_pop_scope, st_view, table_wf, Scope,
    SymTabV, SymbolTable, SymbolTableVariable,
};
use crate::strutil::{
    concat2, concat3, dec_str, lines_view, push_line, push_line_string, u64_to_string, usize_to_string,
};
use crate::textparse::str_to_chars;

verus! {

/// One compiled file: its name and its emitted lines.
pub struct CompilationOutput {
    pub source_filename: String,
    pub vm_code: Vec<String>,
}

/// The one semantic error: a name that no scope resolves.
#[derive(Debug)]
pub enum CompilationError {
    MissingVariable { var_name: String },
}

/// The generator's mutable state: the symbol table, the names of the
/// class and subroutine in hand, and the label counters.
pub struct CompilationContext {
    pub symbol_table: SymbolTable,
    pub class_name: String,
    pub subroutine_name: String,
    pub while_count: usize,
    pub if_count: usize,
}

/// The abstract shape of the generator's state.
pub struct CtxV {
    pub table: SymTabV,
    pub class_name: Seq<char>,
    pub sub_name: Seq<char>,
    pub while_count: int,
    pub if_count: int,
}

/// The abstract shape of the context.
pub open spec fn ctx_view(c: CompilationContext) -> CtxV {
    CtxV {
        table: st_view(c.symbol_table),
        class_name: c.class_name@,
        sub_name: c.subroutine_name@,
        while_count: c.while_count as int,
        if_count: c.if_count as int,
    }
}

impl CompilationContext {
    pub fn new(class_name: &str) -> (r: Self)
        ensures
            ctx_view(r) == (CtxV {
                table: SymTabV { vars: Seq::<
                    crate::compiler::symbol_table::SymVarV,
                >::empty(), scopes: Seq::<int>::empty() },
                class_name: class_name@,
                sub_name: Seq::<char>::empty(),
                while_count: 0int,
                if_count: 0int,
            }),
    {
        let r = CompilationContext {
            symbol_table: SymbolTable::new(),
            class_name: String::from_str(class_name),
            if_count: 0,
            while_count: 0,
            subroutine_name: String::new(),
        };
        r
    }

    pub fn set_subroutine_name(&mut self, name: &str)
        ensures
            ctx_view(*final(self)) == (CtxV { sub_name: name@, ..ctx_view(*old(self)) }),
    {
        self.subroutine_name = String::from_str(name);
    }

    /// The symbol table, for callers that fill or query it.
    pub fn symbol_table(&mut self) -> (r: &mut SymbolTable)
        ensures
            *r == old(self).symbol_table,
            *final(self) == (CompilationContext { symbol_table: *final(r), ..*old(self) }),
    {
        &mut self.symbol_table
    }

    /// The label stem for the next `while`, advancing the counter.
    pub fn next_while_label(&mut self) -> (r: String)
        requires
            old(self).while_count < usize::MAX,
        ensures
            r@ == old(self).subroutine_name@ + ".while."@ + dec_str(old(self).while_count as nat),
            ctx_view(*final(self)) == (CtxV {
                while_count: old(self).while_count + 1,
                ..ctx_view(*old(self))
            }),
            *final(self) == (CompilationContext {
                while_count: (old(self).while_count + 1) as usize,
                ..*old(self)
            }),
    {
        let mut label = self.subroutine_name.clone();
        label.append(".while.");
        let num = usize_to_string(self.while_count);
        label.append(num.as_str());
        self.while_count = self.while_count + 1;
        label
    }

    /// The label stem for the next `if`, advancing the counter.
    pub fn next_if_label(&mut self) -> (r: String)
        requires
            old(self).if_count < usize::MAX,
        ensures
            r@ == old(self).subroutine_name@ + ".if."@ + dec_str(old(self).if_count as nat),
            ctx_view(*final(self)) == (CtxV {
                if_count: old(self).if_count + 1,
                ..ctx_view(*old(self))
            }),
            *final(self) == (CompilationContext {
                if_count: (old(self).if_count + 1) as usize,
                ..*old(self)
            }),
    {
        let mut label = self.subroutine_name.clone();
        label.append(".if.");
        let num = usize_to_string(self.if_count);
        label.append(num.as_str());
        self.if_count = self.if_count + 1;
        label
    }
}

/// The decimal rendering of a signed value.
pub open spec fn int_dec(n: int) -> Seq<char> {
    if n < 0 {
        "-"@ + dec_str((-n) as nat)
    } else {
        dec_str(n as nat)
    }
}

/// `push constant n`.
pub open spec fn push_constant_line(n: int) -> Seq<char> {
    "push constant "@ + int_dec(n)
}

/// `push <segment> <index>` for a resolved variable.
pub open spec fn push_line_of(v: crate::compiler::symbol_table::SymVarV) -> Seq<char> {
    "push "@ + segment_name(v.scope) + " "@ + dec_str(v.index as nat)
}

/// `pop <segment> <index>` for a resolved variable.
pub open spec fn pop_line_of(v: crate::compiler::symbol_table::SymVarV) -> Seq<char> {
    "pop "@ + segment_name(v.scope) + " "@ + dec_str(v.index as nat)
}

/// `call <name> <nargs>`.
pub open spec fn call_line(f: Seq<char>, n: int) -> Seq<char> {
    "call "@ + f + " "@ + dec_str(n as nat)
}

/// The lowering of a string literal's characters: each appended to the
/// string object through the runtime, low byte only.
pub open spec fn string_char_lines(cs: Seq<char>) -> Seq<Seq<char>>
    decreases cs.len(),
{
    if cs.len() == 0 {
        Seq::empty()
    } else {
        seq![
            push_constant_line(((cs[0] as u32) % 256) as int),
            "call String.appendChar 2"@,
        ] + string_char_lines(cs.skip(1))
    }
}

/// The opcode or runtime call of a binary operator.
pub open spec fn binary_op_line(op: BinaryOp) -> Seq<char> {
    match op {
        BinaryOp::Plus => "add"@,
        BinaryOp::Minus => "sub"@,
        BinaryOp::Mult => "call Math.multiply 2"@,
        BinaryOp::Div => "call Math.divide 2"@,
        BinaryOp::And => "and"@,
        BinaryOp::Or => "or"@,
        BinaryOp::Lt => "lt"@,
        BinaryOp::Gt => "gt"@,
        BinaryOp::Eq => "eq"@,
    }
}

/// The lowering of an expression, post-order, or the name that failed to
/// resolve.
pub open spec fn spec_compile_expression(e: Expr, c: CtxV) -> Result<Seq<Seq<char>>, Seq<char>>
    decreases e,
{
    match e {
        Expr::Constant(Constant::Int(v)) => Ok(seq![push_constant_line(v as int)]),
        Expr::Constant(Constant::String(text)) => Ok(
            seq![push_constant_line(text@.len() as int), "call String.new 1"@]
                + string_char_lines(text@),
        ),
        Expr::Constant(Constant::Keyword(k)) => match k {
            KeywordConstant::True => Ok(seq!["push constant 1"@, "neg"@]),
            KeywordConstant::False => Ok(seq!["push constant 0"@]),
            KeywordConstant::Null => Ok(seq!["push constant 0"@]),
            KeywordConstant::This => Ok(seq!["push pointer 0"@]),
        },
        Expr::VarRef(var) => match spec_find(c.table.vars, var.name@) {
            None => Err(var.name@),
            Some(v) => match var.index {
                Some(idx) => match spec_compile_expression(*idx, c) {
                    Err(m) => Err(m),
                    Ok(il) => Ok(
                        seq![push_line_of(v)] + il + seq![
                            "add"@,
                            "pop pointer 1"@,
                            "push that 0"@,
                        ],
                    ),
                },
                None => Ok(seq![push_line_of(v)]),
            },
        },
        Expr::UnaryExpr(op, sub) => match spec_compile_expression(*sub, c) {
            Err(m) => Err(m),
            Ok(ls) => Ok(
                ls + seq![
                    match op {
                        UnaryOp::Minus => "neg"@,
                        UnaryOp::Not => "not"@,
                    },
                ],
            ),
        },
        Expr::BinaryExpr { lhs, op, rhs } => match spec_compile_expression(*lhs, c) {
            Err(m) => Err(m),
            Ok(ll) => match spec_compile_expression(*rhs, c) {
                Err(m) => Err(m),
                Ok(rl) => Ok(ll + rl + seq![binary_op_line(op)]),
            },
        },
        Expr::BracketedExpr(sub) => spec_compile_expression(*sub, c),
        Expr::Call(call) => spec_compile_call(call, c),
    }
}

/// The lowering of a call's arguments, left to right.
pub open spec fn spec_compile_args(params: Seq<Expr>, c: CtxV) -> Result<Seq<Seq<char>>, Seq<char>>
    decreases params,
{
    if params.len() == 0 {
        Ok(Seq::empty())
    } else {
        match spec_compile_expression(params[0], c) {
            Err(m) => Err(m),
            Ok(first) => match spec_compile_args(params.skip(1), c) {
                Err(m) => Err(m),
                Ok(rest) => Ok(first + rest),
            },
        }
    }
}

/// The lowering of a subroutine call: a target that resolves as a
/// variable makes a method call on it; one that does not is a class
/// name; no target calls a method on the current instance.
pub open spec fn spec_compile_call(call: SubroutineCall, c: CtxV) -> Result<
    Seq<Seq<char>>,
    Seq<char>,
>
    decreases call,
{
    match spec_compile_args(call.parameters@, c) {
        Err(m) => Err(m),
        Ok(args) => match call.target_name {
            Some(tn) => match spec_find(c.table.vars, tn@) {
                Some(v) => Ok(
                    seq![push_line_of(v)] + args + seq![
                        call_line(
                            v.var_type + "."@ + call.subroutine_name@,
                            call.parameters@.len() as int + 1,
                        ),
                    ],
                ),
                None => Ok(
                    args + seq![
                        call_line(tn@ + "."@ + call.subroutine_name@, call.parameters@.len() as int),
                    ],
                ),
            },
            None => Ok(
                seq!["push pointer 0"@] + args + seq![
                    call_line(
                        c.class_name + "."@ + call.subroutine_name@,
                        call.parameters@.len() as int + 1,
                    ),
                ],
            ),
        },
    }
}

/// How many `while` and `if` constructs a statement holds; each consumes
/// one label number.
pub open spec fn count_constructs(s: Statement) -> int
    decreases s,
{
    match s {
        Statement::While(details) => 1 + count_constructs_list(details.body@),
        Statement::If(details) => 1 + count_constructs_list(details.if_body@) + (
        match details.else_body {
            Some(es) => count_constructs_list(es@),
            None => 0int,
        }),
        _ => 0,
    }
}

/// The construct count of a statement list.
pub open spec fn count_constructs_list(list: Seq<Statement>) -> int
    decreases list,
{
    if list.len() == 0 {
        0
    } else {
        count_constructs(list[0]) + count_constructs_list(list.skip(1))
    }
}

/// The lowering of one statement: its lines and the state after it.
pub open spec fn spec_compile_statement(s: Statement, c: CtxV) -> Result<
    (Seq<Seq<char>>, CtxV),
    Seq<char>,
>
    decreases s,
{
    match s {
        Statement::Let(details) => match spec_find(c.table.vars, details.identifier.name@) {
            None => Err(details.identifier.name@),
            Some(v) => match details.identifier.index {
                Some(ib) => match spec_compile_expression(*ib, c) {
                    Err(m) => Err(m),
                    Ok(il) => match spec_compile_expression(details.expression, c) {
                        Err(m) => Err(m),
                        Ok(rl) => Ok(
                            (
                                seq![push_line_of(v)] + il + seq!["add"@] + rl + seq![
                                    "pop temp 0"@,
                                    "pop pointer 1"@,
                                    "push temp 0"@,
                                    "pop that 0"@,
                                ],
                                c,
                            ),
                        ),
                    },
                },
                None => match spec_compile_expression(details.expression, c) {
                    Err(m) => Err(m),
                    Ok(rl) => Ok((rl + seq![pop_line_of(v)], c)),
                },
            },
        },
        Statement::While(details) => {
            let stem = c.sub_name + ".while."@ + dec_str(c.while_count as nat);
            let c1 = CtxV { while_count: c.while_count + 1, ..c };
            match spec_compile_expression(details.condition, c1) {
                Err(m) => Err(m),
                Ok(cond) => match spec_compile_statements(details.body@, c1) {
                    Err(m) => Err(m),
                    Ok((bl, c2)) => Ok(
                        (
                            seq!["label "@ + stem + ".condition"@] + cond + seq![
                                "if-goto "@ + stem + ".while_body"@,
                                "goto "@ + stem + ".while_end"@,
                                "label "@ + stem + ".while_body"@,
                            ] + bl + seq![
                                "goto "@ + stem + ".condition"@,
                                "label "@ + stem + ".while_end"@,
                            ],
                            c2,
                        ),
                    ),
                },
            }
        },
        Statement::Do(call) => match spec_compile_call(call, c) {
            Err(m) => Err(m),
            Ok(cl) => Ok((cl + seq!["pop temp 0"@], c)),
        },
        Statement::If(details) => {
            let stem = c.sub_name + ".if."@ + dec_str(c.if_count as nat);
            let c1 = CtxV { if_count: c.if_count + 1, ..c };
            match spec_compile_expression(details.condition, c1) {
                Err(m) => Err(m),
                Ok(cond) => {
                    let else_result = match details.else_body {
                        Some(es) => spec_compile_statements(es@, c1),
                        None => Ok((Seq::empty(), c1)),
                    };
                    match else_result {
                        Err(m) => Err(m),
                        Ok((el, c2)) => match spec_compile_statements(details.if_body@, c2) {
                            Err(m) => Err(m),
                            Ok((tl, c3)) => Ok(
                                (
                                    cond + seq!["if-goto "@ + stem + ".if_body"@] + el + seq![
                                        "goto "@ + stem + ".if_end"@,
                                        "label "@ + stem + ".if_body"@,
                                    ] + tl + seq!["label "@ + stem + ".if_end"@],
                                    c3,
                                ),
                            ),
                        },
                    }
                },
            }
        },
        Statement::Return(opt) => match opt {
            Some(e) => match spec_compile_expression(e, c) {
                Err(m) => Err(m),
                Ok(ls) => Ok((ls + seq!["return"@], c)),
            },
            None => Ok((seq!["push constant 0"@, "return"@], c)),
        },
        Statement::VarDecl(d) => Ok((Seq::empty(), c)),
    }
}

/// The lowering of a statement list, threading the label counters.
pub open spec fn spec_compile_statements(list: Seq<Statement>, c: CtxV) -> Result<
    (Seq<Seq<char>>, CtxV),
    Seq<char>,
>
    decreases list,
{
    if list.len() == 0 {
        Ok((Seq::empty(), c))
    } else {
        match spec_compile_statement(list[0], c) {
            Err(m) => Err(m),
            Ok((ls, c1)) => match spec_compile_statements(list.skip(1), c1) {
                Err(m) => Err(m),
                Ok((rest, c2)) => Ok((ls + rest, c2)),
            },
        }
    }
}

/// Compiling a statement touches only the label counters of the state,
/// and moves them up by at most the statement's construct count.
pub proof fn lemma_statement_growth(s: Statement, c: CtxV)
    ensures
        spec_compile_statement(s, c) matches Ok((ls, c2)) ==> c2 == (CtxV {
            while_count: c2.while_count,
            if_count: c2.if_count,
            ..c
        }) && c.while_count <= c2.while_count && c.if_count <= c2.if_count && c2.while_count
            + c2.if_count <= c.while_count + c.if_count + count_constructs(s),
        count_constructs(s) >= 0,
    decreases s,
{
    lemma_count_constructs_nonneg(s);
    match s {
        Statement::While(details) => {
            let c1 = CtxV { while_count: c.while_count + 1, ..c };
            lemma_statements_growth(details.body@, c1);
        },
        Statement::If(details) => {
            let c1 = CtxV { if_count: c.if_count + 1, ..c };
            match spec_compile_expression(details.condition, c1) {
                Err(m) => {},
                Ok(cond) => {
                    match details.else_body {
                        Some(es) => {
                            lemma_statements_growth(es@, c1);
                            match spec_compile_statements(es@, c1) {
                                Err(m) => {},
                                Ok((el, c2)) => {
                                    lemma_statements_growth(details.if_body@, c2);
                                },
                            }
                        },
                        None => {
                            lemma_statements_growth(details.if_body@, c1);
                        },
                    }
                },
            }
        },
        _ => {},
    }
}

/// The construct count is never negative.
pub proof fn lemma_count_constructs_nonneg(s: Statement)
    ensures
        count_constructs(s) >= 0,
    decreases s,
{
    match s {
        Statement::While(details) => {
            lemma_count_constructs_list_nonneg(details.body@);
        },
        Statement::If(details) => {
            lemma_count_constructs_list_nonneg(details.if_body@);
            match details.else_body {
                Some(es) => {
                    lemma_count_constructs_list_nonneg(es@);
                },
                None => {},
            }
        },
        _ => {},
    }
}

/// The construct count of a list is never negative.
pub proof fn lemma_count_constructs_list_nonneg(list: Seq<Statement>)
    ensures
        count_constructs_list(list) >= 0,
    decreases list,
{
    if list.len() > 0 {
        lemma_count_constructs_nonneg(list[0]);
        lemma_count_constructs_list_nonneg(list.skip(1));
    }
}

/// Compiling a statement list touches only the label counters, and moves
/// them up by at most the list's construct count.
pub proof fn lemma_statements_growth(list: Seq<Statement>, c: CtxV)
    ensures
        spec_compile_statements(list, c) matches Ok((ls, c2)) ==> c2 == (CtxV {
            while_count: c2.while_count,
            if_count: c2.if_count,
            ..c
        }) && c.while_count <= c2.while_count && c.if_count <= c2.if_count && c2.while_count
            + c2.if_count <= c.while_count + c.if_count + count_constructs_list(list),
        count_constructs_list(list) >= 0,
    decreases list,
{
    lemma_count_constructs_list_nonneg(list);
    if list.len() > 0 {
        lemma_statement_growth(list[0], c);
        match spec_compile_statement(list[0], c) {
            Err(m) => {},
            Ok((ls, c1)) => {
                lemma_statements_growth(list.skip(1), c1);
            },
        }
    }
}

/// The table after registering the locals a statement declares, however
/// deeply `while` and `if` bodies nest.
pub open spec fn spec_register(s: Statement, t: SymTabV) -> SymTabV
    decreases s,
{
    match s {
        Statement::While(details) => spec_register_list(details.body@, t),
        Statement::If(details) => {
            let t1 = spec_register_list(details.if_body@, t);
            match details.else_body {
                Some(es) => spec_register_list(es@, t1),
                None => t1,
            }
        },
        Statement::VarDecl(d) => spec_add_locals(d.variables@, t),
        _ => t,
    }
}

/// Registration folded over a statement list.
pub open spec fn spec_register_list(list: Seq<Statement>, t: SymTabV) -> SymTabV
    decreases list,
{
    if list.len() == 0 {
        t
    } else {
        spec_register_list(list.skip(1), spec_register(list[0], t))
    }
}

/// The table after adding declared locals.
pub open spec fn spec_add_locals(vars: Seq<Variable>, t: SymTabV) -> SymTabV
    decreases vars,
{
    if vars.len() == 0 {
        t
    } else {
        spec_add_locals(
            vars.skip(1),
            spec_add(t, vars[0].identifier@, var_type_name(vars[0].var_type), Scope::Local),
        )
    }
}

/// The table after adding declared parameters as arguments.
pub open spec fn spec_add_args(params: Seq<Variable>, t: SymTabV) -> SymTabV
    decreases params,
{
    if params.len() == 0 {
        t
    } else {
        spec_add_args(
            params.skip(1),
            spec_add(t, params[0].identifier@, var_type_name(params[0].var_type), Scope::Argument),
        )
    }
}

/// Registration keeps the table well formed.
pub proof fn lemma_register_wf(s: Statement, t: SymTabV)
    requires
        table_wf(t),
    ensures
        table_wf(spec_register(s, t)),
    decreases s,
{
    match s {
        Statement::While(details) => {
            lemma_register_list_wf(details.body@, t);
        },
        Statement::If(details) => {
            lemma_register_list_wf(details.if_body@, t);
            match details.else_body {
                Some(es) => {
                    lemma_register_list_wf(es@, spec_register_list(details.if_body@, t));
                },
                None => {},
            }
        },
        Statement::VarDecl(d) => {
            lemma_add_locals_wf(d.variables@, t);
        },
        _ => {},
    }
}

/// List registration keeps the table well formed.
pub proof fn lemma_register_list_wf(list: Seq<Statement>, t: SymTabV)
    requires
        table_wf(t),
    ensures
        table_wf(spec_register_list(list, t)),
    decreases list,
{
    if list.len() > 0 {
        lemma_register_wf(list[0], t);
        lemma_register_list_wf(list.skip(1), spec_register(list[0], t));
    }
}

/// Adding locals keeps the table well formed.
pub proof fn lemma_add_locals_wf(vars: Seq<Variable>, t: SymTabV)
    requires
        table_wf(t),
    ensures
        table_wf(spec_add_locals(vars, t)),
    decreases vars,
{
    if vars.len() > 0 {
        crate::compiler::symbol_table::lemma_add_preserves_wf(
            t,
            vars[0].identifier@,
            var_type_name(vars[0].var_type),
            Scope::Local,
        );
        lemma_add_locals_wf(
            vars.skip(1),
            spec_add(t, vars[0].identifier@, var_type_name(vars[0].var_type), Scope::Local),
        );
    }
}

/// Adding arguments keeps the table well formed.
pub proof fn lemma_add_args_wf(params: Seq<Variable>, t: SymTabV)
    requires
        table_wf(t),
    ensures
        table_wf(spec_add_args(params, t)),
    decreases params,
{
    if params.len() > 0 {
        crate::compiler::symbol_table::lemma_add_preserves_wf(
            t,
            params[0].identifier@,
            var_type_name(params[0].var_type),
            Scope::Argument,
        );
        lemma_add_args_wf(
            params.skip(1),
            spec_add(t, params[0].identifier@, var_type_name(params[0].var_type), Scope::Argument),
        );
    }
}

/// The lowering of one subroutine: the `function` line with its local
/// count, the prologue its kind demands, then the body; the caller has
/// already opened a scope and set the subroutine's name.
pub open spec fn spec_compile_subroutine(sub: Subroutine, c: CtxV) -> Result<
    (Seq<Seq<char>>, CtxV),
    Seq<char>,
> {
    let t1 = if sub.subroutine_type == SubroutineType::Method {
        spec_add(c.table, "this"@, c.class_name, Scope::Argument)
    } else {
        c.table
    };
    let t2 = spec_add_args(sub.parameters@, t1);
    let t3 = spec_register_list(sub.statements@, t2);
    let nlocals = count_scope(t3.vars, Scope::Local);
    let c1 = CtxV { table: t3, ..c };
    let fline = "function "@ + c.class_name + "."@ + sub.identifier@ + " "@ + dec_str(
        nlocals as nat,
    );
    let prologue = match sub.subroutine_type {
        SubroutineType::Constructor => seq![
            "push constant "@ + dec_str(count_scope(t3.vars, Scope::Field) as nat),
            "call Memory.alloc 1"@,
            "pop pointer 0"@,
        ],
        SubroutineType::Method => seq!["push argument 0"@, "pop pointer 0"@],
        SubroutineType::Function => Seq::empty(),
    };
    match spec_compile_statements(sub.statements@, c1) {
        Err(m) => Err(m),
        Ok((bl, c2)) => Ok((seq![fline] + prologue + bl, c2)),
    }
}

/// The construct count of one subroutine's body.
pub open spec fn sub_constructs(sub: Subroutine) -> int {
    count_constructs_list(sub.statements@)
}

/// The construct count of a subroutine list.
pub open spec fn subs_constructs(subs: Seq<Subroutine>) -> int
    decreases subs,
{
    if subs.len() == 0 {
        0
    } else {
        sub_constructs(subs[0]) + subs_constructs(subs.skip(1))
    }
}

/// The table holding a class's fields and statics.
pub open spec fn spec_add_class_vars(vars: Seq<ClassVariable>, t: SymTabV) -> SymTabV
    decreases vars,
{
    if vars.len() == 0 {
        t
    } else {
        let scope = match vars[0].visibility {
            ClassVariableVisibility::Field => Scope::Field,
            ClassVariableVisibility::Static => Scope::Static,
        };
        spec_add_class_vars(
            vars.skip(1),
            spec_add(t, vars[0].identifier@, var_type_name(vars[0].var_type), scope),
        )
    }
}

/// Class variables keep the table well formed.
pub proof fn lemma_add_class_vars_wf(vars: Seq<ClassVariable>, t: SymTabV)
    requires
        table_wf(t),
    ensures
        table_wf(spec_add_class_vars(vars, t)),
    decreases vars,
{
    if vars.len() > 0 {
        let scope = match vars[0].visibility {
            ClassVariableVisibility::Field => Scope::Field,
            ClassVariableVisibility::Static => Scope::Static,
        };
        crate::compiler::symbol_table::lemma_add_preserves_wf(
            t,
            vars[0].identifier@,
            var_type_name(vars[0].var_type),
            scope,
        );
        lemma_add_class_vars_wf(
            vars.skip(1),
            spec_add(t, vars[0].identifier@, var_type_name(vars[0].var_type), scope),
        );
    }
}

/// The lowering of a class's subroutines in order, each in its own scope
/// under its own name.
pub open spec fn spec_compile_subs(subs: Seq<Subroutine>, c: CtxV) -> Result<
    (Seq<Seq<char>>, CtxV),
    Seq<char>,
>
    decreases subs,
{
    if subs.len() == 0 {
        Ok((Seq::empty(), c))
    } else {
        let cs = CtxV {
            table: SymTabV {
                vars: c.table.vars,
                scopes: c.table.scopes.push(c.table.vars.len() as int),
            },
            sub_name: subs[0].identifier@,
            ..c
        };
        match spec_compile_subroutine(subs[0], cs) {
            Err(m) => Err(m),
            Ok((ls, c2)) => {
                let c3 = CtxV { table: spec_pop_scope(c2.table), ..c2 };
                match spec_compile_subs(subs.skip(1), c3) {
                    Err(m) => Err(m),
                    Ok((rest, c4)) => Ok((ls + rest, c4)),
                }
            },
        }
    }
}

/// The lowering of a whole class: its variables fill the table, then its
/// subroutines are compiled in source order.
pub open spec fn spec_compile_class(class: Class) -> Result<Seq<Seq<char>>, Seq<char>> {
    let t0 = spec_add_class_vars(
        class.variables@,
        SymTabV { vars: Seq::empty(), scopes: Seq::empty() },
    );
    let c0 = CtxV {
        table: t0,
        class_name: class.identifier@,
        sub_name: Seq::empty(),
        while_count: 0,
        if_count: 0,
    };
    match spec_compile_subs(class.subroutines@, c0) {
        Err(m) => Err(m),
        Ok((lines, c1)) => Ok(lines),
    }
}

/// Renders a signed value in decimal.
fn i32_to_string(v: i32) -> (s: String)
    ensures
        s@ == int_dec(v as int),
{
    if v < 0 {
        let wide: i64 = v as i64;
        let mag: u64 = (-wide) as u64;
        let digits = u64_to_string(mag);
        concat2("-", digits.as_str())
    } else {
        u64_to_string(v as u64)
    }
}

/// Renders one more than a count, for the receiver slot of method calls.
fn count_plus_one_string(n: usize) -> (s: String)
    ensures
        s@ == dec_str((n + 1) as nat),
{
    let wide: u128 = (n as u128) + 1;
    crate::strutil::u128_to_string(wide)
}

/// Emits `<prefix><segment> <index>` for a resolved variable.
fn emit_seg_line(out: &mut Vec<String>, prefix: &str, variable: &SymbolTableVariable)
    ensures
        final(out)@.len() == old(out)@.len() + 1,
        lines_view(final(out)@) == lines_view(old(out)@).push(
            prefix@ + segment_name(variable.scope) + " "@ + dec_str(variable.index as nat),
        ),
{
    let seg = variable.scope.as_segment();
    let mut s = String::from_str(prefix);
    s.append(seg.as_str());
    s.append(" ");
    let num = usize_to_string(variable.index);
    s.append(num.as_str());
    proof {
        assert(s@ =~= prefix@ + segment_name(variable.scope) + " "@ + dec_str(
            variable.index as nat,
        ));
    }
    push_line_string(out, s);
}

/// Compiles one expression, appending its lines; the context is read
/// only.
pub fn compile_expression(
    output: &mut Vec<String>,
    expr: &Expr,
    context: &mut CompilationContext,
) -> (r: Result<(), CompilationError>)
    ensures
        *final(context) == *old(context),
        match spec_compile_expression(*expr, ctx_view(*old(context))) {
            Ok(ls) => r is Ok && lines_view(final(output)@) == lines_view(old(output)@) + ls,
            Err(m) => r matches Err(e) && (e matches CompilationError::MissingVariable {
                var_name,
            } && var_name@ == m),
        },
    decreases *expr,
{
    let ghost cv = ctx_view(*context);
    let ghost base = lines_view(output@);
    match expr {
        Expr::Constant(c) => {
            match c {
                Constant::Int(num_val) => {
                    let digits = i32_to_string(*num_val);
                    let s = concat2("push constant ", digits.as_str());
                    push_line_string(output, s);
                    proof {
                        assert(lines_view(output@) =~= base + seq![
                            push_constant_line(*num_val as int),
                        ]);
                    }
                    Ok(())
                },
                Constant::String(text) => {
                    let n = text.as_str().unicode_len();
                    let digits = usize_to_string(n);
                    let s = concat2("push constant ", digits.as_str());
                    push_line_string(output, s);
                    push_line(output, "call String.new 1");
                    let cs = str_to_chars(text.as_str());
                    let ghost full = text@;
                    let ghost head = lines_view(output@);
                    let ghost mut done: Seq<Seq<char>> = Seq::empty();
                    proof {
                        assert(full.skip(0) =~= full);
                        assert(head + done =~= head);
                    }
                    let mut i: usize = 0;
                    while i < cs.len()
                        invariant
                            i <= full.len(),
                            cs@ == full,
                            lines_view(output@) == head + done,
                            string_char_lines(full) == done + string_char_lines(
                                full.skip(i as int),
                            ),
                        decreases full.len() - i,
                    {
                        let code = (cs[i] as u32) % 256;
                        let d2 = u64_to_string(code as u64);
                        let s2 = concat2("push constant ", d2.as_str());
                        let ghost l1 = push_constant_line(((full[i as int] as u32) % 256) as int);
                        proof {
                            assert(s2@ == l1);
                        }
                        push_line_string(output, s2);
                        push_line(output, "call String.appendChar 2");
                        proof {
                            assert(full.skip(i as int)[0] == full[i as int]);
                            assert(full.skip(i as int).skip(1) =~= full.skip(i + 1));
                            let prev = done;
                            done = done + seq![l1, "call String.appendChar 2"@];
                            assert(lines_view(output@) =~= head + done);
                            assert(prev + (seq![l1, "call String.appendChar 2"@]
                                + string_char_lines(full.skip(i + 1))) =~= done
                                + string_char_lines(full.skip(i + 1)));
                        }
                        i = i + 1;
                    }
                    proof {
                        assert(full.skip(i as int) =~= Seq::<char>::empty());
                        assert(done + Seq::<Seq<char>>::empty() =~= done);
                        assert(lines_view(output@) =~= base + (seq![
                            push_constant_line(full.len() as int),
                            "call String.new 1"@,
                        ] + string_char_lines(full)));
                    }
                    Ok(())
                },
                Constant::Keyword(k) => {
                    match k {
                        KeywordConstant::True => {
                            push_line(output, "push constant 1");
                            push_line(output, "neg");
                            proof {
                                assert(lines_view(output@) =~= base + seq![
                                    "push constant 1"@,
                                    "neg"@,
                                ]);
                            }
                        },
                        KeywordConstant::False => {
                            push_line(output, "push constant 0");
                            proof {
                                assert(lines_view(output@) =~= base + seq!["push constant 0"@]);
                            }
                        },
                        KeywordConstant::Null => {
                            push_line(output, "push constant 0");
                            proof {
                                assert(lines_view(output@) =~= base + seq!["push constant 0"@]);
                            }
                        },
                        KeywordConstant::This => {
                            push_line(output, "push pointer 0");
                            proof {
                                assert(lines_view(output@) =~= base + seq!["push pointer 0"@]);
                            }
                        },
                    }
                    Ok(())
                },
            }
        },
        Expr::VarRef(var) => {
            let variable = match context.symbol_table.find_variable(var.name.as_str()) {
                Some(variable) => variable,
                None => {
                    return Err(CompilationError::MissingVariable { var_name: var.name.clone() });
                },
            };
            emit_seg_line(output, "push ", &variable);
            match &var.index {
                Some(index) => {
                    proof {
                        assert(decreases_to!(*expr => var.index->Some_0));
                    }
                    match compile_expression(output, index, context) {
                        Ok(u) => {},
                        Err(e) => {
                            return Err(e);
                        },
                    }
                    push_line(output, "add");
                    push_line(output, "pop pointer 1");
                    push_line(output, "push that 0");
                    proof {
                        let v = spec_find(cv.table.vars, var.name@)->Some_0;
                        let il = spec_compile_expression(*var.index->Some_0, cv)->Ok_0;
                        assert(lines_view(output@) =~= base + (seq![push_line_of(v)] + il + seq![
                            "add"@,
                            "pop pointer 1"@,
                            "push that 0"@,
                        ]));
                    }
                },
                None => {
                    proof {
                        let v = spec_find(cv.table.vars, var.name@)->Some_0;
                        assert(lines_view(output@) =~= base + seq![push_line_of(v)]);
                    }
                },
            }
            Ok(())
        },
        Expr::UnaryExpr(op, sub) => {
            match compile_expression(output, sub, context) {
                Ok(u) => {},
                Err(e) => {
                    return Err(e);
                },
            }
            match op {
                UnaryOp::Minus => push_line(output, "neg"),
                UnaryOp::Not => push_line(output, "not"),
            }
            proof {
                let ls = spec_compile_expression(**sub, cv)->Ok_0;
                assert(lines_view(output@) =~= base + (ls + seq![
                    match *op {
                        UnaryOp::Minus => "neg"@,
                        UnaryOp::Not => "not"@,
                    },
                ]));
            }
            Ok(())
        },
        Expr::BinaryExpr { lhs, op, rhs } => {
            match compile_expression(output, lhs, context) {
                Ok(u) => {},
                Err(e) => {
                    return Err(e);
                },
            }
            match compile_expression(output, rhs, context) {
                Ok(u) => {},
                Err(e) => {
                    return Err(e);
                },
            }
            match op {
                BinaryOp::Plus => push_line(output, "add"),
                BinaryOp::Minus => push_line(output, "sub"),
                BinaryOp::Mult => push_line(output, "call Math.multiply 2"),
                BinaryOp::Div => push_line(output, "call Math.divide 2"),
                BinaryOp::And => push_line(output, "and"),
                BinaryOp::Or => push_line(output, "or"),
                BinaryOp::Lt => push_line(output, "lt"),
                BinaryOp::Gt => push_line(output, "gt"),
                BinaryOp::Eq => push_line(output, "eq"),
            }
            proof {
                let ll = spec_compile_expression(**lhs, cv)->Ok_0;
                let rl = spec_compile_expression(**rhs, cv)->Ok_0;
                assert(lines_view(output@) =~= base + (ll + rl + seq![binary_op_line(*op)]));
            }
            Ok(())
        },
        Expr::BracketedExpr(sub) => compile_expression(output, sub, context),
        Expr::Call(call) => compile_call(output, call, context),
    }
}

/// Compiles one subroutine call: the receiver (when one is owed), the
/// arguments left to right, then the `call` line.
pub fn compile_call(
    output: &mut Vec<String>,
    call: &SubroutineCall,
    context: &mut CompilationContext,
) -> (r: Result<(), CompilationError>)
    ensures
        *final(context) == *old(context),
        match spec_compile_call(*call, ctx_view(*old(context))) {
            Ok(ls) => r is Ok && lines_view(final(output)@) == lines_view(old(output)@) + ls,
            Err(m) => r matches Err(e) && (e matches CompilationError::MissingVariable {
                var_name,
            } && var_name@ == m),
        },
    decreases *call,
{
    let ghost cv = ctx_view(*context);
    let ghost base = lines_view(output@);
    let ghost mut pre_args: Seq<Seq<char>> = Seq::empty();
    let ghost mut callee_name: Seq<char> = Seq::empty();
    let ghost mut arg_count: int = 0;

    let mut callee: String;
    let count_str: String;
    match &call.target_name {
        Some(target_name) => {
            match context.symbol_table.find_variable(target_name.as_str()) {
                Some(variable) => {
                    emit_seg_line(output, "push ", &variable);
                    callee = variable.var_type.clone();
                    callee.append(".");
                    callee.append(call.subroutine_name.as_str());
                    count_str = count_plus_one_string(call.parameters.len());
                    proof {
                        let v = spec_find(cv.table.vars, target_name@)->Some_0;
                        pre_args = seq![push_line_of(v)];
                        callee_name = v.var_type + "."@ + call.subroutine_name@;
                        arg_count = call.parameters@.len() as int + 1;
                        assert(callee@ =~= callee_name);
                    }
                },
                None => {
                    callee = target_name.clone();
                    callee.append(".");
                    callee.append(call.subroutine_name.as_str());
                    count_str = usize_to_string(call.parameters.len());
                    proof {
                        pre_args = Seq::empty();
                        callee_name = target_name@ + "."@ + call.subroutine_name@;
                        arg_count = call.parameters@.len() as int;
                        assert(callee@ =~= callee_name);
                    }
                },
            }
        },
        None => {
            push_line(output, "push pointer 0");
            callee = context.class_name.clone();
            callee.append(".");
            callee.append(call.subroutine_name.as_str());
            count_str = count_plus_one_string(call.parameters.len());
            proof {
                pre_args = seq!["push pointer 0"@];
                callee_name = cv.class_name + "."@ + call.subroutine_name@;
                arg_count = call.parameters@.len() as int + 1;
                assert(callee@ =~= callee_name);
            }
        },
    }
    proof {
        assert(lines_view(output@) =~= base + pre_args);
    }

    let ghost params = call.parameters@;
    let ghost head = lines_view(output@);
    let ghost mut done: Seq<Seq<char>> = Seq::empty();
    proof {
        assert(params.skip(0) =~= params);
        assert(head + done =~= head);
        match spec_compile_args(params, cv) {
            Ok(rest) => {
                assert(done + rest =~= rest);
            },
            Err(m) => {},
        }
    }
    let mut i: usize = 0;
    while i < call.parameters.len()
        invariant
            i <= params.len(),
            params == call.parameters@,
            *context == *old(context),
            cv == ctx_view(*context),
            lines_view(output@) == head + done,
            spec_compile_args(params, cv) == (match spec_compile_args(params.skip(i as int), cv) {
                Ok(rest) => Ok::<Seq<Seq<char>>, Seq<char>>(done + rest),
                Err(m) => Err::<Seq<Seq<char>>, Seq<char>>(m),
            }),
        decreases params.len() - i,
    {
        let ghost sfx = params.skip(i as int);
        proof {
            assert(sfx[0] == params[i as int]);
            assert(sfx.skip(1) =~= params.skip(i + 1));
            assert(decreases_to!(*call => call.parameters@[i as int]));
        }
        match compile_expression(output, &call.parameters[i], context) {
            Ok(u) => {},
            Err(e) => {
                return Err(e);
            },
        }
        proof {
            let el = spec_compile_expression(params[i as int], cv)->Ok_0;
            let prev = done;
            done = done + el;
            assert(lines_view(output@) =~= head + done);
            match spec_compile_args(params.skip(i + 1), cv) {
                Ok(rest) => {
                    assert(prev + (el + rest) =~= done + rest);
                },
                Err(m) => {},
            }
        }
        i = i + 1;
    }
    proof {
        assert(params.skip(i as int) =~= Seq::<Expr>::empty());
        assert(done + Seq::<Seq<char>>::empty() =~= done);
    }

    let mut line = String::from_str("call ");
    line.append(callee.as_str());
    line.append(" ");
    line.append(count_str.as_str());
    proof {
        assert(line@ =~= call_line(callee_name, arg_count));
    }
    push_line_string(output, line);
    proof {
        let args = spec_compile_args(params, cv)->Ok_0;
        assert(lines_view(output@) =~= base + (pre_args + args + seq![
            call_line(callee_name, arg_count),
        ]));
    }
    Ok(())
}

/// Compiles one statement, appending its lines and advancing the label
/// counters; the symbol table and names are read only.
#[verifier::rlimit(100)]
pub fn compile_statement(
    output: &mut Vec<String>,
    statement: &Statement,
    context: &mut CompilationContext,
) -> (r: Result<(), CompilationError>)
    requires
        ctx_view(*old(context)).while_count + count_constructs(*statement) <= usize::MAX,
        ctx_view(*old(context)).if_count + count_constructs(*statement) <= usize::MAX,
    ensures
        ctx_view(*final(context)).table == ctx_view(*old(context)).table,
        ctx_view(*final(context)).class_name == ctx_view(*old(context)).class_name,
        ctx_view(*final(context)).sub_name == ctx_view(*old(context)).sub_name,
        match spec_compile_statement(*statement, ctx_view(*old(context))) {
            Ok((ls, c2)) => r is Ok && lines_view(final(output)@) == lines_view(old(output)@) + ls
                && ctx_view(*final(context)) == c2,
            Err(m) => r matches Err(e) && (e matches CompilationError::MissingVariable {
                var_name,
            } && var_name@ == m),
        },
    decreases *statement,
{
    let ghost cv = ctx_view(*context);
    let ghost base = lines_view(output@);
    match statement {
        Statement::Let(details) => {
            let variable = match context.symbol_table.find_variable(
                details.identifier.name.as_str(),
            ) {
                Some(variable) => variable,
                None => {
                    return Err(
                        CompilationError::MissingVariable {
                            var_name: details.identifier.name.clone(),
                        },
                    );
                },
            };
            let ghost v = spec_find(cv.table.vars, details.identifier.name@)->Some_0;
            match &details.identifier.index {
                Some(index) => {
                    emit_seg_line(output, "push ", &variable);
                    match compile_expression(output, index, context) {
                        Ok(u) => {},
                        Err(e) => {
                            return Err(e);
                        },
                    }
                    push_line(output, "add");
                    match compile_expression(output, &details.expression, context) {
                        Ok(u) => {},
                        Err(e) => {
                            return Err(e);
                        },
                    }
                    push_line(output, "pop temp 0");
                    push_line(output, "pop pointer 1");
                    push_line(output, "push temp 0");
                    push_line(output, "pop that 0");
                    proof {
                        let il = spec_compile_expression(
                            *details.identifier.index->Some_0,
                            cv,
                        )->Ok_0;
                        let rl = spec_compile_expression(details.expression, cv)->Ok_0;
                        assert(lines_view(output@) =~= base + (seq![push_line_of(v)] + il + seq![
                            "add"@,
                        ] + rl + seq![
                            "pop temp 0"@,
                            "pop pointer 1"@,
                            "push temp 0"@,
                            "pop that 0"@,
                        ]));
                    }
                },
                None => {
                    match compile_expression(output, &details.expression, context) {
                        Ok(u) => {},
                        Err(e) => {
                            return Err(e);
                        },
                    }
                    emit_seg_line(output, "pop ", &variable);
                    proof {
                        let rl = spec_compile_expression(details.expression, cv)->Ok_0;
                        assert(lines_view(output@) =~= base + (rl + seq![pop_line_of(v)]));
                    }
                },
            }
            Ok(())
        },
        Statement::While(details) => {
            proof {
                lemma_count_constructs_list_nonneg(details.body@);
            }
            let while_label = context.next_while_label();
            let ghost stem = cv.sub_name + ".while."@ + dec_str(cv.while_count as nat);
            let ghost c1 = CtxV { while_count: cv.while_count + 1, ..cv };
            proof {
                assert(ctx_view(*context) == c1);
            }
            push_line_string(output, concat3("label ", while_label.as_str(), ".condition"));
            match compile_expression(output, &details.condition, context) {
                Ok(u) => {},
                Err(e) => {
                    return Err(e);
                },
            }
            push_line_string(output, concat3("if-goto ", while_label.as_str(), ".while_body"));
            push_line_string(output, concat3("goto ", while_label.as_str(), ".while_end"));
            push_line_string(output, concat3("label ", while_label.as_str(), ".while_body"));
            proof {
                assert(decreases_to!(*statement => details.body));
            }
            match compile_statement_list(output, &details.body, context) {
                Ok(u) => {},
                Err(e) => {
                    return Err(e);
                },
            }
            push_line_string(output, concat3("goto ", while_label.as_str(), ".condition"));
            push_line_string(output, concat3("label ", while_label.as_str(), ".while_end"));
            proof {
                let cond = spec_compile_expression(details.condition, c1)->Ok_0;
                let bl = spec_compile_statements(details.body@, c1)->Ok_0.0;
                assert(lines_view(output@) =~= base + (seq!["label "@ + stem + ".condition"@]
                    + cond + seq![
                    "if-goto "@ + stem + ".while_body"@,
                    "goto "@ + stem + ".while_end"@,
                    "label "@ + stem + ".while_body"@,
                ] + bl + seq!["goto "@ + stem + ".condition"@, "label "@ + stem + ".while_end"@]));
            }
            Ok(())
        },
        Statement::Do(call) => {
            match compile_call(output, call, context) {
                Ok(u) => {},
                Err(e) => {
                    return Err(e);
                },
            }
            push_line(output, "pop temp 0");
            proof {
                let cl = spec_compile_call(*call, cv)->Ok_0;
                assert(lines_view(output@) =~= base + (cl + seq!["pop temp 0"@]));
            }
            Ok(())
        },
        Statement::If(details) => {
            proof {
                lemma_count_constructs_list_nonneg(details.if_body@);
                if details.else_body is Some {
                    lemma_count_constructs_list_nonneg(details.else_body->Some_0@);
                }
            }
            let if_label = context.next_if_label();
            let ghost stem = cv.sub_name + ".if."@ + dec_str(cv.if_count as nat);
            let ghost c1 = CtxV { if_count: cv.if_count + 1, ..cv };
            proof {
                assert(ctx_view(*context) == c1);
            }
            match compile_expression(output, &details.condition, context) {
                Ok(u) => {},
                Err(e) => {
                    return Err(e);
                },
            }
            push_line_string(output, concat3("if-goto ", if_label.as_str(), ".if_body"));
            match &details.else_body {
                Some(else_body) => {
                    proof {
                        assert(decreases_to!(*statement => details.else_body->Some_0));
                        lemma_statements_growth(details.else_body->Some_0@, c1);
                    }
                    match compile_statement_list(output, else_body, context) {
                        Ok(u) => {},
                        Err(e) => {
                            return Err(e);
                        },
                    }
                },
                None => {},
            }
            let ghost c2 = (if details.else_body is Some {
                spec_compile_statements(details.else_body->Some_0@, c1)->Ok_0.1
            } else {
                c1
            });
            push_line_string(output, concat3("goto ", if_label.as_str(), ".if_end"));
            push_line_string(output, concat3("label ", if_label.as_str(), ".if_body"));
            proof {
                assert(decreases_to!(*statement => details.if_body));
            }
            match compile_statement_list(output, &details.if_body, context) {
                Ok(u) => {},
                Err(e) => {
                    return Err(e);
                },
            }
            push_line_string(output, concat3("label ", if_label.as_str(), ".if_end"));
            proof {
                let cond = spec_compile_expression(details.condition, c1)->Ok_0;
                let el = (if details.else_body is Some {
                    spec_compile_statements(details.else_body->Some_0@, c1)->Ok_0.0
                } else {
                    Seq::<Seq<char>>::empty()
                });
                let tl = spec_compile_statements(details.if_body@, c2)->Ok_0.0;
                assert(lines_view(output@) =~= base + (cond + seq![
                    "if-goto "@ + stem + ".if_body"@,
                ] + el + seq!["goto "@ + stem + ".if_end"@, "label "@ + stem + ".if_body"@] + tl
                    + seq!["label "@ + stem + ".if_end"@]));
            }
            Ok(())
        },
        Statement::Return(opt) => {
            match opt {
                Some(e) => {
                    match compile_expression(output, e, context) {
                        Ok(u) => {},
                        Err(err) => {
                            return Err(err);
                        },
                    }
                    push_line(output, "return");
                    proof {
                        let ls = spec_compile_expression(opt->Some_0, cv)->Ok_0;
                        assert(lines_view(output@) =~= base + (ls + seq!["return"@]));
                    }
                },
                None => {
                    push_line(output, "push constant 0");
                    push_line(output, "return");
                    proof {
                        assert(lines_view(output@) =~= base + seq![
                            "push constant 0"@,
                            "return"@,
                        ]);
                    }
                },
            }
            Ok(())
        },
        Statement::VarDecl(d) => {
            proof {
                assert(lines_view(output@) =~= base + Seq::<Seq<char>>::empty());
            }
            Ok(())
        },
    }
}

/// Compiles a statement list in order, threading the label counters.
pub fn compile_statement_list(
    output: &mut Vec<String>,
    list: &Vec<Statement>,
    context: &mut CompilationContext,
) -> (r: Result<(), CompilationError>)
    requires
        ctx_view(*old(context)).while_count + count_constructs_list(list@) <= usize::MAX,
        ctx_view(*old(context)).if_count + count_constructs_list(list@) <= usize::MAX,
    ensures
        ctx_view(*final(context)).table == ctx_view(*old(context)).table,
        ctx_view(*final(context)).class_name == ctx_view(*old(context)).class_name,
        ctx_view(*final(context)).sub_name == ctx_view(*old(context)).sub_name,
        match spec_compile_statements(list@, ctx_view(*old(context))) {
            Ok((ls, c2)) => r is Ok && lines_view(final(output)@) == lines_view(old(output)@) + ls
                && ctx_view(*final(context)) == c2,
            Err(m) => r matches Err(e) && (e matches CompilationError::MissingVariable {
                var_name,
            } && var_name@ == m),
        },
    decreases list@,
{
    let ghost cv0 = ctx_view(*context);
    let ghost base = lines_view(output@);
    let ghost full = list@;
    let ghost mut done: Seq<Seq<char>> = Seq::empty();
    proof {
        assert(full.skip(0) =~= full);
        assert(base + done =~= base);
        match spec_compile_statements(full, cv0) {
            Ok((rest, c2)) => {
                assert(done + rest =~= rest);
            },
            Err(m) => {},
        }
    }
    let mut i: usize = 0;
    while i < list.len()
        invariant
            i <= full.len(),
            full == list@,
            cv0 == ctx_view(*old(context)),
            base == lines_view(old(output)@),
            lines_view(output@) == base + done,
            ctx_view(*context).table == cv0.table,
            ctx_view(*context).class_name == cv0.class_name,
            ctx_view(*context).sub_name == cv0.sub_name,
            ctx_view(*context).while_count + count_constructs_list(full.skip(i as int))
                <= usize::MAX,
            ctx_view(*context).if_count + count_constructs_list(full.skip(i as int)) <= usize::MAX,
            spec_compile_statements(full, cv0) == (match spec_compile_statements(
                full.skip(i as int),
                ctx_view(*context),
            ) {
                Ok((rest, c2)) => Ok::<(Seq<Seq<char>>, CtxV), Seq<char>>((done + rest, c2)),
                Err(m) => Err::<(Seq<Seq<char>>, CtxV), Seq<char>>(m),
            }),
        decreases full.len() - i,
    {
        let ghost cvi = ctx_view(*context);
        let ghost sfx = full.skip(i as int);
        proof {
            assert(sfx[0] == full[i as int]);
            assert(sfx.skip(1) =~= full.skip(i + 1));
            lemma_count_constructs_nonneg(full[i as int]);
            lemma_count_constructs_list_nonneg(full.skip(i + 1));
            assert(decreases_to!(list@ => list@[i as int]));
        }
        match compile_statement(output, &list[i], context) {
            Ok(u) => {},
            Err(e) => {
                return Err(e);
            },
        }
        proof {
            lemma_statement_growth(full[i as int], cvi);
            let (ls, c2) = spec_compile_statement(full[i as int], cvi)->Ok_0;
            let prev = done;
            done = done + ls;
            assert(lines_view(output@) =~= base + done);
            match spec_compile_statements(full.skip(i + 1), c2) {
                Ok((rest, c3)) => {
                    assert(prev + (ls + rest) =~= done + rest);
                },
                Err(m) => {},
            }
        }
        i = i + 1;
    }
    proof {
        assert(full.skip(i as int) =~= Seq::<Statement>::empty());
        assert(done + Seq::<Seq<char>>::empty() =~= done);
    }
    Ok(())
}

/// Registers every `var` declaration of a statement, however deeply it
/// nests, as a local of the current subroutine.
pub fn find_var_decl_in_statement_tree(statement: &Statement, symbol_table: &mut SymbolTable)
    requires
        table_wf(st_view(*old(symbol_table))),
    ensures
        st_view(*final(symbol_table)) == spec_register(*statement, st_view(*old(symbol_table))),
        table_wf(st_view(*final(symbol_table))),
    decreases *statement,
{
    proof {
        lemma_register_wf(*statement, st_view(*symbol_table));
    }
    match statement {
        Statement::While(details) => {
            proof {
                assert(decreases_to!(*statement => details.body));
            }
            register_statement_list(&details.body, symbol_table);
        },
        Statement::If(details) => {
            proof {
                assert(decreases_to!(*statement => details.if_body));
            }
            register_statement_list(&details.if_body, symbol_table);
            match &details.else_body {
                Some(else_body) => {
                    proof {
                        assert(decreases_to!(*statement => details.else_body->Some_0));
                    }
                    register_statement_list(else_body, symbol_table);
                },
                None => {},
            }
        },
        Statement::VarDecl(var_details) => {
            let ghost vars = var_details.variables@;
            let ghost t0 = st_view(*symbol_table);
            proof {
                assert(vars.skip(0) =~= vars);
            }
            let mut i: usize = 0;
            while i < var_details.variables.len()
                invariant
                    i <= vars.len(),
                    vars == var_details.variables@,
                    table_wf(st_view(*symbol_table)),
                    spec_add_locals(vars, t0) == spec_add_locals(
                        vars.skip(i as int),
                        st_view(*symbol_table),
                    ),
                decreases vars.len() - i,
            {
                let ghost sfx = vars.skip(i as int);
                proof {
                    assert(sfx[0] == vars[i as int]);
                    assert(sfx.skip(1) =~= vars.skip(i + 1));
                    crate::compiler::symbol_table::lemma_add_preserves_wf(
                        st_view(*symbol_table),
                        vars[i as int].identifier@,
                        var_type_name(vars[i as int].var_type),
                        Scope::Local,
                    );
                }
                let var = &var_details.variables[i];
                let type_str = var.var_type.to_string();
                symbol_table.add_local(var.identifier.as_str(), type_str.as_str());
                i = i + 1;
            }
            proof {
                assert(vars.skip(i as int) =~= Seq::<Variable>::empty());
            }
        },
        _ => {},
    }
}

/// Registers the declarations of a statement list.
fn register_statement_list(list: &Vec<Statement>, symbol_table: &mut SymbolTable)
    requires
        table_wf(st_view(*old(symbol_table))),
    ensures
        st_view(*final(symbol_table)) == spec_register_list(list@, st_view(*old(symbol_table))),
        table_wf(st_view(*final(symbol_table))),
    decreases list@,
{
    let ghost full = list@;
    let ghost t0 = st_view(*symbol_table);
    proof {
        assert(full.skip(0) =~= full);
    }
    let mut i: usize = 0;
    while i < list.len()
        invariant
            i <= full.len(),
            full == list@,
            table_wf(st_view(*symbol_table)),
            spec_register_list(full, t0) == spec_register_list(
                full.skip(i as int),
                st_view(*symbol_table),
            ),
        decreases full.len() - i,
    {
        let ghost sfx = full.skip(i as int);
        proof {
            assert(sfx[0] == full[i as int]);
            assert(sfx.skip(1) =~= full.skip(i + 1));
            assert(decreases_to!(list@ => list@[i as int]));
        }
        find_var_decl_in_statement_tree(&list[i], symbol_table);
        i = i + 1;
    }
    proof {
        assert(full.skip(i as int) =~= Seq::<Statement>::empty());
    }
}

/// Compiling a subroutine moves the label counters up by at most its
/// construct count, and touches nothing else but the table.
pub proof fn lemma_subroutine_growth(sub: Subroutine, c: CtxV)
    ensures
        spec_compile_subroutine(sub, c) matches Ok((ls, c2)) ==> c.while_count <= c2.while_count
            && c.if_count <= c2.if_count && c2.while_count + c2.if_count <= c.while_count
            + c.if_count + sub_constructs(sub) && c2.class_name == c.class_name && c2.sub_name
            == c.sub_name,
        sub_constructs(sub) >= 0,
{
    lemma_count_constructs_list_nonneg(sub.statements@);
    let t1 = if sub.subroutine_type == SubroutineType::Method {
        spec_add(c.table, "this"@, c.class_name, Scope::Argument)
    } else {
        c.table
    };
    let t2 = spec_add_args(sub.parameters@, t1);
    let t3 = spec_register_list(sub.statements@, t2);
    let c1 = CtxV { table: t3, ..c };
    lemma_statements_growth(sub.statements@, c1);
}

/// The construct count of a subroutine list is never negative.
pub proof fn lemma_subs_constructs_nonneg(subs: Seq<Subroutine>)
    ensures
        subs_constructs(subs) >= 0,
    decreases subs,
{
    if subs.len() > 0 {
        lemma_count_constructs_list_nonneg(subs[0].statements@);
        lemma_subs_constructs_nonneg(subs.skip(1));
    }
}

/// Compiles one subroutine: registers its receiver, parameters and
/// locals, emits the `function` line and the prologue its kind demands,
/// then its body. The caller has opened a scope and set the name.
pub fn compile_subroutines(
    output: &mut Vec<String>,
    subroutine: &Subroutine,
    context: &mut CompilationContext,
) -> (r: Result<(), CompilationError>)
    requires
        table_wf(ctx_view(*old(context)).table),
        ctx_view(*old(context)).while_count + sub_constructs(*subroutine) <= usize::MAX,
        ctx_view(*old(context)).if_count + sub_constructs(*subroutine) <= usize::MAX,
    ensures
        ctx_view(*final(context)).class_name == ctx_view(*old(context)).class_name,
        ctx_view(*final(context)).sub_name == ctx_view(*old(context)).sub_name,
        match spec_compile_subroutine(*subroutine, ctx_view(*old(context))) {
            Ok((ls, c2)) => r is Ok && lines_view(final(output)@) == lines_view(old(output)@) + ls
                && ctx_view(*final(context)) == c2 && table_wf(c2.table),
            Err(m) => r matches Err(e) && (e matches CompilationError::MissingVariable {
                var_name,
            } && var_name@ == m),
        },
{
    let ghost cv = ctx_view(*context);
    let ghost base = lines_view(output@);
    proof {
        lemma_count_constructs_list_nonneg(subroutine.statements@);
    }

    if subroutine.get_subroutine_type() == SubroutineType::Method {
        let class_name = context.class_name.clone();
        proof {
            crate::compiler::symbol_table::lemma_add_preserves_wf(
                st_view(context.symbol_table),
                "this"@,
                cv.class_name,
                Scope::Argument,
            );
        }
        context.symbol_table.add_argument("this", class_name.as_str());
    }
    let ghost t1 = (if subroutine.subroutine_type == SubroutineType::Method {
        spec_add(cv.table, "this"@, cv.class_name, Scope::Argument)
    } else {
        cv.table
    });
    proof {
        assert(st_view(context.symbol_table) == t1);
    }

    let ghost params = subroutine.parameters@;
    let mut i: usize = 0;
    proof {
        assert(params.skip(0) =~= params);
        lemma_add_args_wf(params, t1);
    }
    while i < subroutine.parameters.len()
        invariant
            i <= params.len(),
            params == subroutine.parameters@,
            table_wf(st_view(context.symbol_table)),
            spec_add_args(params, t1) == spec_add_args(
                params.skip(i as int),
                st_view(context.symbol_table),
            ),
            *context == (CompilationContext { symbol_table: context.symbol_table, ..*old(context) }),
        decreases params.len() - i,
    {
        let ghost sfx = params.skip(i as int);
        proof {
            assert(sfx[0] == params[i as int]);
            assert(sfx.skip(1) =~= params.skip(i + 1));
            crate::compiler::symbol_table::lemma_add_preserves_wf(
                st_view(context.symbol_table),
                params[i as int].identifier@,
                var_type_name(params[i as int].var_type),
                Scope::Argument,
            );
        }
        let parameter = &subroutine.parameters[i];
        let type_str = parameter.var_type.to_string();
        context.symbol_table.add_argument(parameter.identifier.as_str(), type_str.as_str());
        i = i + 1;
    }
    proof {
        assert(params.skip(i as int) =~= Seq::<Variable>::empty());
    }
    let ghost t2 = spec_add_args(params, t1);

    let ghost stmts = subroutine.statements@;
    let mut k: usize = 0;
    proof {
        assert(stmts.skip(0) =~= stmts);
    }
    while k < subroutine.statements.len()
        invariant
            k <= stmts.len(),
            stmts == subroutine.statements@,
            table_wf(st_view(context.symbol_table)),
            spec_register_list(stmts, t2) == spec_register_list(
                stmts.skip(k as int),
                st_view(context.symbol_table),
            ),
            *context == (CompilationContext { symbol_table: context.symbol_table, ..*old(context) }),
        decreases stmts.len() - k,
    {
        let ghost sfx = stmts.skip(k as int);
        proof {
            assert(sfx[0] == stmts[k as int]);
            assert(sfx.skip(1) =~= stmts.skip(k + 1));
        }
        find_var_decl_in_statement_tree(&subroutine.statements[k], &mut context.symbol_table);
        k = k + 1;
    }
    proof {
        assert(stmts.skip(k as int) =~= Seq::<Statement>::empty());
    }
    let ghost t3 = spec_register_list(stmts, t2);
    proof {
        assert(st_view(context.symbol_table) == t3);
    }

    let num_args = context.symbol_table.count_locals();
    let mut fline = String::from_str("function ");
    fline.append(context.class_name.as_str());
    fline.append(".");
    fline.append(subroutine.identifier.as_str());
    fline.append(" ");
    let num_str = usize_to_string(num_args);
    fline.append(num_str.as_str());
    proof {
        assert(fline@ =~= "function "@ + cv.class_name + "."@ + subroutine.identifier@ + " "@
            + dec_str(count_scope(t3.vars, Scope::Local) as nat));
    }
    push_line_string(output, fline);

    let ghost prologue = (match subroutine.subroutine_type {
        SubroutineType::Constructor => seq![
            "push constant "@ + dec_str(count_scope(t3.vars, Scope::Field) as nat),
            "call Memory.alloc 1"@,
            "pop pointer 0"@,
        ],
        SubroutineType::Method => seq!["push argument 0"@, "pop pointer 0"@],
        SubroutineType::Function => Seq::<Seq<char>>::empty(),
    });
    match subroutine.get_subroutine_type() {
        SubroutineType::Constructor => {
            let nfields = context.symbol_table.count_fields();
            let digits = usize_to_string(nfields);
            let cline = concat2("push constant ", digits.as_str());
            push_line_string(output, cline);
            push_line(output, "call Memory.alloc 1");
            push_line(output, "pop pointer 0");
        },
        SubroutineType::Method => {
            push_line(output, "push argument 0");
            push_line(output, "pop pointer 0");
        },
        SubroutineType::Function => {},
    }
    let ghost head = lines_view(output@);
    proof {
        let fl = "function "@ + cv.class_name + "."@ + subroutine.identifier@ + " "@ + dec_str(
            count_scope(t3.vars, Scope::Local) as nat,
        );
        assert(head =~= base + seq![fl] + prologue);
    }

    let ghost c1 = CtxV { table: t3, ..cv };
    proof {
        assert(ctx_view(*context) == c1);
    }
    match compile_statement_list(output, &subroutine.statements, context) {
        Ok(u) => {},
        Err(e) => {
            return Err(e);
        },
    }
    proof {
        let fl = "function "@ + cv.class_name + "."@ + subroutine.identifier@ + " "@ + dec_str(
            count_scope(t3.vars, Scope::Local) as nat,
        );
        let bl = spec_compile_statements(stmts, c1)->Ok_0.0;
        assert(lines_view(output@) =~= base + (seq![fl] + prologue + bl));
    }
    Ok(())
}

/// The lines of each class of a program, paired with its file name, or
/// the first unresolved name.
pub open spec fn spec_translate_classes(classes: Seq<CompiledClass>) -> Result<
    Seq<(Seq<char>, Seq<Seq<char>>)>,
    Seq<char>,
>
    decreases classes,
{
    if classes.len() == 0 {
        Ok(Seq::empty())
    } else {
        match spec_compile_class(classes[0].class) {
            Err(m) => Err(m),
            Ok(ls) => match spec_translate_classes(classes.skip(1)) {
                Err(m) => Err(m),
                Ok(rest) => Ok(seq![(classes[0].source_filename@, ls)] + rest),
            },
        }
    }
}

/// The file name and lines of each output.
pub open spec fn outputs_view(v: Seq<CompilationOutput>) -> Seq<(Seq<char>, Seq<Seq<char>>)> {
    Seq::new(v.len(), |i: int| (v[i].source_filename@, lines_view(v[i].vm_code@)))
}

/// Compiles one class: its variables fill the table, then each
/// subroutine is compiled in its own scope under its own name.
pub fn compile_class(class: &Class) -> (r: Result<Vec<String>, CompilationError>)
    requires
        subs_constructs(class.subroutines@) <= usize::MAX,
    ensures
        match spec_compile_class(*class) {
            Ok(ls) => r matches Ok(v) && lines_view(v@) == ls,
            Err(m) => r matches Err(e) && (e matches CompilationError::MissingVariable {
                var_name,
            } && var_name@ == m),
        },
{
    let mut output: Vec<String> = Vec::new();
    let mut context = CompilationContext::new(class.get_name());
    let ghost empty_table = SymTabV {
        vars: Seq::<crate::compiler::symbol_table::SymVarV>::empty(),
        scopes: Seq::<int>::empty(),
    };

    let ghost cvars = class.variables@;
    let mut i: usize = 0;
    proof {
        assert(cvars.skip(0) =~= cvars);
    }
    while i < class.variables.len()
        invariant
            i <= cvars.len(),
            cvars == class.variables@,
            table_wf(st_view(context.symbol_table)),
            spec_add_class_vars(cvars, empty_table) == spec_add_class_vars(
                cvars.skip(i as int),
                st_view(context.symbol_table),
            ),
            context.class_name@ == class.identifier@,
            context.subroutine_name@ == Seq::<char>::empty(),
            context.while_count == 0 && context.if_count == 0,
        decreases cvars.len() - i,
    {
        let ghost sfx = cvars.skip(i as int);
        let ghost scope = (match cvars[i as int].visibility {
            ClassVariableVisibility::Field => Scope::Field,
            ClassVariableVisibility::Static => Scope::Static,
        });
        proof {
            assert(sfx[0] == cvars[i as int]);
            assert(sfx.skip(1) =~= cvars.skip(i + 1));
            crate::compiler::symbol_table::lemma_add_preserves_wf(
                st_view(context.symbol_table),
                cvars[i as int].identifier@,
                var_type_name(cvars[i as int].var_type),
                scope,
            );
        }
        let variable = &class.variables[i];
        let type_str = variable.var_type.to_string();
        match variable.get_visibility() {
            ClassVariableVisibility::Field => {
                context.symbol_table.add_field(variable.identifier.as_str(), type_str.as_str());
            },
            ClassVariableVisibility::Static => {
                context.symbol_table.add_static(variable.identifier.as_str(), type_str.as_str());
            },
        }
        i = i + 1;
    }
    proof {
        assert(cvars.skip(i as int) =~= Seq::<ClassVariable>::empty());
    }
    let ghost t0 = spec_add_class_vars(cvars, empty_table);
    let ghost c0 = CtxV {
        table: t0,
        class_name: class.identifier@,
        sub_name: Seq::<char>::empty(),
        while_count: 0,
        if_count: 0,
    };
    proof {
        assert(ctx_view(context) == c0);
    }

    let ghost subs = class.subroutines@;
    let ghost base = lines_view(output@);
    let ghost mut done: Seq<Seq<char>> = Seq::empty();
    proof {
        assert(subs.skip(0) =~= subs);
        assert(base + done =~= base);
        assert(base =~= Seq::<Seq<char>>::empty());
        match spec_compile_subs(subs, c0) {
            Ok((rest, c2)) => {
                assert(done + rest =~= rest);
            },
            Err(m) => {},
        }
    }
    let mut k: usize = 0;
    while k < class.subroutines.len()
        invariant
            k <= subs.len(),
            subs == class.subroutines@,
            cvars == class.variables@,
            empty_table == (SymTabV {
                vars: Seq::<crate::compiler::symbol_table::SymVarV>::empty(),
                scopes: Seq::<int>::empty(),
            }),
            c0 == (CtxV {
                table: spec_add_class_vars(cvars, empty_table),
                class_name: class.identifier@,
                sub_name: Seq::<char>::empty(),
                while_count: 0int,
                if_count: 0int,
            }),
            table_wf(ctx_view(context).table),
            lines_view(output@) == base + done,
            base == Seq::<Seq<char>>::empty(),
            ctx_view(context).class_name == c0.class_name,
            ctx_view(context).while_count + subs_constructs(subs.skip(k as int)) <= usize::MAX,
            ctx_view(context).if_count + subs_constructs(subs.skip(k as int)) <= usize::MAX,
            spec_compile_subs(subs, c0) == (match spec_compile_subs(
                subs.skip(k as int),
                ctx_view(context),
            ) {
                Ok((rest, c2)) => Ok::<(Seq<Seq<char>>, CtxV), Seq<char>>((done + rest, c2)),
                Err(m) => Err::<(Seq<Seq<char>>, CtxV), Seq<char>>(m),
            }),
        decreases subs.len() - k,
    {
        let ghost cvk = ctx_view(context);
        let ghost sfx = subs.skip(k as int);
        proof {
            assert(sfx[0] == subs[k as int]);
            assert(sfx.skip(1) =~= subs.skip(k + 1));
            lemma_subroutine_growth(subs[k as int], cvk);
            lemma_subs_constructs_nonneg(subs.skip(k + 1));
        }
        let subroutine = &class.subroutines[k];
        context.symbol_table.create_scope();
        let name_copy = subroutine.get_name().clone();
        context.set_subroutine_name(name_copy.as_str());
        let ghost cs = CtxV {
            table: SymTabV {
                vars: cvk.table.vars,
                scopes: cvk.table.scopes.push(cvk.table.vars.len() as int),
            },
            sub_name: subs[k as int].identifier@,
            ..cvk
        };
        proof {
            assert(ctx_view(context) == cs);
            assert(table_wf(cs.table));
            lemma_subroutine_growth(subs[k as int], cs);
        }
        match compile_subroutines(&mut output, subroutine, &mut context) {
            Ok(u) => {},
            Err(e) => {
                return Err(e);
            },
        }
        let ghost c2 = spec_compile_subroutine(subs[k as int], cs)->Ok_0.1;
        context.symbol_table.pop_scope();
        proof {
            let c3 = CtxV { table: spec_pop_scope(c2.table), ..c2 };
            assert(ctx_view(context) == c3);
            assert(table_wf(c3.table)) by {
                if c2.table.scopes.len() > 0 {
                    assert(forall|q: int|
                        0 <= q < c3.table.vars.len() ==> c3.table.vars[q] == c2.table.vars[q]);
                }
            }
            let (ls, cdup) = spec_compile_subroutine(subs[k as int], cs)->Ok_0;
            let prev = done;
            done = done + ls;
            assert(lines_view(output@) =~= base + done);
            match spec_compile_subs(subs.skip(k + 1), c3) {
                Ok((rest, c4)) => {
                    assert(prev + (ls + rest) =~= done + rest);
                },
                Err(m) => {},
            }
        }
        k = k + 1;
    }
    proof {
        assert(subs.skip(k as int) =~= Seq::<Subroutine>::empty());
        assert(done + Seq::<Seq<char>>::empty() =~= done);
        assert(Seq::<Seq<char>>::empty() + done =~= done);
    }
    Ok(output)
}

/// Compiles every class of a parsed program, in order.
pub fn translate_ast(ast: &AST) -> (r: Result<Vec<CompilationOutput>, CompilationError>)
    requires
        forall|i: int|
            0 <= i < ast.classes@.len() ==> subs_constructs(
                (#[trigger] ast.classes@[i]).class.subroutines@,
            ) <= usize::MAX,
    ensures
        match spec_translate_classes(ast.classes@) {
            Ok(items) => r matches Ok(v) && outputs_view(v@) == items,
            Err(m) => r matches Err(e) && (e matches CompilationError::MissingVariable {
                var_name,
            } && var_name@ == m),
        },
{
    let ghost classes = ast.classes@;
    let mut output: Vec<CompilationOutput> = Vec::new();
    let mut i: usize = 0;
    proof {
        assert(classes.skip(0) =~= classes);
        match spec_translate_classes(classes) {
            Ok(rest) => {
                assert(outputs_view(output@) + rest =~= rest);
            },
            Err(m) => {},
        }
    }
    while i < ast.classes.len()
        invariant
            i <= classes.len(),
            classes == ast.classes@,
            forall|q: int|
                0 <= q < classes.len() ==> subs_constructs(
                    (#[trigger] classes[q]).class.subroutines@,
                ) <= usize::MAX,
            spec_translate_classes(classes) == (match spec_translate_classes(
                classes.skip(i as int),
            ) {
                Ok(rest) => Ok::<Seq<(Seq<char>, Seq<Seq<char>>)>, Seq<char>>(
                    outputs_view(output@) + rest,
                ),
                Err(m) => Err::<Seq<(Seq<char>, Seq<Seq<char>>)>, Seq<char>>(m),
            }),
        decreases classes.len() - i,
    {
        let ghost sfx = classes.skip(i as int);
        proof {
            assert(sfx[0] == classes[i as int]);
            assert(sfx.skip(1) =~= classes.skip(i + 1));
        }
        let compiled_class = &ast.classes[i];
        let vm_code = match compile_class(&compiled_class.class) {
            Ok(vm_code) => vm_code,
            Err(e) => {
                return Err(e);
            },
        };
        let ghost pre = outputs_view(output@);
        let ghost ls = spec_compile_class(classes[i as int].class)->Ok_0;
        output.push(
            CompilationOutput { source_filename: compiled_class.source_filename.clone(), vm_code },
        );
        proof {
            assert(outputs_view(output@) =~= pre.push((classes[i as int].source_filename@, ls)));
            match spec_translate_classes(classes.skip(i + 1)) {
                Ok(rest) => {
                    assert(pre + (seq![(classes[i as int].source_filename@, ls)] + rest)
                        =~= outputs_view(output@) + rest);
                },
                Err(m) => {},
            }
        }
        i = i + 1;
    }
    proof {
        assert(classes.skip(i as int) =~= Seq::<CompiledClass>::empty());
        assert(outputs_view(output@) + Seq::<(Seq<char>, Seq<Seq<char>>)>::empty() =~= outputs_view(
            output@,
        ));
    }
    Ok(output)
}

/// A `let x = x;` on a plain resolved variable compiles to a push and a
/// pop of the same segment and index, and changes no state.
pub proof fn lemma_let_self_assignment(s: Statement, c: CtxV)
    requires
        s matches Statement::Let(d),
        s->Let_0.identifier.index is None,
        s->Let_0.expression matches Expr::VarRef(vr) && vr.index is None && vr.name@
            == s->Let_0.identifier.name@,
        spec_find(c.table.vars, s->Let_0.identifier.name@) is Some,
    ensures
        ({
            let v = spec_find(c.table.vars, s->Let_0.identifier.name@)->Some_0;
            spec_compile_statement(s, c) == Ok::<(Seq<Seq<char>>, CtxV), Seq<char>>(
                (seq![push_line_of(v), pop_line_of(v)], c),
            )
        }),
{
    let v = spec_find(c.table.vars, s->Let_0.identifier.name@)->Some_0;
    let d = s->Let_0;
    assert(spec_compile_expression(d.expression, c) == Ok::<Seq<Seq<char>>, Seq<char>>(
        seq![push_line_of(v)],
    ));
    assert(seq![push_line_of(v)] + seq![pop_line_of(v)] =~= seq![push_line_of(v), pop_line_of(v)]);
}

/// `if (true) { A } else { B }` emits B in the fallthrough path right
/// after the conditional jump, and A after the `.if_body` label: A is
/// the branch that runs.
pub proof fn lemma_if_true_shape(s: Statement, c: CtxV)
    requires
        s matches Statement::If(d),
        s->If_0.condition == Expr::Constant(Constant::Keyword(KeywordConstant::True)),
        s->If_0.else_body is Some,
    ensures
        ({
            let d = s->If_0;
            let stem = c.sub_name + ".if."@ + dec_str(c.if_count as nat);
            let c1 = CtxV { if_count: c.if_count + 1, ..c };
            let er = spec_compile_statements(d.else_body->Some_0@, c1);
            let tr = spec_compile_statements(d.if_body@, er->Ok_0.1);
            (er is Ok && tr is Ok) ==> spec_compile_statement(s, c) == Ok::<
                (Seq<Seq<char>>, CtxV),
                Seq<char>,
            >(
                (
                    seq![
                        "push constant 1"@,
                        "neg"@,
                        "if-goto "@ + stem + ".if_body"@,
                    ] + er->Ok_0.0 + seq![
                        "goto "@ + stem + ".if_end"@,
                        "label "@ + stem + ".if_body"@,
                    ] + tr->Ok_0.0 + seq!["label "@ + stem + ".if_end"@],
                    tr->Ok_0.1,
                ),
            )
        }),
{
    let d = s->If_0;
    let stem = c.sub_name + ".if."@ + dec_str(c.if_count as nat);
    let c1 = CtxV { if_count: c.if_count + 1, ..c };
    let er = spec_compile_statements(d.else_body->Some_0@, c1);
    if er is Ok {
        let ep = er->Ok_0;
        let tr = spec_compile_statements(d.if_body@, ep.1);
        if tr is Ok {
            let tp = tr->Ok_0;
            let cond = seq!["push constant 1"@, "neg"@];
            assert(spec_compile_expression(d.condition, c1) == Ok::<Seq<Seq<char>>, Seq<char>>(
                cond,
            ));
            let full = spec_compile_statement(s, c)->Ok_0.0;
            assert(full =~= seq![
                "push constant 1"@,
                "neg"@,
                "if-goto "@ + stem + ".if_body"@,
            ] + ep.0 + seq!["goto "@ + stem + ".if_end"@, "label "@ + stem + ".if_body"@] + tp.0
                + seq!["label "@ + stem + ".if_end"@]);
        }
    }
}

/// How many locals a statement declares, nested bodies included.
pub open spec fn locals_in(s: Statement) -> int
    decreases s,
{
    match s {
        Statement::While(details) => locals_in_list(details.body@),
        Statement::If(details) => locals_in_list(details.if_body@) + (match details.else_body {
            Some(es) => locals_in_list(es@),
            None => 0int,
        }),
        Statement::VarDecl(d) => d.variables@.len() as int,
        _ => 0,
    }
}

/// How many locals a statement list declares.
pub open spec fn locals_in_list(list: Seq<Statement>) -> int
    decreases list,
{
    if list.len() == 0 {
        0
    } else {
        locals_in(list[0]) + locals_in_list(list.skip(1))
    }
}

/// Adding an entry of one kind raises that kind's count by one and no
/// other's.
proof fn lemma_count_scope_add(t: SymTabV, name: Seq<char>, ty: Seq<char>, sc: Scope, q: Scope)
    ensures
        count_scope(spec_add(t, name, ty, sc).vars, q) == count_scope(t.vars, q) + (if sc == q {
            1int
        } else {
            0int
        }),
{
    let pushed = spec_add(t, name, ty, sc).vars;
    assert(pushed.drop_last() =~= t.vars);
}

/// Registering declarations adds exactly the declared locals to the
/// local count.
pub proof fn lemma_register_local_count(s: Statement, t: SymTabV)
    ensures
        count_scope(spec_register(s, t).vars, Scope::Local) == count_scope(t.vars, Scope::Local)
            + locals_in(s),
    decreases s,
{
    match s {
        Statement::While(details) => {
            lemma_register_list_local_count(details.body@, t);
        },
        Statement::If(details) => {
            lemma_register_list_local_count(details.if_body@, t);
            match details.else_body {
                Some(es) => {
                    lemma_register_list_local_count(es@, spec_register_list(details.if_body@, t));
                },
                None => {},
            }
        },
        Statement::VarDecl(d) => {
            lemma_add_locals_count(d.variables@, t);
        },
        _ => {},
    }
}

/// Registering a list adds its declared locals to the local count.
pub proof fn lemma_register_list_local_count(list: Seq<Statement>, t: SymTabV)
    ensures
        count_scope(spec_register_list(list, t).vars, Scope::Local) == count_scope(
            t.vars,
            Scope::Local,
        ) + locals_in_list(list),
    decreases list,
{
    if list.len() > 0 {
        lemma_register_local_count(list[0], t);
        lemma_register_list_local_count(list.skip(1), spec_register(list[0], t));
    }
}

/// Adding declared locals raises the local count one by one.
proof fn lemma_add_locals_count(vars: Seq<Variable>, t: SymTabV)
    ensures
        count_scope(spec_add_locals(vars, t).vars, Scope::Local) == count_scope(
            t.vars,
            Scope::Local,
        ) + vars.len(),
    decreases vars,
{
    if vars.len() > 0 {
        lemma_count_scope_add(
            t,
            vars[0].identifier@,
            var_type_name(vars[0].var_type),
            Scope::Local,
            Scope::Local,
        );
        lemma_add_locals_count(
            vars.skip(1),
            spec_add(t, vars[0].identifier@, var_type_name(vars[0].var_type), Scope::Local),
        );
    }
}

/// Adding arguments leaves the local count alone.
proof fn lemma_add_args_local_count(params: Seq<Variable>, t: SymTabV)
    ensures
        count_scope(spec_add_args(params, t).vars, Scope::Local) == count_scope(
            t.vars,
            Scope::Local,
        ),
    decreases params,
{
    if params.len() > 0 {
        lemma_count_scope_add(
            t,
            params[0].identifier@,
            var_type_name(params[0].var_type),
            Scope::Argument,
            Scope::Local,
        );
        lemma_add_args_local_count(
            params.skip(1),
            spec_add(t, params[0].identifier@, var_type_name(params[0].var_type), Scope::Argument),
        );
    }
}

/// Class variables leave the local count alone.
proof fn lemma_class_vars_local_count(vars: Seq<ClassVariable>, t: SymTabV)
    ensures
        count_scope(spec_add_class_vars(vars, t).vars, Scope::Local) == count_scope(
            t.vars,
            Scope::Local,
        ),
    decreases vars,
{
    if vars.len() > 0 {
        let scope = match vars[0].visibility {
            ClassVariableVisibility::Field => Scope::Field,
            ClassVariableVisibility::Static => Scope::Static,
        };
        lemma_count_scope_add(
            t,
            vars[0].identifier@,
            var_type_name(vars[0].var_type),
            scope,
            Scope::Local,
        );
        lemma_class_vars_local_count(
            vars.skip(1),
            spec_add(t, vars[0].identifier@, var_type_name(vars[0].var_type), scope),
        );
    }
}

/// Every emitted subroutine opens with its own `function` declaration,
/// whose operand is the total count of locals declared anywhere in its
/// body, whenever the table it starts from holds no locals.
pub proof fn lemma_function_declaration(sub: Subroutine, c: CtxV)
    requires
        count_scope(c.table.vars, Scope::Local) == 0,
    ensures
        spec_compile_subroutine(sub, c) matches Ok(p) ==> p.0.len() >= 1 && p.0[0] == "function "@
            + c.class_name + "."@ + sub.identifier@ + " "@ + dec_str(
            locals_in_list(sub.statements@) as nat,
        ),
{
    let t1 = if sub.subroutine_type == SubroutineType::Method {
        spec_add(c.table, "this"@, c.class_name, Scope::Argument)
    } else {
        c.table
    };
    if sub.subroutine_type == SubroutineType::Method {
        lemma_count_scope_add(c.table, "this"@, c.class_name, Scope::Argument, Scope::Local);
    }
    let t2 = spec_add_args(sub.parameters@, t1);
    lemma_add_args_local_count(sub.parameters@, t1);
    let t3 = spec_register_list(sub.statements@, t2);
    lemma_register_list_local_count(sub.statements@, t2);
    assert(count_scope(t3.vars, Scope::Local) == locals_in_list(sub.statements@));
}

/// The registration chain only appends entries, so the original entries
/// stay as a prefix and the scope stack is untouched.
proof fn lemma_adds_extend(sub: Subroutine, cs: CtxV, t1: SymTabV, t2: SymTabV, t3: SymTabV)
    requires
        t1 == (if sub.subroutine_type == SubroutineType::Method {
            spec_add(cs.table, "this"@, cs.class_name, Scope::Argument)
        } else {
            cs.table
        }),
        t2 == spec_add_args(sub.parameters@, t1),
        t3 == spec_register_list(sub.statements@, t2),
        cs.table.scopes.len() > 0,
        cs.table.scopes.last() == cs.table.vars.len(),
    ensures
        t3.scopes == cs.table.scopes,
        t3.vars.len() >= cs.table.vars.len(),
        t3.vars.take(cs.table.vars.len() as int) =~= cs.table.vars,
        spec_pop_scope(t3).vars =~= cs.table.vars,
        spec_pop_scope(t3).scopes == cs.table.scopes.drop_last(),
{
    lemma_prefix_add_args(sub.parameters@, t1);
    lemma_prefix_register_list(sub.statements@, t2);
    if sub.subroutine_type == SubroutineType::Method {
        assert(t1.vars.take(cs.table.vars.len() as int) =~= cs.table.vars);
    } else {
        assert(t1.vars.take(cs.table.vars.len() as int) =~= cs.table.vars);
    }
    assert(t3.vars.take(cs.table.vars.len() as int) =~= cs.table.vars) by {
        assert(t2.vars.take(t1.vars.len() as int) =~= t1.vars);
        assert(t3.vars.take(t2.vars.len() as int) =~= t2.vars);
        assert(forall|q: int| 0 <= q < cs.table.vars.len() ==> t3.vars[q] == cs.table.vars[q]);
    }
    assert(crate::compiler::symbol_table::scope_start_clamped(t3) == cs.table.vars.len());
}

/// Adding arguments appends, keeping the prefix and the scopes.
proof fn lemma_prefix_add_args(params: Seq<Variable>, t: SymTabV)
    ensures
        spec_add_args(params, t).scopes == t.scopes,
        spec_add_args(params, t).vars.len() >= t.vars.len(),
        spec_add_args(params, t).vars.take(t.vars.len() as int) =~= t.vars,
    decreases params,
{
    if params.len() > 0 {
        let t1 = spec_add(t, params[0].identifier@, var_type_name(params[0].var_type), Scope::Argument);
        assert(t1.vars.take(t.vars.len() as int) =~= t.vars);
        lemma_prefix_add_args(params.skip(1), t1);
        assert(spec_add_args(params, t).vars.take(t.vars.len() as int) =~= t.vars) by {
            let r = spec_add_args(params.skip(1), t1);
            assert(r.vars.take(t1.vars.len() as int) =~= t1.vars);
            assert(forall|q: int| 0 <= q < t.vars.len() ==> r.vars[q] == t.vars[q]);
        }
    }
}

/// Registration appends, keeping the prefix and the scopes.
proof fn lemma_prefix_register(s: Statement, t: SymTabV)
    ensures
        spec_register(s, t).scopes == t.scopes,
        spec_register(s, t).vars.len() >= t.vars.len(),
        spec_register(s, t).vars.take(t.vars.len() as int) =~= t.vars,
    decreases s,
{
    match s {
        Statement::While(details) => {
            lemma_prefix_register_list(details.body@, t);
        },
        Statement::If(details) => {
            lemma_prefix_register_list(details.if_body@, t);
            let tm = spec_register_list(details.if_body@, t);
            match details.else_body {
                Some(es) => {
                    lemma_prefix_register_list(es@, tm);
                    assert(spec_register(s, t).vars.take(t.vars.len() as int) =~= t.vars) by {
                        let r = spec_register_list(es@, tm);
                        assert(r.vars.take(tm.vars.len() as int) =~= tm.vars);
                        assert(tm.vars.take(t.vars.len() as int) =~= t.vars);
                        assert(forall|q: int| 0 <= q < t.vars.len() ==> r.vars[q] == t.vars[q]);
                    }
                },
                None => {},
            }
        },
        Statement::VarDecl(d) => {
            lemma_prefix_add_locals(d.variables@, t);
        },
        _ => {},
    }
}

/// Adding locals appends, keeping the prefix and the scopes.
proof fn lemma_prefix_add_locals(vars: Seq<Variable>, t: SymTabV)
    ensures
        spec_add_locals(vars, t).scopes == t.scopes,
        spec_add_locals(vars, t).vars.len() >= t.vars.len(),
        spec_add_locals(vars, t).vars.take(t.vars.len() as int) =~= t.vars,
    decreases vars,
{
    if vars.len() > 0 {
        let t1 = spec_add(t, vars[0].identifier@, var_type_name(vars[0].var_type), Scope::Local);
        assert(t1.vars.take(t.vars.len() as int) =~= t.vars);
        lemma_prefix_add_locals(vars.skip(1), t1);
        assert(spec_add_locals(vars, t).vars.take(t.vars.len() as int) =~= t.vars) by {
            let r = spec_add_locals(vars.skip(1), t1);
            assert(r.vars.take(t1.vars.len() as int) =~= t1.vars);
            assert(forall|q: int| 0 <= q < t.vars.len() ==> r.vars[q] == t.vars[q]);
        }
    }
}

/// Registering a list appends, keeping the prefix and the scopes.
proof fn lemma_prefix_register_list(list: Seq<Statement>, t: SymTabV)
    ensures
        spec_register_list(list, t).scopes == t.scopes,
        spec_register_list(list, t).vars.len() >= t.vars.len(),
        spec_register_list(list, t).vars.take(t.vars.len() as int) =~= t.vars,
    decreases list,
{
    if list.len() > 0 {
        lemma_prefix_register(list[0], t);
        let t1 = spec_register(list[0], t);
        lemma_prefix_register_list(list.skip(1), t1);
        assert(spec_register_list(list, t).vars.take(t.vars.len() as int) =~= t.vars) by {
            let r = spec_register_list(list.skip(1), t1);
            assert(r.vars.take(t1.vars.len() as int) =~= t1.vars);
            assert(t1.vars.take(t.vars.len() as int) =~= t.vars);
            assert(forall|q: int| 0 <= q < t.vars.len() ==> r.vars[q] == t.vars[q]);
        }
    }
}

/// Every well-formed class compiles to lines in which each subroutine,
/// in source order, is declared by a `function` line whose operand is
/// the total count of locals declared anywhere in its body.
pub proof fn lemma_class_function_lines(subs: Seq<Subroutine>, c: CtxV, k: int)
    requires
        0 <= k < subs.len(),
        spec_compile_subs(subs, c) is Ok,
        count_scope(c.table.vars, Scope::Local) == 0,
    ensures
        ({
            let ls = spec_compile_subs(subs, c)->Ok_0.0;
            exists|o: int|
                0 <= o < ls.len() && #[trigger] ls[o] == "function "@ + c.class_name + "."@
                    + subs[k].identifier@ + " "@ + dec_str(
                    locals_in_list(subs[k].statements@) as nat,
                )
        }),
    decreases subs.len(),
{
    let ls = spec_compile_subs(subs, c)->Ok_0.0;
    let cs = CtxV {
        table: SymTabV {
            vars: c.table.vars,
            scopes: c.table.scopes.push(c.table.vars.len() as int),
        },
        sub_name: subs[0].identifier@,
        ..c
    };
    let (ls0, c2) = spec_compile_subroutine(subs[0], cs)->Ok_0;
    let c3 = CtxV { table: spec_pop_scope(c2.table), ..c2 };
    let rest = spec_compile_subs(subs.skip(1), c3)->Ok_0.0;
    assert(ls == ls0 + rest);
    if k == 0 {
        assert(count_scope(cs.table.vars, Scope::Local) == 0);
        lemma_function_declaration(subs[0], cs);
        assert(ls[0] == "function "@ + c.class_name + "."@ + subs[0].identifier@ + " "@ + dec_str(
            locals_in_list(subs[0].statements@) as nat,
        ));
    } else {
        // The scope pop restores the class table, so the next subroutine
        // also starts without locals and under the same class name.
        let sub = subs[0];
        let t1 = if sub.subroutine_type == SubroutineType::Method {
            spec_add(cs.table, "this"@, cs.class_name, Scope::Argument)
        } else {
            cs.table
        };
        let t2 = spec_add_args(sub.parameters@, t1);
        let t3 = spec_register_list(sub.statements@, t2);
        lemma_statements_growth(sub.statements@, CtxV { table: t3, ..cs });
        assert(c2.table == t3);
        lemma_adds_extend(sub, cs, t1, t2, t3);
        assert(spec_pop_scope(t3).vars =~= cs.table.vars);
        assert(count_scope(c3.table.vars, Scope::Local) == count_scope(
            c.table.vars,
            Scope::Local,
        ));
        assert(c3.class_name == c.class_name);
        lemma_class_function_lines(subs.skip(1), c3, k - 1);
        let o2 = choose|o2: int|
            0 <= o2 < rest.len() && #[trigger] rest[o2] == "function "@ + c3.class_name + "."@
                + subs.skip(1)[k - 1].identifier@ + " "@ + dec_str(
                locals_in_list(subs.skip(1)[k - 1].statements@) as nat,
            );
        assert(subs.skip(1)[k - 1] == subs[k]);
        assert(ls[ls0.len() + o2] == rest[o2]);
    }
}

} // verus!
