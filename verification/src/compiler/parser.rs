//! The recursive-descent parser for the Jack language.

use vstd::prelude::*;

use crate::compiler::ast::{
    BinaryOp, Class, ClassVariable, ClassVariableVisibility, CompiledClass, Constant, Expr,
    IfDetails, KeywordConstant, LetDetails, ReturnType, Statement, Subroutine, SubroutineCall,
    SubroutineType, UnaryOp, VarDeclDetails, Variable, VariableRef, VariableType, WhileDetails,
    AST,
};
use crate::strutil::concat2;
use vstd::string::StrSliceExecFns;
use crate::textparse::{
    chars_to_string, dec_val, digits_end, digits_end_exec, is_digit_char, line_break, parse_digits,
    starts_with, starts_with_exec, str_to_chars,
};

verus! {

// ---------------------------------------------------------------------
// The abstract shapes the grammar yields: trees whose names are
// character sequences.
// ---------------------------------------------------------------------

/// The abstract shape of an expression.
pub enum ExprV {
    Int(i32),
    Str(Seq<char>),
    Keyword(KeywordConstant),
    Var(Seq<char>),
    VarIdx(Seq<char>, Box<ExprV>),
    Unary(UnaryOp, Box<ExprV>),
    Binary(Box<ExprV>, BinaryOp, Box<ExprV>),
    Bracketed(Box<ExprV>),
    Call(CallV),
}

/// The abstract shape of a subroutine call.
pub struct CallV {
    pub target: Option<Seq<char>>,
    pub name: Seq<char>,
    pub args: Seq<ExprV>,
}

/// The abstract shape of a declared type.
pub enum VariableTypeV {
    Array,
    Int,
    Char,
    Boolean,
    ClassName(Seq<char>),
}

/// The abstract shape of a return type.
pub enum ReturnTypeV {
    Int,
    Char,
    Boolean,
    Void,
    ClassName(Seq<char>),
}

/// The abstract shape of a statement.
pub enum StatementV {
    Let(Seq<char>, Option<Box<ExprV>>, Box<ExprV>),
    While(Box<ExprV>, Seq<StatementV>),
    Do(CallV),
    If(Box<ExprV>, Seq<StatementV>, Option<Seq<StatementV>>),
    Return(Option<Box<ExprV>>),
    VarDecl(Seq<(Seq<char>, VariableTypeV)>),
}

/// The abstract shape of a subroutine.
pub struct SubroutineV {
    pub kind: SubroutineType,
    pub name: Seq<char>,
    pub params: Seq<(Seq<char>, VariableTypeV)>,
    pub ret: ReturnTypeV,
    pub body: Seq<StatementV>,
}

/// The abstract shape of a class.
pub struct ClassV {
    pub name: Seq<char>,
    pub vars: Seq<(ClassVariableVisibility, VariableTypeV, Seq<char>)>,
    pub subs: Seq<SubroutineV>,
}

/// The abstract shape of a built type.
pub open spec fn vtype_view(t: VariableType) -> VariableTypeV {
    match t {
        VariableType::Array => VariableTypeV::Array,
        VariableType::Int => VariableTypeV::Int,
        VariableType::Char => VariableTypeV::Char,
        VariableType::Boolean => VariableTypeV::Boolean,
        VariableType::ClassName(n) => VariableTypeV::ClassName(n@),
    }
}

/// The abstract shape of a built return type.
pub open spec fn rtype_view(t: ReturnType) -> ReturnTypeV {
    match t {
        ReturnType::Int => ReturnTypeV::Int,
        ReturnType::Char => ReturnTypeV::Char,
        ReturnType::Boolean => ReturnTypeV::Boolean,
        ReturnType::Void => ReturnTypeV::Void,
        ReturnType::ClassName(n) => ReturnTypeV::ClassName(n@),
    }
}

/// The abstract shape of a built expression.
pub open spec fn expr_view(e: Expr) -> ExprV
    decreases e,
{
    match e {
        Expr::Constant(Constant::Int(v)) => ExprV::Int(v),
        Expr::Constant(Constant::String(s)) => ExprV::Str(s@),
        Expr::Constant(Constant::Keyword(k)) => ExprV::Keyword(k),
        Expr::VarRef(vr) => match vr.index {
            None => ExprV::Var(vr.name@),
            Some(ix) => ExprV::VarIdx(vr.name@, Box::new(expr_view(*ix))),
        },
        Expr::UnaryExpr(op, sub) => ExprV::Unary(op, Box::new(expr_view(*sub))),
        Expr::BinaryExpr { lhs, op, rhs } => ExprV::Binary(
            Box::new(expr_view(*lhs)),
            op,
            Box::new(expr_view(*rhs)),
        ),
        Expr::BracketedExpr(sub) => ExprV::Bracketed(Box::new(expr_view(*sub))),
        Expr::Call(call) => ExprV::Call(call_view(call)),
    }
}

/// The abstract shape of a built call.
pub open spec fn call_view(call: SubroutineCall) -> CallV
    decreases call,
{
    CallV {
        target: match call.target_name {
            Some(t) => Some(t@),
            None => None,
        },
        name: call.subroutine_name@,
        args: exprs_view(call.parameters@),
    }
}

/// The abstract shapes of a row of expressions.
pub open spec fn exprs_view(es: Seq<Expr>) -> Seq<ExprV>
    decreases es,
{
    if es.len() == 0 {
        Seq::empty()
    } else {
        seq![expr_view(es[0])] + exprs_view(es.skip(1))
    }
}

/// The abstract shapes of a row of statements.
pub open spec fn stmts_view(list: Seq<Statement>) -> Seq<StatementV>
    decreases list,
{
    if list.len() == 0 {
        Seq::empty()
    } else {
        seq![statement_view(list[0])] + stmts_view(list.skip(1))
    }
}

/// The abstract shape of a built statement.
pub open spec fn statement_view(s: Statement) -> StatementV
    decreases s,
{
    match s {
        Statement::Let(d) => StatementV::Let(
            d.identifier.name@,
            match d.identifier.index {
                Some(ix) => Some(Box::new(expr_view(*ix))),
                None => None,
            },
            Box::new(expr_view(d.expression)),
        ),
        Statement::While(d) => StatementV::While(
            Box::new(expr_view(d.condition)),
            stmts_view(d.body@),
        ),
        Statement::Do(call) => StatementV::Do(call_view(call)),
        Statement::If(d) => StatementV::If(
            Box::new(expr_view(d.condition)),
            stmts_view(d.if_body@),
            match d.else_body {
                Some(es) => Some(stmts_view(es@)),
                None => None,
            },
        ),
        Statement::Return(opt) => StatementV::Return(
            match opt {
                Some(e) => Some(Box::new(expr_view(e))),
                None => None,
            },
        ),
        Statement::VarDecl(d) => StatementV::VarDecl(
            Seq::new(
                d.variables@.len(),
                |i: int| (d.variables@[i].identifier@, vtype_view(d.variables@[i].var_type)),
            ),
        ),
    }
}

/// The abstract shape of a built subroutine.
pub open spec fn subroutine_view(sub: Subroutine) -> SubroutineV {
    SubroutineV {
        kind: sub.subroutine_type,
        name: sub.identifier@,
        params: Seq::new(
            sub.parameters@.len(),
            |i: int| (sub.parameters@[i].identifier@, vtype_view(sub.parameters@[i].var_type)),
        ),
        ret: rtype_view(sub.return_type),
        body: stmts_view(sub.statements@),
    }
}

/// The abstract shape of a built class.
pub open spec fn class_view(class: Class) -> ClassV {
    ClassV {
        name: class.identifier@,
        vars: Seq::new(
            class.variables@.len(),
            |i: int|
                (
                    class.variables@[i].visibility,
                    vtype_view(class.variables@[i].var_type),
                    class.variables@[i].identifier@,
                ),
        ),
        subs: Seq::new(class.subroutines@.len(), |i: int| subroutine_view(class.subroutines@[i])),
    }
}

// ---------------------------------------------------------------------
// Lexical layer: whitespace, comments, identifiers, literals.
// ---------------------------------------------------------------------

/// A whitespace character of the language.
pub open spec fn is_jack_space(c: char) -> bool {
    c == ' ' || c == '\t' || c == '\r' || c == '\n'
}

/// A character that may open an identifier.
pub open spec fn is_ident_start(c: char) -> bool {
    crate::textparse::is_alpha_char(c) || c == '_'
}

/// A character that may continue an identifier.
pub open spec fn is_ident_char(c: char) -> bool {
    crate::textparse::is_alpha_char(c) || is_digit_char(c) || c == '_'
}

/// The end of the identifier starting at `i`.
pub open spec fn ident_end(s: Seq<char>, i: int) -> int
    decreases s.len() - i,
{
    if 0 <= i && i < s.len() && is_ident_char(s[i]) {
        ident_end(s, i + 1)
    } else {
        i
    }
}

pub proof fn lemma_ident_end_bounds(s: Seq<char>, i: int)
    requires
        0 <= i <= s.len(),
    ensures
        i <= ident_end(s, i) <= s.len(),
    decreases s.len() - i,
{
    if i < s.len() && is_ident_char(s[i]) {
        lemma_ident_end_bounds(s, i + 1);
    }
}

/// The first closing `*/` at or after `i`, or one past the end when
/// there is none.
pub open spec fn star_close(s: Seq<char>, i: int) -> int
    decreases s.len() - i,
{
    if 0 <= i && i + 2 <= s.len() {
        if s[i] == '*' && s[i + 1] == '/' {
            i
        } else {
            star_close(s, i + 1)
        }
    } else {
        s.len() as int + 1
    }
}

pub proof fn lemma_star_close_bounds(s: Seq<char>, i: int)
    requires
        0 <= i <= s.len(),
    ensures
        i <= star_close(s, i) <= s.len() + 1,
    decreases s.len() - i,
{
    if i + 2 <= s.len() && !(s[i] == '*' && s[i + 1] == '/') {
        lemma_star_close_bounds(s, i + 1);
    }
}

/// The position after all whitespace and comments at `i`; an unterminated
/// block comment is left in place for the grammar to reject.
pub open spec fn ws(s: Seq<char>, i: int) -> int
    decreases s.len() - i, 0int,
{
    if 0 <= i && i < s.len() {
        if is_jack_space(s[i]) {
            ws(s, i + 1)
        } else if starts_with(s, i, "//"@) {
            let j = line_break(s, i);
            if j >= s.len() {
                s.len() as int
            } else if j + 1 > i {
                ws(s, j + 1)
            } else {
                i
            }
        } else if starts_with(s, i, "/*"@) {
            let p = star_close(s, i + 2);
            if p + 2 <= s.len() && p + 2 > i {
                ws(s, p + 2)
            } else {
                i
            }
        } else {
            i
        }
    } else {
        i
    }
}

pub proof fn lemma_ws_bounds(s: Seq<char>, i: int)
    requires
        0 <= i <= s.len(),
    ensures
        i <= ws(s, i) <= s.len(),
    decreases s.len() - i, 0int,
{
    if i < s.len() {
        if is_jack_space(s[i]) {
            lemma_ws_bounds(s, i + 1);
        } else if starts_with(s, i, "//"@) {
            let j = line_break(s, i);
            if j < s.len() && j + 1 > i {
                lemma_ws_bounds(s, j + 1);
            }
        } else if starts_with(s, i, "/*"@) {
            let p = star_close(s, i + 2);
            if p + 2 <= s.len() && p + 2 > i {
                lemma_ws_bounds(s, p + 2);
            }
        }
    }
}

/// Skips whitespace and comments.
pub fn all_whitespace0(v: &Vec<char>, i: usize) -> (r: usize)
    requires
        i <= v@.len(),
    ensures
        r == ws(v@, i as int),
        i <= r <= v@.len(),
    decreases v@.len() - i, 0int,
{
    proof {
        lemma_ws_bounds(v@, i as int);
    }
    if i == v.len() {
        return i;
    }
    let c = v[i];
    if c == ' ' || c == '\t' || c == '\r' || c == '\n' {
        return all_whitespace0(v, i + 1);
    }
    if starts_with_exec(v, i, "//") {
        let j = crate::textparse::find_newline(v, i);
        if j >= v.len() {
            return v.len();
        }
        return all_whitespace0(v, j + 1);
    }
    if starts_with_exec(v, i, "/*") {
        proof {
            reveal_strlit("/*");
        }
        match star_close_exec(v, i + 2) {
            Some(p) => {
                return all_whitespace0(v, p + 2);
            },
            None => {
                return i;
            },
        }
    }
    i
}

/// Finds the closing `*/`: its position when the comment closes, and
/// nothing when it does not.
fn star_close_exec(v: &Vec<char>, i: usize) -> (r: Option<usize>)
    requires
        i <= v@.len(),
    ensures
        match r {
            Some(p) => p as int == star_close(v@, i as int) && i <= p && p + 2 <= v@.len(),
            None => star_close(v@, i as int) + 2 > v@.len(),
        },
{
    proof {
        lemma_star_close_bounds(v@, i as int);
    }
    let mut j = i;
    while j < v.len() && (v.len() - j < 2 || !(v[j] == '*' && v[j + 1] == '/'))
        invariant
            i <= j <= v@.len(),
            star_close(v@, i as int) == star_close(v@, j as int),
        decreases v@.len() - j,
    {
        j = j + 1;
    }
    if j < v.len() && v.len() - j >= 2 {
        Some(j)
    } else {
        proof {
            assert(star_close(v@, j as int) == v@.len() + 1);
        }
        None
    }
}

/// The identifier starting at `i`, if one does.
pub open spec fn ident_at(s: Seq<char>, i: int) -> Option<(int, Seq<char>)> {
    if 0 <= i && i < s.len() && is_ident_start(s[i]) {
        Some((ident_end(s, i), s.subrange(i, ident_end(s, i))))
    } else {
        None
    }
}

/// Reads the identifier starting at `i`.
fn parse_identifier(v: &Vec<char>, i: usize) -> (r: Option<(usize, String)>)
    requires
        i <= v@.len(),
    ensures
        match ident_at(v@, i as int) {
            Some((j, name)) => r matches Some(p) && p.0 as int == j && p.1@ == name && p.0
                <= v@.len() && i < p.0,
            None => r is None,
        },
{
    proof {
        lemma_ident_end_bounds(v@, i as int);
    }
    if i == v.len() {
        return None;
    }
    let c = v[i];
    if !(crate::textparse::is_alpha_exec(c) || c == '_') {
        return None;
    }
    let mut j = i;
    while j < v.len() && (crate::textparse::is_alpha_exec(v[j]) || v[j] as u32 >= 48 && v[j] as u32
        <= 57 || v[j] == '_')
        invariant
            i <= j <= v@.len(),
            ident_end(v@, i as int) == ident_end(v@, j as int),
        decreases v@.len() - j,
    {
        j = j + 1;
    }
    Some((j, chars_to_string(v, i, j)))
}

/// The keyword `w` stands at `i` as a whole word.
pub open spec fn kw_at(s: Seq<char>, i: int, w: Seq<char>) -> bool {
    starts_with(s, i, w) && (i + w.len() == s.len() || !is_ident_char(s[i + w.len()]))
}

/// Tests for the keyword `w` as a whole word at `i`.
fn parse_keyword(v: &Vec<char>, i: usize, w: &str) -> (b: bool)
    requires
        i <= v@.len(),
    ensures
        b == kw_at(v@, i as int, w@),
{
    if !starts_with_exec(v, i, w) {
        return false;
    }
    let n = w.unicode_len();
    let len = v.len();
    proof {
        assert(i + n <= len);
    }
    let boundary = i + n;
    if boundary == len {
        true
    } else {
        let c = v[boundary];
        !(crate::textparse::is_alpha_exec(c) || c as u32 >= 48 && c as u32 <= 57 || c == '_')
    }
}

// ---------------------------------------------------------------------
// Expressions.
// ---------------------------------------------------------------------

/// The first quote at or after `i`, or the length.
pub open spec fn quote_end(s: Seq<char>, i: int) -> int
    decreases s.len() - i,
{
    if 0 <= i && i < s.len() && s[i] != '"' {
        quote_end(s, i + 1)
    } else {
        i
    }
}

pub proof fn lemma_quote_end_bounds(s: Seq<char>, i: int)
    requires
        0 <= i <= s.len(),
    ensures
        i <= quote_end(s, i) <= s.len(),
    decreases s.len() - i,
{
    if i < s.len() && s[i] != '"' {
        lemma_quote_end_bounds(s, i + 1);
    }
}

/// A binary operator character.
pub open spec fn is_op_char(c: char) -> bool {
    c == '<' || c == '>' || c == '+' || c == '-' || c == '*' || c == '/' || c == '&' || c == '|'
        || c == '='
}

/// The operator a character denotes.
pub open spec fn op_of(c: char) -> BinaryOp {
    if c == '<' {
        BinaryOp::Lt
    } else if c == '>' {
        BinaryOp::Gt
    } else if c == '+' {
        BinaryOp::Plus
    } else if c == '-' {
        BinaryOp::Minus
    } else if c == '*' {
        BinaryOp::Mult
    } else if c == '/' {
        BinaryOp::Div
    } else if c == '&' {
        BinaryOp::And
    } else if c == '|' {
        BinaryOp::Or
    } else {
        BinaryOp::Eq
    }
}

/// An expression at `i`: one sub-expression, or a binary chain built to
/// the right; evaluation order stays left to right.
pub open spec fn p_expr(s: Seq<char>, i: int) -> Option<(int, ExprV)>
    decreases s.len() - i, 3int,
{
    match p_sub(s, i) {
        None => None,
        Some((j, lhs)) => {
            let j2 = ws(s, j);
            if 0 <= j2 && j2 < s.len() && is_op_char(s[j2]) {
                let op = op_of(s[j2]);
                let j3 = ws(s, j2 + 1);
                if j3 > i && j3 <= s.len() {
                    match p_expr(s, j3) {
                        Some((j4, rhs)) => Some(
                            (j4, ExprV::Binary(Box::new(lhs), op, Box::new(rhs))),
                        ),
                        None => Some((j, lhs)),
                    }
                } else {
                    Some((j, lhs))
                }
            } else {
                Some((j, lhs))
            }
        },
    }
}

/// One sub-expression: brackets, a unary operation, a call, a literal,
/// an indexed variable, or a plain variable.
pub open spec fn p_sub(s: Seq<char>, i: int) -> Option<(int, ExprV)>
    decreases s.len() - i, 2int,
{
    if 0 <= i && i < s.len() {
        let c = s[i];
        if c == '(' {
            match p_expr(s, i + 1) {
                None => None,
                Some((k, e)) => {
                    let k2 = ws(s, k);
                    if 0 <= k2 && k2 < s.len() && s[k2] == ')' {
                        Some((k2 + 1, ExprV::Bracketed(Box::new(e))))
                    } else {
                        None
                    }
                },
            }
        } else if c == '-' || c == '~' {
            let op = if c == '-' {
                UnaryOp::Minus
            } else {
                UnaryOp::Not
            };
            match p_expr(s, i + 1) {
                None => None,
                Some((k, e)) => Some((k, ExprV::Unary(op, Box::new(e)))),
            }
        } else if c == '"' {
            let p = quote_end(s, i + 1);
            if p < s.len() {
                Some((p + 1, ExprV::Str(s.subrange(i + 1, p))))
            } else {
                None
            }
        } else if is_digit_char(c) {
            let ke = digits_end(s, i);
            let tok = s.subrange(i, ke);
            if dec_val(tok) <= i32::MAX {
                Some((ke, ExprV::Int(dec_val(tok) as i32)))
            } else {
                None
            }
        } else {
            match ident_at(s, i) {
                None => None,
                Some((j, name)) => {
                    if j < s.len() && s[j] == '(' {
                        if j + 1 > i && j + 1 <= s.len() {
                            match p_args(s, j + 1) {
                                None => None,
                                Some((k, args)) => {
                                    if 0 <= k && k < s.len() && s[k] == ')' {
                                        Some(
                                            (
                                                k + 1,
                                                ExprV::Call(
                                                    CallV { target: None, name, args },
                                                ),
                                            ),
                                        )
                                    } else {
                                        None
                                    }
                                },
                            }
                        } else {
                            None
                        }
                    } else if j < s.len() && s[j] == '.' {
                        match ident_at(s, j + 1) {
                            None => None,
                            Some((j2, name2)) => {
                                if j2 < s.len() && s[j2] == '(' && j2 + 1 > i {
                                    match p_args(s, j2 + 1) {
                                        None => None,
                                        Some((k, args)) => {
                                            if 0 <= k && k < s.len() && s[k] == ')' {
                                                Some(
                                                    (
                                                        k + 1,
                                                        ExprV::Call(
                                                            CallV {
                                                                target: Some(name),
                                                                name: name2,
                                                                args,
                                                            },
                                                        ),
                                                    ),
                                                )
                                            } else {
                                                None
                                            }
                                        },
                                    }
                                } else {
                                    None
                                }
                            },
                        }
                    } else if name == "true"@ {
                        Some((j, ExprV::Keyword(KeywordConstant::True)))
                    } else if name == "false"@ {
                        Some((j, ExprV::Keyword(KeywordConstant::False)))
                    } else if name == "null"@ {
                        Some((j, ExprV::Keyword(KeywordConstant::Null)))
                    } else if name == "this"@ {
                        Some((j, ExprV::Keyword(KeywordConstant::This)))
                    } else {
                        let j2 = ws(s, j);
                        if 0 <= j2 && j2 < s.len() && s[j2] == '[' {
                            let j3 = ws(s, j2 + 1);
                            if j3 > i && j3 <= s.len() {
                                match p_expr(s, j3) {
                                    None => None,
                                    Some((k, e)) => {
                                        let k2 = ws(s, k);
                                        if 0 <= k2 && k2 < s.len() && s[k2] == ']' {
                                            Some(
                                                (ws(s, k2 + 1), ExprV::VarIdx(name, Box::new(e))),
                                            )
                                        } else {
                                            None
                                        }
                                    },
                                }
                            } else {
                                None
                            }
                        } else {
                            Some((j, ExprV::Var(name)))
                        }
                    }
                },
            }
        }
    } else {
        None
    }
}

/// A comma-separated argument row, possibly empty, each argument wrapped
/// in whitespace.
pub open spec fn p_args(s: Seq<char>, i: int) -> Option<(int, Seq<ExprV>)>
    decreases s.len() - i, 4int,
{
    if 0 <= i && i <= s.len() {
        let j = ws(s, i);
        if j >= i && j <= s.len() {
            match p_expr(s, j) {
                None => Some((i, Seq::empty())),
                Some((k, e)) => {
                    let k2 = ws(s, k);
                    if 0 <= k2 && k2 < s.len() && s[k2] == ',' && k2 + 1 > i {
                        match p_args(s, k2 + 1) {
                            None => None,
                            Some((m, rest)) => Some((m, seq![e] + rest)),
                        }
                    } else {
                        Some((k2, seq![e]))
                    }
                },
            }
        } else {
            None
        }
    } else {
        None
    }
}

/// Parses an expression.
pub fn parse_expression(v: &Vec<char>, i: usize) -> (r: Option<(usize, Expr)>)
    requires
        i <= v@.len(),
    ensures
        match p_expr(v@, i as int) {
            Some((j, ev)) => r matches Some(p) && p.0 as int == j && expr_view(p.1) == ev && p.0
                <= v@.len(),
            None => r is None,
        },
    decreases v@.len() - i, 3int,
{
    let (j, lhs) = match parse_sub_expression(v, i) {
        Some(p) => p,
        None => {
            return None;
        },
    };
    let j2 = all_whitespace0(v, j);
    if j2 < v.len() {
        let c = v[j2];
        if c == '<' || c == '>' || c == '+' || c == '-' || c == '*' || c == '/' || c == '&' || c
            == '|' || c == '=' {
            let op = if c == '<' {
                BinaryOp::Lt
            } else if c == '>' {
                BinaryOp::Gt
            } else if c == '+' {
                BinaryOp::Plus
            } else if c == '-' {
                BinaryOp::Minus
            } else if c == '*' {
                BinaryOp::Mult
            } else if c == '/' {
                BinaryOp::Div
            } else if c == '&' {
                BinaryOp::And
            } else if c == '|' {
                BinaryOp::Or
            } else {
                BinaryOp::Eq
            };
            let j3 = all_whitespace0(v, j2 + 1);
            if j3 > i {
                match parse_expression(v, j3) {
                    Some((j4, rhs)) => {
                        return Some((j4, Expr::binary_op(lhs, op, rhs)));
                    },
                    None => {
                        return Some((j, lhs));
                    },
                }
            }
            return Some((j, lhs));
        }
    }
    Some((j, lhs))
}

/// Parses one sub-expression.
pub fn parse_sub_expression(v: &Vec<char>, i: usize) -> (r: Option<(usize, Expr)>)
    requires
        i <= v@.len(),
    ensures
        match p_sub(v@, i as int) {
            Some((j, ev)) => r matches Some(p) && p.0 as int == j && expr_view(p.1) == ev && p.0
                <= v@.len(),
            None => r is None,
        },
    decreases v@.len() - i, 2int,
{
    if i == v.len() {
        return None;
    }
    let c = v[i];
    if c == '(' {
        let (k, e) = match parse_expression(v, i + 1) {
            Some(p) => p,
            None => {
                return None;
            },
        };
        let k2 = all_whitespace0(v, k);
        if k2 < v.len() && v[k2] == ')' {
            Some((k2 + 1, Expr::brackets(e)))
        } else {
            None
        }
    } else if c == '-' || c == '~' {
        let op = if c == '-' {
            UnaryOp::Minus
        } else {
            UnaryOp::Not
        };
        match parse_expression(v, i + 1) {
            Some((k, e)) => Some((k, Expr::unary_op(op, e))),
            None => None,
        }
    } else if c == '"' {
        proof {
            lemma_quote_end_bounds(v@, i + 1);
        }
        let p = quote_end_exec(v, i + 1);
        if p < v.len() {
            let text = chars_to_string(v, i + 1, p);
            Some((p + 1, Expr::string(text.as_str())))
        } else {
            None
        }
    } else if c as u32 >= 48 && c as u32 <= 57 {
        let ke = digits_end_exec(v, i);
        proof {
            crate::assembler::parser::lemma_digits_run_public(v@, i as int, ke as int);
        }
        match parse_digits(v, i, ke, 0x7FFF_FFFF) {
            Some(n) => Some((ke, Expr::int_c(n as i32))),
            None => None,
        }
    } else {
        let (j, name) = match parse_identifier(v, i) {
            Some(p) => p,
            None => {
                return None;
            },
        };
        if j < v.len() && v[j] == '(' {
            let (k, args) = match parse_parameter_list(v, j + 1) {
                Some(p) => p,
                None => {
                    return None;
                },
            };
            if k < v.len() && v[k] == ')' {
                let ghost spec_result = p_sub(v@, i as int);
                let call = SubroutineCall {
                    target_name: None,
                    subroutine_name: name,
                    parameters: args,
                };
                let result = Expr::Call(call);
                proof {
                    assert(call_view(call) == CallV {
                        target: None,
                        name: call.subroutine_name@,
                        args: exprs_view(call.parameters@),
                    });
                    assert(expr_view(result) == spec_result->Some_0.1);
                }
                Some((k + 1, result))
            } else {
                None
            }
        } else if j < v.len() && v[j] == '.' {
            let (j2, name2) = match parse_identifier(v, j + 1) {
                Some(p) => p,
                None => {
                    return None;
                },
            };
            if j2 < v.len() && v[j2] == '(' {
                let (k, args) = match parse_parameter_list(v, j2 + 1) {
                    Some(p) => p,
                    None => {
                        return None;
                    },
                };
                if k < v.len() && v[k] == ')' {
                    let ghost spec_result2 = p_sub(v@, i as int);
                    let call = SubroutineCall {
                        target_name: Some(name),
                        subroutine_name: name2,
                        parameters: args,
                    };
                    let result = Expr::Call(call);
                    proof {
                        assert(call_view(call) == CallV {
                            target: Some(call.target_name->Some_0@),
                            name: call.subroutine_name@,
                            args: exprs_view(call.parameters@),
                        });
                        assert(expr_view(result) == spec_result2->Some_0.1);
                    }
                    Some((k + 1, result))
                } else {
                    None
                }
            } else {
                None
            }
        } else if crate::textparse::str_eq(name.as_str(), "true") {
            Some((j, Expr::true_c()))
        } else if crate::textparse::str_eq(name.as_str(), "false") {
            Some((j, Expr::false_c()))
        } else if crate::textparse::str_eq(name.as_str(), "null") {
            Some((j, Expr::null()))
        } else if crate::textparse::str_eq(name.as_str(), "this") {
            Some((j, Expr::this()))
        } else {
            let j2 = all_whitespace0(v, j);
            if j2 < v.len() && v[j2] == '[' {
                let j3 = all_whitespace0(v, j2 + 1);
                if j3 > i {
                    let (k, e) = match parse_expression(v, j3) {
                        Some(p) => p,
                        None => {
                            return None;
                        },
                    };
                    let k2 = all_whitespace0(v, k);
                    if k2 < v.len() && v[k2] == ']' {
                        let fin = all_whitespace0(v, k2 + 1);
                        Some((fin, Expr::var(VariableRef::new_with_index(name.as_str(), e))))
                    } else {
                        None
                    }
                } else {
                    None
                }
            } else {
                Some((j, Expr::var(VariableRef { name, index: None })))
            }
        }
    }
}

/// Parses an argument row.
pub fn parse_parameter_list(v: &Vec<char>, i: usize) -> (r: Option<(usize, Vec<Expr>)>)
    requires
        i <= v@.len(),
    ensures
        match p_args(v@, i as int) {
            Some((j, evs)) => r matches Some(p) && p.0 as int == j && exprs_view(p.1@) == evs
                && p.0 <= v@.len(),
            None => r is None,
        },
    decreases v@.len() - i, 4int,
{
    let j = all_whitespace0(v, i);
    let (k, e) = match parse_expression(v, j) {
        Some(p) => p,
        None => {
            proof {
                assert(exprs_view(Seq::<Expr>::empty()) =~= Seq::<ExprV>::empty());
            }
            return Some((i, Vec::new()));
        },
    };
    let k2 = all_whitespace0(v, k);
    if k2 < v.len() && v[k2] == ',' && k2 + 1 > i {
        let (m, rest) = match parse_parameter_list(v, k2 + 1) {
            Some(p) => p,
            None => {
                return None;
            },
        };
        let ghost ev = expr_view(e);
        let ghost restv = exprs_view(rest@);
        let mut out: Vec<Expr> = Vec::new();
        out.push(e);
        let mut tail = rest;
        out.append(&mut tail);
        proof {
            assert(out@.skip(1) =~= rest@);
            assert(exprs_view(out@) =~= seq![ev] + restv);
        }
        Some((m, out))
    } else {
        let ghost ev = expr_view(e);
        let mut out: Vec<Expr> = Vec::new();
        out.push(e);
        proof {
            assert(out@.skip(1) =~= Seq::<Expr>::empty());
            assert(exprs_view(Seq::<Expr>::empty()) =~= Seq::<ExprV>::empty());
            assert(exprs_view(out@) =~= seq![ev]);
        }
        Some((k2, out))
    }
}

/// Finds the closing quote.
fn quote_end_exec(v: &Vec<char>, i: usize) -> (r: usize)
    requires
        i <= v@.len(),
    ensures
        r as int == quote_end(v@, i as int),
        i <= r <= v@.len(),
{
    let mut j = i;
    while j < v.len() && v[j] != '"'
        invariant
            i <= j <= v@.len(),
            quote_end(v@, i as int) == quote_end(v@, j as int),
        decreases v@.len() - j,
    {
        j = j + 1;
    }
    j
}

// ---------------------------------------------------------------------
// Statements, subroutines and classes.
// ---------------------------------------------------------------------

/// A declared type at `i`.
pub open spec fn p_type(s: Seq<char>, i: int) -> Option<(int, VariableTypeV)> {
    match ident_at(s, i) {
        None => None,
        Some((j, name)) => {
            if name == "Array"@ {
                Some((j, VariableTypeV::Array))
            } else if name == "boolean"@ {
                Some((j, VariableTypeV::Boolean))
            } else if name == "char"@ {
                Some((j, VariableTypeV::Char))
            } else if name == "int"@ {
                Some((j, VariableTypeV::Int))
            } else {
                Some((j, VariableTypeV::ClassName(name)))
            }
        },
    }
}

/// A return type at `i`.
pub open spec fn p_rtype(s: Seq<char>, i: int) -> Option<(int, ReturnTypeV)> {
    match ident_at(s, i) {
        None => None,
        Some((j, name)) => {
            if name == "void"@ {
                Some((j, ReturnTypeV::Void))
            } else if name == "boolean"@ {
                Some((j, ReturnTypeV::Boolean))
            } else if name == "char"@ {
                Some((j, ReturnTypeV::Char))
            } else if name == "int"@ {
                Some((j, ReturnTypeV::Int))
            } else {
                Some((j, ReturnTypeV::ClassName(name)))
            }
        },
    }
}

/// A subroutine call at `i`: `name(args)` or `target.name(args)`.
pub open spec fn p_call(s: Seq<char>, i: int) -> Option<(int, CallV)>
    decreases s.len() - i, 1int,
{
    match ident_at(s, i) {
        None => None,
        Some((j, name)) => {
            if j < s.len() && s[j] == '(' && j + 1 > i {
                match p_args(s, j + 1) {
                    None => None,
                    Some((k, args)) => {
                        if 0 <= k && k < s.len() && s[k] == ')' {
                            Some((k + 1, CallV { target: None, name, args }))
                        } else {
                            None
                        }
                    },
                }
            } else if j < s.len() && s[j] == '.' {
                match ident_at(s, j + 1) {
                    None => None,
                    Some((j2, name2)) => {
                        if j2 < s.len() && s[j2] == '(' && j2 + 1 > i {
                            match p_args(s, j2 + 1) {
                                None => None,
                                Some((k, args)) => {
                                    if 0 <= k && k < s.len() && s[k] == ')' {
                                        Some(
                                            (k + 1, CallV { target: Some(name), name: name2, args }),
                                        )
                                    } else {
                                        None
                                    }
                                },
                            }
                        } else {
                            None
                        }
                    },
                }
            } else {
                None
            }
        },
    }
}

/// The extra names of a `var` line: `, name` repeated, with no blank
/// before each comma.
pub open spec fn p_more_vars(s: Seq<char>, i: int) -> (int, Seq<Seq<char>>)
    decreases s.len() - i,
{
    if 0 <= i && i < s.len() && s[i] == ',' {
        let j = ws(s, i + 1);
        if j > i && j <= s.len() {
            match ident_at(s, j) {
                None => (i, Seq::empty()),
                Some((k, n)) => {
                    if k > i && k <= s.len() {
                        let (m, rest) = p_more_vars(s, k);
                        (m, seq![n] + rest)
                    } else {
                        (i, Seq::empty())
                    }
                },
            }
        } else {
            (i, Seq::empty())
        }
    } else {
        (i, Seq::empty())
    }
}

/// One statement at `i`.
pub open spec fn p_statement(s: Seq<char>, i: int) -> Option<(int, StatementV)>
    decreases s.len() - i, 5int,
{
    if !(0 <= i && i <= s.len()) {
        None
    } else if kw_at(s, i, "var"@) {
        let j = ws(s, i + 3);
        if j > i + 3 && j <= s.len() {
            match p_type(s, j) {
                None => None,
                Some((j2, ty)) => {
                    let j3 = ws(s, j2);
                    if j3 > j2 && j3 <= s.len() {
                        match ident_at(s, j3) {
                            None => None,
                            Some((j4, n1)) => {
                                if 0 <= j4 <= s.len() {
                                    let (k, more) = p_more_vars(s, j4);
                                    let q = ws(s, k);
                                    if 0 <= q && q < s.len() && s[q] == ';' {
                                        Some(
                                            (
                                                q + 1,
                                                StatementV::VarDecl(
                                                    Seq::new(
                                                        1 + more.len(),
                                                        |x: int|
                                                            if x == 0 {
                                                                (n1, ty)
                                                            } else {
                                                                (more[x - 1], ty)
                                                            },
                                                    ),
                                                ),
                                            ),
                                        )
                                    } else {
                                        None
                                    }
                                } else {
                                    None
                                }
                            },
                        }
                    } else {
                        None
                    }
                },
            }
        } else {
            None
        }
    } else if kw_at(s, i, "let"@) {
        let j = ws(s, i + 3);
        if j > i + 3 && j <= s.len() {
            match ident_at(s, j) {
                None => None,
                Some((j2, n)) => {
                    let j3 = ws(s, j2);
                    let has_index = 0 <= j3 && j3 < s.len() && s[j3] == '[';
                    let after_target_and_index: Option<(int, Option<Box<ExprV>>)> = if has_index {
                        let j4 = ws(s, j3 + 1);
                        if j4 > i && j4 <= s.len() {
                            match p_expr(s, j4) {
                                None => None,
                                Some((k, e)) => {
                                    let k2 = ws(s, k);
                                    if 0 <= k2 && k2 < s.len() && s[k2] == ']' {
                                        Some((ws(s, k2 + 1), Some(Box::new(e))))
                                    } else {
                                        None
                                    }
                                },
                            }
                        } else {
                            None
                        }
                    } else {
                        Some((j2, None))
                    };
                    match after_target_and_index {
                        None => None,
                        Some((p, idx)) => {
                            let m = ws(s, p);
                            if 0 <= m && m < s.len() && s[m] == '=' {
                                let m2 = ws(s, m + 1);
                                if m2 > i && m2 <= s.len() {
                                    match p_expr(s, m2) {
                                        None => None,
                                        Some((q, rhs)) => {
                                            let q2 = ws(s, q);
                                            if 0 <= q2 && q2 < s.len() && s[q2] == ';' {
                                                Some(
                                                    (
                                                        q2 + 1,
                                                        StatementV::Let(n, idx, Box::new(rhs)),
                                                    ),
                                                )
                                            } else {
                                                None
                                            }
                                        },
                                    }
                                } else {
                                    None
                                }
                            } else {
                                None
                            }
                        },
                    }
                },
            }
        } else {
            None
        }
    } else if kw_at(s, i, "while"@) {
        let j = ws(s, i + 5);
        if 0 <= j && j < s.len() && s[j] == '(' {
            let j2 = ws(s, j + 1);
            if j2 > i && j2 <= s.len() {
                match p_expr(s, j2) {
                    None => None,
                    Some((k, cond)) => {
                        let k2 = ws(s, k);
                        if 0 <= k2 && k2 < s.len() && s[k2] == ')' {
                            let k3 = ws(s, k2 + 1);
                            if 0 <= k3 && k3 < s.len() && s[k3] == '{' && k3 + 1 > i {
                                let (m, body) = p_statements(s, k3 + 1);
                                if 0 <= m && m < s.len() && s[m] == '}' {
                                    Some((m + 1, StatementV::While(Box::new(cond), body)))
                                } else {
                                    None
                                }
                            } else {
                                None
                            }
                        } else {
                            None
                        }
                    },
                }
            } else {
                None
            }
        } else {
            None
        }
    } else if kw_at(s, i, "if"@) {
        let j = ws(s, i + 2);
        if 0 <= j && j < s.len() && s[j] == '(' {
            let j2 = ws(s, j + 1);
            if j2 > i && j2 <= s.len() {
                match p_expr(s, j2) {
                    None => None,
                    Some((k, cond)) => {
                        let k2 = ws(s, k);
                        if 0 <= k2 && k2 < s.len() && s[k2] == ')' {
                            let k3 = ws(s, k2 + 1);
                            if 0 <= k3 && k3 < s.len() && s[k3] == '{' && k3 + 1 > i {
                                let (m, then_body) = p_statements(s, k3 + 1);
                                if 0 <= m && m < s.len() && s[m] == '}' {
                                    let o = ws(s, m + 1);
                                    if kw_at(s, o, "else"@) && o + 4 > i && o + 4 <= s.len() {
                                        let o2 = ws(s, o + 4);
                                        if 0 <= o2 && o2 < s.len() && s[o2] == '{' && o2 + 1 > i {
                                            let (m2, else_body) = p_statements(s, o2 + 1);
                                            if 0 <= m2 && m2 < s.len() && s[m2] == '}' {
                                                Some(
                                                    (
                                                        m2 + 1,
                                                        StatementV::If(
                                                            Box::new(cond),
                                                            then_body,
                                                            Some(else_body),
                                                        ),
                                                    ),
                                                )
                                            } else {
                                                Some(
                                                    (
                                                        m + 1,
                                                        StatementV::If(
                                                            Box::new(cond),
                                                            then_body,
                                                            None,
                                                        ),
                                                    ),
                                                )
                                            }
                                        } else {
                                            Some(
                                                (
                                                    m + 1,
                                                    StatementV::If(Box::new(cond), then_body, None),
                                                ),
                                            )
                                        }
                                    } else {
                                        Some(
                                            (m + 1, StatementV::If(Box::new(cond), then_body, None)),
                                        )
                                    }
                                } else {
                                    None
                                }
                            } else {
                                None
                            }
                        } else {
                            None
                        }
                    },
                }
            } else {
                None
            }
        } else {
            None
        }
    } else if kw_at(s, i, "do"@) {
        let j = ws(s, i + 2);
        if j > i + 2 && j <= s.len() {
            match p_call(s, j) {
                None => None,
                Some((k, call)) => {
                    let k2 = ws(s, k);
                    if 0 <= k2 && k2 < s.len() && s[k2] == ';' {
                        Some((k2 + 1, StatementV::Do(call)))
                    } else {
                        None
                    }
                },
            }
        } else {
            None
        }
    } else if kw_at(s, i, "return"@) {
        let e = i + 6;
        let j = ws(s, e);
        let tried = (if j > i && j <= s.len() {
            p_expr(s, j)
        } else {
            None
        });
        match tried {
            Some((k, ev)) => {
                let k2 = ws(s, k);
                if 0 <= k2 && k2 < s.len() && s[k2] == ';' {
                    Some((k2 + 1, StatementV::Return(Some(Box::new(ev)))))
                } else {
                    None
                }
            },
            None => {
                if 0 <= e && e < s.len() && s[e] == ';' {
                    Some((e + 1, StatementV::Return(None)))
                } else {
                    None
                }
            },
        }
    } else {
        None
    }
}

/// A statement row: leading blanks, then statements while they parse,
/// stopping before whatever does not.
pub open spec fn p_statements(s: Seq<char>, i: int) -> (int, Seq<StatementV>)
    decreases s.len() - i, 6int,
{
    if 0 <= i && i <= s.len() {
        let j = ws(s, i);
        if j >= i && j <= s.len() {
            match p_statement(s, j) {
                None => (j, Seq::empty()),
                Some((k, st)) => {
                    if k > i && k <= s.len() {
                        let (m, rest) = p_statements(s, k);
                        (m, seq![st] + rest)
                    } else {
                        (j, Seq::empty())
                    }
                },
            }
        } else {
            (i, Seq::empty())
        }
    } else {
        (i, Seq::empty())
    }
}

/// One parameter: a type, a blank, a name.
pub open spec fn p_param(s: Seq<char>, i: int) -> Option<(int, (Seq<char>, VariableTypeV))> {
    match p_type(s, i) {
        None => None,
        Some((j, ty)) => {
            let j2 = ws(s, j);
            if j2 > j && j2 <= s.len() {
                match ident_at(s, j2) {
                    None => None,
                    Some((k, n)) => Some((k, (n, ty))),
                }
            } else {
                None
            }
        },
    }
}

/// A parameter row, possibly empty, commas wrapped in blanks.
pub open spec fn p_params(s: Seq<char>, i: int) -> (int, Seq<(Seq<char>, VariableTypeV)>)
    decreases s.len() - i,
{
    if 0 <= i && i <= s.len() {
        match p_param(s, i) {
            None => (i, Seq::empty()),
            Some((k, pr)) => {
                let j = ws(s, k);
                if 0 <= j && j < s.len() && s[j] == ',' {
                    let j2 = ws(s, j + 1);
                    if j2 > i && j2 <= s.len() {
                        let (m, rest) = p_params(s, j2);
                        if rest.len() == 0 {
                            (k, seq![pr])
                        } else {
                            (m, seq![pr] + rest)
                        }
                    } else {
                        (k, seq![pr])
                    }
                } else {
                    (k, seq![pr])
                }
            },
        }
    } else {
        (i, Seq::empty())
    }
}

/// One subroutine: its kind keyword, return type, name, parameter row
/// and body.
pub open spec fn p_subroutine(s: Seq<char>, i: int) -> Option<(int, SubroutineV)>
    decreases s.len() - i,
{
    let kind: Option<(int, SubroutineType)> = if kw_at(s, i, "function"@) {
        Some((i + 8, SubroutineType::Function))
    } else if kw_at(s, i, "constructor"@) {
        Some((i + 11, SubroutineType::Constructor))
    } else if kw_at(s, i, "method"@) {
        Some((i + 6, SubroutineType::Method))
    } else {
        None
    };
    match kind {
        None => None,
        Some((e, kd)) => {
            let j = ws(s, e);
            if j > e && j <= s.len() {
                match p_rtype(s, j) {
                    None => None,
                    Some((j2, rt)) => {
                        let j3 = ws(s, j2);
                        if j3 > j2 && j3 <= s.len() {
                            match ident_at(s, j3) {
                                None => None,
                                Some((j4, name)) => {
                                    let j5 = ws(s, j4);
                                    if 0 <= j5 && j5 < s.len() && s[j5] == '(' && j5 + 1 >= 0 && j5
                                        + 1 <= s.len() {
                                        let (k, params) = p_params(s, j5 + 1);
                                        if 0 <= k && k < s.len() && s[k] == ')' {
                                            let k2 = ws(s, k + 1);
                                            if 0 <= k2 && k2 < s.len() && s[k2] == '{' && k2 + 1
                                                > i && k2 + 1 <= s.len() {
                                                let (m, body) = p_statements(s, k2 + 1);
                                                if 0 <= m && m < s.len() && s[m] == '}' {
                                                    Some(
                                                        (
                                                            m + 1,
                                                            SubroutineV {
                                                                kind: kd,
                                                                name,
                                                                params,
                                                                ret: rt,
                                                                body,
                                                            },
                                                        ),
                                                    )
                                                } else {
                                                    None
                                                }
                                            } else {
                                                None
                                            }
                                        } else {
                                            None
                                        }
                                    } else {
                                        None
                                    }
                                },
                            }
                        } else {
                            None
                        }
                    },
                }
            } else {
                None
            }
        },
    }
}

/// The extra names of a class-variable line, blanks allowed around the
/// commas.
pub open spec fn p_more_class_vars(s: Seq<char>, i: int) -> (int, Seq<Seq<char>>)
    decreases s.len() - i,
{
    if 0 <= i && i <= s.len() {
        let j = ws(s, i);
        if 0 <= j && j < s.len() && s[j] == ',' {
            let j2 = ws(s, j + 1);
            if j2 > i && j2 <= s.len() {
                match ident_at(s, j2) {
                    None => (i, Seq::empty()),
                    Some((k, n)) => {
                        if k > i && k <= s.len() {
                            let (m, rest) = p_more_class_vars(s, k);
                            (m, seq![n] + rest)
                        } else {
                            (i, Seq::empty())
                        }
                    },
                }
            } else {
                (i, Seq::empty())
            }
        } else {
            (i, Seq::empty())
        }
    } else {
        (i, Seq::empty())
    }
}

/// One class-variable line: a visibility, a type, one or more names, a
/// semicolon.
pub open spec fn p_class_var(s: Seq<char>, i: int) -> Option<
    (int, Seq<(ClassVariableVisibility, VariableTypeV, Seq<char>)>),
> {
    let vis: Option<(int, ClassVariableVisibility)> = if kw_at(s, i, "field"@) {
        Some((i + 5, ClassVariableVisibility::Field))
    } else if kw_at(s, i, "static"@) {
        Some((i + 6, ClassVariableVisibility::Static))
    } else {
        None
    };
    match vis {
        None => None,
        Some((e, vv)) => {
            let j = ws(s, e);
            if j > e && j <= s.len() {
                match p_type(s, j) {
                    None => None,
                    Some((j2, ty)) => {
                        let j3 = ws(s, j2);
                        if j3 > j2 && j3 <= s.len() {
                            match ident_at(s, j3) {
                                None => None,
                                Some((j4, n1)) => {
                                    if 0 <= j4 <= s.len() {
                                        let (k, more) = p_more_class_vars(s, j4);
                                        let q = ws(s, k);
                                        if 0 <= q && q < s.len() && s[q] == ';' {
                                            Some(
                                                (
                                                    q + 1,
                                                    Seq::new(
                                                        1 + more.len(),
                                                        |x: int|
                                                            if x == 0 {
                                                                (vv, ty, n1)
                                                            } else {
                                                                (vv, ty, more[x - 1])
                                                            },
                                                    ),
                                                ),
                                            )
                                        } else {
                                            None
                                        }
                                    } else {
                                        None
                                    }
                                },
                            }
                        } else {
                            None
                        }
                    },
                }
            } else {
                None
            }
        },
    }
}

/// The class-variable lines, blanks between them.
pub open spec fn p_class_vars(s: Seq<char>, i: int) -> (
    int,
    Seq<(ClassVariableVisibility, VariableTypeV, Seq<char>)>,
)
    decreases s.len() - i,
{
    if 0 <= i && i <= s.len() {
        match p_class_var(s, i) {
            None => (i, Seq::empty()),
            Some((k, vs)) => {
                if k > i && k <= s.len() {
                    let j = ws(s, k);
                    if j > i && j <= s.len() {
                        let (m, rest) = p_class_vars(s, j);
                        if rest.len() == 0 {
                            (k, vs)
                        } else {
                            (m, vs + rest)
                        }
                    } else {
                        (k, vs)
                    }
                } else {
                    (i, Seq::empty())
                }
            },
        }
    } else {
        (i, Seq::empty())
    }
}

/// The subroutines, at least one blank between two of them.
pub open spec fn p_subs(s: Seq<char>, i: int) -> (int, Seq<SubroutineV>)
    decreases s.len() - i,
{
    if 0 <= i && i <= s.len() {
        match p_subroutine(s, i) {
            None => (i, Seq::empty()),
            Some((k, sub)) => {
                if k > i && k <= s.len() {
                    let j = ws(s, k);
                    if j > k && j <= s.len() {
                        let (m, rest) = p_subs(s, j);
                        if rest.len() == 0 {
                            (k, seq![sub])
                        } else {
                            (m, seq![sub] + rest)
                        }
                    } else {
                        (k, seq![sub])
                    }
                } else {
                    (i, Seq::empty())
                }
            },
        }
    } else {
        (i, Seq::empty())
    }
}

/// A whole class: `class Name { variables subroutines }`, blanks and
/// comments around each piece.
pub open spec fn p_class(s: Seq<char>, i: int) -> Option<(int, ClassV)> {
    let j0 = ws(s, i);
    if kw_at(s, j0, "class"@) && 0 <= j0 + 5 <= s.len() {
        let j = ws(s, j0 + 5);
        match ident_at(s, j) {
            None => None,
            Some((j2, name)) => {
                let j3 = ws(s, j2);
                if 0 <= j3 && j3 < s.len() && s[j3] == '{' && j3 + 1 <= s.len() {
                    let j4 = ws(s, j3 + 1);
                    if 0 <= j4 && j4 <= s.len() {
                        let (k, vars) = p_class_vars(s, j4);
                        if 0 <= k && k <= s.len() {
                            let k2 = ws(s, k);
                            if 0 <= k2 && k2 <= s.len() {
                                let (m, subs) = p_subs(s, k2);
                                if 0 <= m && m <= s.len() {
                                    let q = ws(s, m);
                                    if 0 <= q && q < s.len() && s[q] == '}' {
                                        Some((ws(s, q + 1), ClassV { name, vars, subs }))
                                    } else {
                                        None
                                    }
                                } else {
                                    None
                                }
                            } else {
                                None
                            }
                        } else {
                            None
                        }
                    } else {
                        None
                    }
                } else {
                    None
                }
            },
        }
    } else {
        None
    }
}

/// What one source file parses to: its class, when the whole text is one
/// well-formed class.
pub open spec fn spec_parse_file(text: Seq<char>) -> Option<ClassV> {
    match p_class(text, 0) {
        Some((j, cv)) => if j == text.len() {
            Some(cv)
        } else {
            None
        },
        None => None,
    }
}

/// What a program parses to: each file's class with its file name, or
/// the error naming the first file that does not parse.
pub open spec fn spec_parse_jack(files: Seq<(Seq<char>, Seq<char>)>) -> Result<
    Seq<(Seq<char>, ClassV)>,
    Seq<char>,
>
    decreases files,
{
    if files.len() == 0 {
        Ok(Seq::empty())
    } else {
        match spec_parse_file(files[0].1) {
            None => Err("Failed to compile with error in file "@ + files[0].0),
            Some(cv) => match spec_parse_jack(files.skip(1)) {
                Err(m) => Err(m),
                Ok(rest) => Ok(seq![(files[0].0, cv)] + rest),
            },
        }
    }
}

/// The name-and-type view of built parameters.
pub open spec fn params_view(ps: Seq<Variable>) -> Seq<(Seq<char>, VariableTypeV)> {
    Seq::new(ps.len(), |i: int| (ps[i].identifier@, vtype_view(ps[i].var_type)))
}

/// The visibility, type and name view of built class variables.
pub open spec fn cvars_view(cs: Seq<ClassVariable>) -> Seq<
    (ClassVariableVisibility, VariableTypeV, Seq<char>),
> {
    Seq::new(cs.len(), |i: int| (cs[i].visibility, vtype_view(cs[i].var_type), cs[i].identifier@))
}

/// The view of built subroutines.
pub open spec fn subs_view(ss: Seq<Subroutine>) -> Seq<SubroutineV> {
    Seq::new(ss.len(), |i: int| subroutine_view(ss[i]))
}

/// Parses a declared type.
fn parse_var_type(v: &Vec<char>, i: usize) -> (r: Option<(usize, VariableType)>)
    requires
        i <= v@.len(),
    ensures
        match p_type(v@, i as int) {
            Some((j, tv)) => r matches Some(p) && p.0 as int == j && vtype_view(p.1) == tv && p.0
                <= v@.len() && i < p.0,
            None => r is None,
        },
{
    let (j, name) = match parse_identifier(v, i) {
        Some(p) => p,
        None => {
            return None;
        },
    };
    if crate::textparse::str_eq(name.as_str(), "Array") {
        Some((j, VariableType::Array))
    } else if crate::textparse::str_eq(name.as_str(), "boolean") {
        Some((j, VariableType::Boolean))
    } else if crate::textparse::str_eq(name.as_str(), "char") {
        Some((j, VariableType::Char))
    } else if crate::textparse::str_eq(name.as_str(), "int") {
        Some((j, VariableType::Int))
    } else {
        Some((j, VariableType::ClassName(name)))
    }
}

/// Parses a return type.
fn parse_return_type(v: &Vec<char>, i: usize) -> (r: Option<(usize, ReturnType)>)
    requires
        i <= v@.len(),
    ensures
        match p_rtype(v@, i as int) {
            Some((j, tv)) => r matches Some(p) && p.0 as int == j && rtype_view(p.1) == tv && p.0
                <= v@.len() && i < p.0,
            None => r is None,
        },
{
    let (j, name) = match parse_identifier(v, i) {
        Some(p) => p,
        None => {
            return None;
        },
    };
    if crate::textparse::str_eq(name.as_str(), "void") {
        Some((j, ReturnType::Void))
    } else if crate::textparse::str_eq(name.as_str(), "boolean") {
        Some((j, ReturnType::Boolean))
    } else if crate::textparse::str_eq(name.as_str(), "char") {
        Some((j, ReturnType::Char))
    } else if crate::textparse::str_eq(name.as_str(), "int") {
        Some((j, ReturnType::Int))
    } else {
        Some((j, ReturnType::ClassName(name)))
    }
}

/// Parses a subroutine call.
fn parse_subroutine_call(v: &Vec<char>, i: usize) -> (r: Option<(usize, SubroutineCall)>)
    requires
        i <= v@.len(),
    ensures
        match p_call(v@, i as int) {
            Some((j, cv)) => r matches Some(p) && p.0 as int == j && call_view(p.1) == cv && p.0
                <= v@.len(),
            None => r is None,
        },
{
    let (j, name) = match parse_identifier(v, i) {
        Some(p) => p,
        None => {
            return None;
        },
    };
    if j < v.len() && v[j] == '(' {
        let (k, args) = match parse_parameter_list(v, j + 1) {
            Some(p) => p,
            None => {
                return None;
            },
        };
        if k < v.len() && v[k] == ')' {
            let call = SubroutineCall { target_name: None, subroutine_name: name, parameters: args };
            proof {
                assert(call_view(call) == CallV {
                    target: None,
                    name: call.subroutine_name@,
                    args: exprs_view(call.parameters@),
                });
            }
            Some((k + 1, call))
        } else {
            None
        }
    } else if j < v.len() && v[j] == '.' {
        let (j2, name2) = match parse_identifier(v, j + 1) {
            Some(p) => p,
            None => {
                return None;
            },
        };
        if j2 < v.len() && v[j2] == '(' {
            let (k, args) = match parse_parameter_list(v, j2 + 1) {
                Some(p) => p,
                None => {
                    return None;
                },
            };
            if k < v.len() && v[k] == ')' {
                let call = SubroutineCall {
                    target_name: Some(name),
                    subroutine_name: name2,
                    parameters: args,
                };
                proof {
                    assert(call_view(call) == CallV {
                        target: Some(call.target_name->Some_0@),
                        name: call.subroutine_name@,
                        args: exprs_view(call.parameters@),
                    });
                }
                Some((k + 1, call))
            } else {
                None
            }
        } else {
            None
        }
    } else {
        None
    }
}

/// Parses the extra names of a `var` line.
fn parse_more_names(v: &Vec<char>, i: usize) -> (r: (usize, Vec<String>))
    requires
        i <= v@.len(),
    ensures
        ({
            let (j, names) = p_more_vars(v@, i as int);
            r.0 as int == j && r.0 <= v@.len() && r.1@.len() == names.len() && (forall|x: int|
                0 <= x < names.len() ==> (#[trigger] r.1@[x])@ == names[x]) && i <= r.0
        }),
    decreases v@.len() - i,
{
    if i < v.len() && v[i] == ',' {
        let j = all_whitespace0(v, i + 1);
        match parse_identifier(v, j) {
            None => (i, Vec::new()),
            Some((k, n)) => {
                let (m, rest) = parse_more_names(v, k);
                let mut out: Vec<String> = Vec::new();
                out.push(n);
                let mut tail = rest;
                out.append(&mut tail);
                (m, out)
            },
        }
    } else {
        (i, Vec::new())
    }
}

/// Parses one statement.
#[verifier::rlimit(100)]
pub fn parse_statement(v: &Vec<char>, i: usize) -> (r: Option<(usize, Statement)>)
    requires
        i <= v@.len(),
    ensures
        match p_statement(v@, i as int) {
            Some((j, sv)) => r matches Some(p) && p.0 as int == j && statement_view(p.1) == sv
                && p.0 <= v@.len(),
            None => r is None,
        },
    decreases v@.len() - i, 5int,
{
    let vlen = v.len();
    proof {
        reveal_strlit("var");
        reveal_strlit("let");
        reveal_strlit("while");
        reveal_strlit("if");
        reveal_strlit("do");
        reveal_strlit("return");
        reveal_strlit("else");
    }
    if parse_keyword(v, i, "var") {
        let j = all_whitespace0(v, i + 3);
        if !(j > i + 3) {
            return None;
        }
        let (j2, ty) = match parse_var_type(v, j) {
            Some(p) => p,
            None => {
                return None;
            },
        };
        let j3 = all_whitespace0(v, j2);
        if !(j3 > j2) {
            return None;
        }
        let (j4, n1) = match parse_identifier(v, j3) {
            Some(p) => p,
            None => {
                return None;
            },
        };
        let (k, more) = parse_more_names(v, j4);
        let q = all_whitespace0(v, k);
        if q < v.len() && v[q] == ';' {
            let mut vars: Vec<Variable> = Vec::new();
            vars.push(Variable { identifier: n1, var_type: ty.clone_type() });
            let mut x: usize = 0;
            let ghost morev = p_more_vars(v@, j4 as int).1;
            while x < more.len()
                invariant
                    x <= more@.len(),
                    morev.len() == more@.len(),
                    forall|q2: int| 0 <= q2 < morev.len() ==> (#[trigger] more@[q2])@ == morev[q2],
                    vtype_view(ty) == p_type(v@, ws(v@, i + 3))->Some_0.1,
                    vars@.len() == 1 + x,
                    vars@[0].identifier@ == ident_at(v@, ws(v@, ws(v@, i + 3)
                        + (p_type(v@, ws(v@, i + 3))->Some_0.0 - ws(v@, i + 3))))->Some_0.1
                        || vars@[0].identifier@ == n1@,
                    vars@[0].identifier@ == n1@,
                    vtype_view(vars@[0].var_type) == vtype_view(ty),
                    forall|q2: int|
                        1 <= q2 < vars@.len() ==> (#[trigger] vars@[q2]).identifier@ == morev[q2
                            - 1] && vtype_view(vars@[q2].var_type) == vtype_view(ty),
                decreases more@.len() - x,
            {
                let nm = more[x].clone();
                vars.push(Variable { identifier: nm, var_type: ty.clone_type() });
                x = x + 1;
            }
            let st = Statement::VarDecl(VarDeclDetails { variables: vars });
            proof {
                let sv = p_statement(v@, i as int)->Some_0.1;
                assert(statement_view(st) matches StatementV::VarDecl(items) && items
                    =~= sv->VarDecl_0);
            }
            Some((q + 1, st))
        } else {
            None
        }
    } else if parse_keyword(v, i, "let") {
        let j = all_whitespace0(v, i + 3);
        if !(j > i + 3) {
            return None;
        }
        let (j2, n) = match parse_identifier(v, j) {
            Some(p) => p,
            None => {
                return None;
            },
        };
        let j3 = all_whitespace0(v, j2);
        let mut idx: Option<Box<Expr>> = None;
        let pos: usize;
        if j3 < v.len() && v[j3] == '[' {
            let j4 = all_whitespace0(v, j3 + 1);
            if !(j4 > i) {
                return None;
            }
            let (k, e) = match parse_expression(v, j4) {
                Some(p) => p,
                None => {
                    return None;
                },
            };
            let k2 = all_whitespace0(v, k);
            if k2 < v.len() && v[k2] == ']' {
                idx = Some(Box::new(e));
                pos = all_whitespace0(v, k2 + 1);
            } else {
                return None;
            }
        } else {
            pos = j2;
        }
        let m = all_whitespace0(v, pos);
        if !(m < v.len() && v[m] == '=') {
            return None;
        }
        let m2 = all_whitespace0(v, m + 1);
        if !(m2 > i) {
            return None;
        }
        let (q, rhs) = match parse_expression(v, m2) {
            Some(p) => p,
            None => {
                return None;
            },
        };
        let q2 = all_whitespace0(v, q);
        if q2 < v.len() && v[q2] == ';' {
            let st = Statement::Let(
                LetDetails { identifier: VariableRef { name: n, index: idx }, expression: rhs },
            );
            proof {
                assert(statement_view(st) == p_statement(v@, i as int)->Some_0.1);
            }
            Some((q2 + 1, st))
        } else {
            None
        }
    } else if parse_keyword(v, i, "while") {
        let j = all_whitespace0(v, i + 5);
        if !(j < v.len() && v[j] == '(') {
            return None;
        }
        let j2 = all_whitespace0(v, j + 1);
        if !(j2 > i) {
            return None;
        }
        let (k, cond) = match parse_expression(v, j2) {
            Some(p) => p,
            None => {
                return None;
            },
        };
        let k2 = all_whitespace0(v, k);
        if !(k2 < v.len() && v[k2] == ')') {
            return None;
        }
        let k3 = all_whitespace0(v, k2 + 1);
        if !(k3 < v.len() && v[k3] == '{' && k3 + 1 > i) {
            return None;
        }
        let (m, body) = parse_statements(v, k3 + 1);
        if m < v.len() && v[m] == '}' {
            let st = Statement::While(WhileDetails { condition: cond, body });
            proof {
                assert(statement_view(st) == p_statement(v@, i as int)->Some_0.1);
            }
            Some((m + 1, st))
        } else {
            None
        }
    } else if parse_keyword(v, i, "if") {
        let j = all_whitespace0(v, i + 2);
        if !(j < v.len() && v[j] == '(') {
            return None;
        }
        let j2 = all_whitespace0(v, j + 1);
        if !(j2 > i) {
            return None;
        }
        let (k, cond) = match parse_expression(v, j2) {
            Some(p) => p,
            None => {
                return None;
            },
        };
        let k2 = all_whitespace0(v, k);
        if !(k2 < v.len() && v[k2] == ')') {
            return None;
        }
        let k3 = all_whitespace0(v, k2 + 1);
        if !(k3 < v.len() && v[k3] == '{' && k3 + 1 > i) {
            return None;
        }
        let (m, then_body) = parse_statements(v, k3 + 1);
        if !(m < v.len() && v[m] == '}') {
            return None;
        }
        let o = all_whitespace0(v, m + 1);
        if parse_keyword(v, o, "else") {
            let o2 = all_whitespace0(v, o + 4);
            if o2 < v.len() && v[o2] == '{' && o2 + 1 > i {
                let (m2, else_body) = parse_statements(v, o2 + 1);
                let ghost ebv = stmts_view(else_body@);
                proof {
                    assert(ebv == p_statements(v@, o2 + 1).1);
                }
                if m2 < v.len() && v[m2] == '}' {
                    let st = Statement::If(
                        IfDetails { condition: cond, if_body: then_body, else_body: Some(else_body) },
                    );
                    proof {
                        assert(statement_view(st) == StatementV::If(
                            Box::new(expr_view(st->If_0.condition)),
                            stmts_view(st->If_0.if_body@),
                            Some(stmts_view(st->If_0.else_body->Some_0@)),
                        ));
                        assert(statement_view(st)->If_2 == Some(ebv));
                        assert(p_statement(v@, i as int)->Some_0.1->If_2 == Some(
                            p_statements(v@, ws(v@, o + 4) + 1).1,
                        ));
                        assert(statement_view(st) == p_statement(v@, i as int)->Some_0.1);
                    }
                    return Some((m2 + 1, st));
                }
                let st = Statement::If(
                    IfDetails { condition: cond, if_body: then_body, else_body: None },
                );
                proof {
                    assert(statement_view(st) == p_statement(v@, i as int)->Some_0.1);
                }
                return Some((m + 1, st));
            }
            let st = Statement::If(
                IfDetails { condition: cond, if_body: then_body, else_body: None },
            );
            proof {
                assert(statement_view(st) == p_statement(v@, i as int)->Some_0.1);
            }
            return Some((m + 1, st));
        }
        let st = Statement::If(IfDetails { condition: cond, if_body: then_body, else_body: None });
        proof {
            assert(statement_view(st) == p_statement(v@, i as int)->Some_0.1);
        }
        Some((m + 1, st))
    } else if parse_keyword(v, i, "do") {
        let j = all_whitespace0(v, i + 2);
        if !(j > i + 2) {
            return None;
        }
        let (k, call) = match parse_subroutine_call(v, j) {
            Some(p) => p,
            None => {
                return None;
            },
        };
        let k2 = all_whitespace0(v, k);
        if k2 < v.len() && v[k2] == ';' {
            let st = Statement::Do(call);
            proof {
                assert(statement_view(st) == p_statement(v@, i as int)->Some_0.1);
            }
            Some((k2 + 1, st))
        } else {
            None
        }
    } else if parse_keyword(v, i, "return") {
        let e = i + 6;
        let j = all_whitespace0(v, e);
        match parse_expression(v, j) {
            Some((k, ev)) => {
                let k2 = all_whitespace0(v, k);
                if k2 < v.len() && v[k2] == ';' {
                    let st = Statement::Return(Some(ev));
                    proof {
                        assert(statement_view(st) == p_statement(v@, i as int)->Some_0.1);
                    }
                    Some((k2 + 1, st))
                } else {
                    None
                }
            },
            None => {
                if e < v.len() && v[e] == ';' {
                    let st = Statement::Return(None);
                    proof {
                        assert(statement_view(st) == p_statement(v@, i as int)->Some_0.1);
                    }
                    Some((e + 1, st))
                } else {
                    None
                }
            },
        }
    } else {
        None
    }
}

/// Parses a statement row.
pub fn parse_statements(v: &Vec<char>, i: usize) -> (r: (usize, Vec<Statement>))
    requires
        i <= v@.len(),
    ensures
        ({
            let (j, svs) = p_statements(v@, i as int);
            r.0 as int == j && stmts_view(r.1@) == svs && r.0 <= v@.len() && i <= r.0
        }),
    decreases v@.len() - i, 6int,
{
    let j = all_whitespace0(v, i);
    match parse_statement(v, j) {
        None => {
            proof {
                assert(stmts_view(Seq::<Statement>::empty()) =~= Seq::<StatementV>::empty());
            }
            (j, Vec::new())
        },
        Some((k, st)) => {
            if k > i {
                let (m, rest) = parse_statements(v, k);
                let ghost stv = statement_view(st);
                let ghost restv = stmts_view(rest@);
                let mut out: Vec<Statement> = Vec::new();
                out.push(st);
                let mut tail = rest;
                out.append(&mut tail);
                proof {
                    assert(out@.skip(1) =~= rest@);
                    assert(stmts_view(out@) =~= seq![stv] + restv);
                }
                (m, out)
            } else {
                proof {
                    assert(stmts_view(Seq::<Statement>::empty()) =~= Seq::<StatementV>::empty());
                }
                (j, Vec::new())
            }
        },
    }
}

/// Parses one parameter.
fn parse_parameter(v: &Vec<char>, i: usize) -> (r: Option<(usize, Variable)>)
    requires
        i <= v@.len(),
    ensures
        match p_param(v@, i as int) {
            Some((j, pv)) => r matches Some(p) && p.0 as int == j && p.1.identifier@ == pv.0
                && vtype_view(p.1.var_type) == pv.1 && p.0 <= v@.len() && i < p.0,
            None => r is None,
        },
{
    let (j, ty) = match parse_var_type(v, i) {
        Some(p) => p,
        None => {
            return None;
        },
    };
    let j2 = all_whitespace0(v, j);
    if !(j2 > j) {
        return None;
    }
    let (k, n) = match parse_identifier(v, j2) {
        Some(p) => p,
        None => {
            return None;
        },
    };
    Some((k, Variable { identifier: n, var_type: ty }))
}

/// Parses a parameter row.
fn p_params_exec(v: &Vec<char>, i: usize) -> (r: (usize, Vec<Variable>))
    requires
        i <= v@.len(),
    ensures
        ({
            let (j, pvs) = p_params(v@, i as int);
            r.0 as int == j && params_view(r.1@) == pvs && r.0 <= v@.len() && i <= r.0
        }),
    decreases v@.len() - i,
{
    let (k, pr) = match parse_parameter(v, i) {
        Some(p) => p,
        None => {
            proof {
                assert(params_view(Seq::<Variable>::empty()) =~= Seq::<
                    (Seq<char>, VariableTypeV),
                >::empty());
            }
            return (i, Vec::new());
        },
    };
    let j = all_whitespace0(v, k);
    if j < v.len() && v[j] == ',' {
        let j2 = all_whitespace0(v, j + 1);
        if j2 > i {
            let (m, rest) = p_params_exec(v, j2);
            if rest.len() == 0 {
                let ghost prv = (pr.identifier@, vtype_view(pr.var_type));
                let mut out: Vec<Variable> = Vec::new();
                out.push(pr);
                proof {
                    assert(params_view(out@) =~= seq![prv]);
                }
                return (k, out);
            }
            let ghost prv = (pr.identifier@, vtype_view(pr.var_type));
            let ghost restv = params_view(rest@);
            let mut out: Vec<Variable> = Vec::new();
            out.push(pr);
            let mut tail = rest;
            out.append(&mut tail);
            proof {
                assert(params_view(rest@).len() != 0);
                assert(params_view(out@) =~= seq![prv] + restv);
            }
            return (m, out);
        }
    }
    let ghost prv = (pr.identifier@, vtype_view(pr.var_type));
    let mut out: Vec<Variable> = Vec::new();
    out.push(pr);
    proof {
        assert(params_view(out@) =~= seq![prv]);
    }
    (k, out)
}

/// Parses one subroutine.
fn parse_function(v: &Vec<char>, i: usize) -> (r: Option<(usize, Subroutine)>)
    requires
        i <= v@.len(),
    ensures
        match p_subroutine(v@, i as int) {
            Some((j, sv)) => r matches Some(p) && p.0 as int == j && subroutine_view(p.1) == sv
                && p.0 <= v@.len(),
            None => r is None,
        },
{
    proof {
        reveal_strlit("function");
        reveal_strlit("constructor");
        reveal_strlit("method");
    }
    let vlen = v.len();
    let e: usize;
    let kd: SubroutineType;
    if parse_keyword(v, i, "function") {
        e = i + 8;
        kd = SubroutineType::Function;
    } else if parse_keyword(v, i, "constructor") {
        e = i + 11;
        kd = SubroutineType::Constructor;
    } else if parse_keyword(v, i, "method") {
        e = i + 6;
        kd = SubroutineType::Method;
    } else {
        return None;
    }
    let j = all_whitespace0(v, e);
    if !(j > e) {
        return None;
    }
    let (j2, rt) = match parse_return_type(v, j) {
        Some(p) => p,
        None => {
            return None;
        },
    };
    let j3 = all_whitespace0(v, j2);
    if !(j3 > j2) {
        return None;
    }
    let (j4, name) = match parse_identifier(v, j3) {
        Some(p) => p,
        None => {
            return None;
        },
    };
    let j5 = all_whitespace0(v, j4);
    if !(j5 < v.len() && v[j5] == '(') {
        return None;
    }
    let (k, params) = p_params_exec(v, j5 + 1);
    if !(k < v.len() && v[k] == ')') {
        return None;
    }
    let k2 = all_whitespace0(v, k + 1);
    if !(k2 < v.len() && v[k2] == '{' && k2 + 1 > i) {
        return None;
    }
    let (m, body) = parse_statements(v, k2 + 1);
    if m < v.len() && v[m] == '}' {
        let sub = Subroutine {
            subroutine_type: kd,
            identifier: name,
            parameters: params,
            return_type: rt,
            statements: body,
        };
        proof {
            assert(subroutine_view(sub) == SubroutineV {
                kind: sub.subroutine_type,
                name: sub.identifier@,
                params: params_view(sub.parameters@),
                ret: rtype_view(sub.return_type),
                body: stmts_view(sub.statements@),
            });
            assert(subroutine_view(sub) == p_subroutine(v@, i as int)->Some_0.1);
        }
        Some((m + 1, sub))
    } else {
        None
    }
}

/// Parses the extra names of a class-variable line.
fn parse_more_class_names(v: &Vec<char>, i: usize) -> (r: (usize, Vec<String>))
    requires
        i <= v@.len(),
    ensures
        ({
            let (j, names) = p_more_class_vars(v@, i as int);
            r.0 as int == j && r.0 <= v@.len() && r.1@.len() == names.len() && (forall|x: int|
                0 <= x < names.len() ==> (#[trigger] r.1@[x])@ == names[x]) && i <= r.0
        }),
    decreases v@.len() - i,
{
    let j = all_whitespace0(v, i);
    if j < v.len() && v[j] == ',' {
        let j2 = all_whitespace0(v, j + 1);
        if j2 > i {
            match parse_identifier(v, j2) {
                None => (i, Vec::new()),
                Some((k, n)) => {
                    let (m, rest) = parse_more_class_names(v, k);
                    let mut out: Vec<String> = Vec::new();
                    out.push(n);
                    let mut tail = rest;
                    out.append(&mut tail);
                    (m, out)
                },
            }
        } else {
            (i, Vec::new())
        }
    } else {
        (i, Vec::new())
    }
}

/// Parses one class-variable line into its declared variables.
fn parse_variable(v: &Vec<char>, i: usize) -> (r: Option<(usize, Vec<ClassVariable>)>)
    requires
        i <= v@.len(),
    ensures
        match p_class_var(v@, i as int) {
            Some((j, cvs)) => r matches Some(p) && p.0 as int == j && cvars_view(p.1@) == cvs
                && p.0 <= v@.len() && i < p.0,
            None => r is None,
        },
{
    proof {
        reveal_strlit("field");
        reveal_strlit("static");
    }
    let vlen = v.len();
    let e: usize;
    let vis: ClassVariableVisibility;
    if parse_keyword(v, i, "field") {
        e = i + 5;
        vis = ClassVariableVisibility::Field;
    } else if parse_keyword(v, i, "static") {
        e = i + 6;
        vis = ClassVariableVisibility::Static;
    } else {
        return None;
    }
    let j = all_whitespace0(v, e);
    if !(j > e) {
        return None;
    }
    let (j2, ty) = match parse_var_type(v, j) {
        Some(p) => p,
        None => {
            return None;
        },
    };
    let j3 = all_whitespace0(v, j2);
    if !(j3 > j2) {
        return None;
    }
    let (j4, n1) = match parse_identifier(v, j3) {
        Some(p) => p,
        None => {
            return None;
        },
    };
    let (k, more) = parse_more_class_names(v, j4);
    let q = all_whitespace0(v, k);
    if q < v.len() && v[q] == ';' {
        let mut vars: Vec<ClassVariable> = Vec::new();
        vars.push(ClassVariable { visibility: vis, var_type: ty.clone_type(), identifier: n1 });
        let ghost morev = p_more_class_vars(v@, j4 as int).1;
        let ghost tyv = vtype_view(ty);
        let mut x: usize = 0;
        while x < more.len()
            invariant
                x <= more@.len(),
                morev.len() == more@.len(),
                forall|q2: int| 0 <= q2 < morev.len() ==> (#[trigger] more@[q2])@ == morev[q2],
                vtype_view(ty) == tyv,
                vars@.len() == 1 + x,
                vars@[0].identifier@ == n1@,
                vars@[0].visibility == vis,
                vtype_view(vars@[0].var_type) == tyv,
                forall|q2: int|
                    1 <= q2 < vars@.len() ==> (#[trigger] vars@[q2]).identifier@ == morev[q2 - 1]
                        && vtype_view(vars@[q2].var_type) == tyv && vars@[q2].visibility == vis,
            decreases more@.len() - x,
        {
            let nm = more[x].clone();
            vars.push(ClassVariable { visibility: vis, var_type: ty.clone_type(), identifier: nm });
            x = x + 1;
        }
        proof {
            let cvs = p_class_var(v@, i as int)->Some_0.1;
            assert(cvars_view(vars@) =~= cvs);
        }
        Some((q + 1, vars))
    } else {
        None
    }
}

/// Parses the class-variable lines.
fn parse_variables(v: &Vec<char>, i: usize) -> (r: (usize, Vec<ClassVariable>))
    requires
        i <= v@.len(),
    ensures
        ({
            let (j, cvs) = p_class_vars(v@, i as int);
            r.0 as int == j && cvars_view(r.1@) == cvs && r.0 <= v@.len() && i <= r.0
        }),
    decreases v@.len() - i,
{
    let (k, vs) = match parse_variable(v, i) {
        Some(p) => p,
        None => {
            proof {
                assert(cvars_view(Seq::<ClassVariable>::empty()) =~= Seq::<
                    (ClassVariableVisibility, VariableTypeV, Seq<char>),
                >::empty());
            }
            return (i, Vec::new());
        },
    };
    let j = all_whitespace0(v, k);
    if j > i {
        let (m, rest) = parse_variables(v, j);
        if rest.len() == 0 {
            proof {
                assert(cvars_view(rest@).len() == 0);
            }
            return (k, vs);
        }
        let ghost vsv = cvars_view(vs@);
        let ghost restv = cvars_view(rest@);
        let mut out = vs;
        let mut tail = rest;
        out.append(&mut tail);
        proof {
            assert(cvars_view(out@) =~= vsv + restv);
        }
        return (m, out);
    }
    (k, vs)
}

/// Parses the subroutines.
fn parse_functions(v: &Vec<char>, i: usize) -> (r: (usize, Vec<Subroutine>))
    requires
        i <= v@.len(),
    ensures
        ({
            let (j, svs) = p_subs(v@, i as int);
            r.0 as int == j && subs_view(r.1@) == svs && r.0 <= v@.len() && i <= r.0
        }),
    decreases v@.len() - i,
{
    let (k, sub) = match parse_function(v, i) {
        Some(p) => p,
        None => {
            proof {
                assert(subs_view(Seq::<Subroutine>::empty()) =~= Seq::<SubroutineV>::empty());
            }
            return (i, Vec::new());
        },
    };
    if k > i {
        let j = all_whitespace0(v, k);
        if j > k {
            let (m, rest) = parse_functions(v, j);
            if rest.len() == 0 {
                proof {
                    assert(subs_view(rest@).len() == 0);
                }
                let ghost sv = subroutine_view(sub);
                let mut out: Vec<Subroutine> = Vec::new();
                out.push(sub);
                proof {
                    assert(subs_view(out@) =~= seq![sv]);
                }
                return (k, out);
            }
            let ghost sv = subroutine_view(sub);
            let ghost restv = subs_view(rest@);
            let mut out: Vec<Subroutine> = Vec::new();
            out.push(sub);
            let mut tail = rest;
            out.append(&mut tail);
            proof {
                assert(subs_view(out@) =~= seq![sv] + restv);
            }
            return (m, out);
        }
        let ghost sv = subroutine_view(sub);
        let mut out: Vec<Subroutine> = Vec::new();
        out.push(sub);
        proof {
            assert(subs_view(out@) =~= seq![sv]);
        }
        (k, out)
    } else {
        proof {
            assert(subs_view(Seq::<Subroutine>::empty()) =~= Seq::<SubroutineV>::empty());
        }
        (i, Vec::new())
    }
}

/// Parses one whole class.
pub fn parse_class(v: &Vec<char>, i: usize) -> (r: Option<(usize, Class)>)
    requires
        i <= v@.len(),
    ensures
        match p_class(v@, i as int) {
            Some((j, cv)) => r matches Some(p) && p.0 as int == j && class_view(p.1) == cv && p.0
                <= v@.len(),
            None => r is None,
        },
{
    proof {
        reveal_strlit("class");
    }
    let vlen = v.len();
    let j0 = all_whitespace0(v, i);
    if !parse_keyword(v, j0, "class") {
        return None;
    }
    proof {
        assert(j0 + 5 <= vlen);
    }
    let j = all_whitespace0(v, j0 + 5);
    let (j2, name) = match parse_identifier(v, j) {
        Some(p) => p,
        None => {
            return None;
        },
    };
    let j3 = all_whitespace0(v, j2);
    if !(j3 < v.len() && v[j3] == '{') {
        return None;
    }
    let j4 = all_whitespace0(v, j3 + 1);
    let (k, vars) = parse_variables(v, j4);
    let k2 = all_whitespace0(v, k);
    let (m, subs) = parse_functions(v, k2);
    let q = all_whitespace0(v, m);
    if q < v.len() && v[q] == '}' {
        let fin = all_whitespace0(v, q + 1);
        let class = Class { identifier: name, subroutines: subs, variables: vars };
        proof {
            assert(cvars_view(class.variables@) == p_class_vars(v@, j4 as int).1);
            assert(subs_view(class.subroutines@) == p_subs(v@, k2 as int).1);
            assert(class_view(class).vars =~= cvars_view(class.variables@));
            assert(class_view(class).subs =~= subs_view(class.subroutines@));
            assert(class_view(class) == p_class(v@, i as int)->Some_0.1);
        }
        Some((fin, class))
    } else {
        None
    }
}

/// One source file handed to the parser: its name and its text.
pub struct FileInput {
    pub filename: String,
    pub contents: String,
}

impl FileInput {
    pub fn new(filename: &str, contents: &str) -> (r: Self)
        ensures
            r.filename@ == filename@,
            r.contents@ == contents@,
    {
        FileInput {
            filename: String::from_str(filename),
            contents: String::from_str(contents),
        }
    }
}

/// The name and text of each file.
pub open spec fn files_view(fs: Seq<FileInput>) -> Seq<(Seq<char>, Seq<char>)> {
    Seq::new(fs.len(), |i: int| (fs[i].filename@, fs[i].contents@))
}

/// The file name and class view of each parsed class.
pub open spec fn classes_view(cs: Seq<CompiledClass>) -> Seq<(Seq<char>, ClassV)> {
    Seq::new(cs.len(), |i: int| (cs[i].source_filename@, class_view(cs[i].class)))
}

/// Parses each file into its class; the first file that is not one
/// well-formed class is the error.
pub fn parse_jack(files: Vec<FileInput>) -> (r: Result<AST, String>)
    ensures
        match spec_parse_jack(files_view(files@)) {
            Ok(items) => r matches Ok(ast) && classes_view(ast.classes@) == items,
            Err(m) => r matches Err(e) && e@ == m,
        },
{
    let ghost fv = files_view(files@);
    let mut result: Vec<CompiledClass> = Vec::new();
    let mut i: usize = 0;
    proof {
        assert(fv.skip(0) =~= fv);
        match spec_parse_jack(fv) {
            Ok(rest) => {
                assert(classes_view(result@) + rest =~= rest);
            },
            Err(m) => {},
        }
    }
    while i < files.len()
        invariant
            i <= fv.len(),
            fv == files_view(files@),
            spec_parse_jack(fv) == (match spec_parse_jack(fv.skip(i as int)) {
                Ok(rest) => Ok::<Seq<(Seq<char>, ClassV)>, Seq<char>>(
                    classes_view(result@) + rest,
                ),
                Err(m) => Err::<Seq<(Seq<char>, ClassV)>, Seq<char>>(m),
            }),
        decreases fv.len() - i,
    {
        let ghost sfx = fv.skip(i as int);
        proof {
            assert(sfx[0] == fv[i as int]);
            assert(sfx.skip(1) =~= fv.skip(i + 1));
        }
        let file = &files[i];
        let v = str_to_chars(file.contents.as_str());
        let parsed = parse_class(&v, 0);
        let ok: Option<Class> = match parsed {
            Some((j, class)) => {
                if j == v.len() {
                    Some(class)
                } else {
                    None
                }
            },
            None => None,
        };
        match ok {
            Some(class) => {
                let ghost pre = classes_view(result@);
                let ghost cv = class_view(class);
                result.push(
                    CompiledClass { class, source_filename: file.filename.clone() },
                );
                proof {
                    assert(classes_view(result@) =~= pre.push((fv[i as int].0, cv)));
                    match spec_parse_jack(fv.skip(i + 1)) {
                        Ok(rest) => {
                            assert(pre + (seq![(fv[i as int].0, cv)] + rest) =~= classes_view(
                                result@,
                            ) + rest);
                        },
                        Err(m) => {},
                    }
                }
            },
            None => {
                let msg = concat2(
                    "Failed to compile with error in file ",
                    file.filename.as_str(),
                );
                return Err(msg);
            },
        }
        i = i + 1;
    }
    proof {
        assert(fv.skip(i as int) =~= Seq::<(Seq<char>, Seq<char>)>::empty());
        assert(classes_view(result@) + Seq::<(Seq<char>, ClassV)>::empty() =~= classes_view(
            result@,
        ));
    }
    Ok(AST { classes: result })
}

} // verus!
