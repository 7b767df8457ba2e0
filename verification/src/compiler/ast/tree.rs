//! Expressions, statements and variable references: the mutually
//! recursive heart of the syntax tree.

use vstd::prelude::*;
use vstd::string::StringExecFns;

verus! {


/// The type of a variable: one of the built-in types or a class name.
#[derive(Debug, Clone)]
pub enum VariableType {
    Array,
    Int,
    Char,
    Boolean,
    ClassName(String),
}

/// The name a type carries into the symbol table.
pub open spec fn var_type_name(t: VariableType) -> Seq<char> {
    match t {
        VariableType::Array => "Array"@,
        VariableType::Int => "Int"@,
        VariableType::Char => "Char"@,
        VariableType::Boolean => "Bool"@,
        VariableType::ClassName(name) => name@,
    }
}

impl VariableType {
    /// Renders the type's name.
    pub fn to_string(&self) -> (r: String)
        ensures
            r@ == var_type_name(*self),
    {
        match self {
            VariableType::Array => String::from_str("Array"),
            VariableType::Int => String::from_str("Int"),
            VariableType::Char => String::from_str("Char"),
            VariableType::Boolean => String::from_str("Bool"),
            VariableType::ClassName(name) => name.clone(),
        }
    }
}

/// A declared variable: a name with its type.
#[derive(Debug, Clone)]
pub struct Variable {
    pub identifier: String,
    pub var_type: VariableType,
}

impl Variable {
    pub fn new(identifier: &str, var_type: VariableType) -> (r: Self)
        ensures
            r.identifier@ == identifier@,
            r.var_type == var_type,
    {
        Variable { identifier: String::from_str(identifier), var_type }
    }

    pub fn get_identifier(&self) -> (r: &str)
        ensures
            r@ == self.identifier@,
    {
        self.identifier.as_str()
    }

    pub fn get_type(&self) -> (r: &VariableType)
        ensures
            *r == self.var_type,
    {
        &self.var_type
    }
}

/// A use of a variable, plain or indexed into an array.
#[derive(Debug, PartialEq)]
pub struct VariableRef {
    pub name: String,
    pub index: Option<Box<Expr>>,
}

impl VariableRef {
    pub fn new(identifier: &str) -> (r: Self)
        ensures
            r.name@ == identifier@,
            r.index is None,
    {
        VariableRef { name: String::from_str(identifier), index: None }
    }

    pub fn new_with_index(identifier: &str, index: Expr) -> (r: Self)
        ensures
            r.name@ == identifier@,
            r.index matches Some(b) && *b == index,
    {
        VariableRef { name: String::from_str(identifier), index: Some(Box::new(index)) }
    }

    pub fn get_name(&self) -> (r: &str)
        ensures
            r@ == self.name@,
    {
        self.name.as_str()
    }

    pub fn get_index(&self) -> (r: Option<&Box<Expr>>)
        ensures
            match r {
                Some(b) => self.index matches Some(bb) && *b == bb,
                None => self.index is None,
            },
    {
        self.index.as_ref()
    }
}



/// An expression tree.
#[derive(Debug, PartialEq)]
pub enum Expr {
    Constant(Constant),
    VarRef(VariableRef),
    UnaryExpr(UnaryOp, Box<Expr>),
    BinaryExpr { lhs: Box<Expr>, op: BinaryOp, rhs: Box<Expr> },
    BracketedExpr(Box<Expr>),
    Call(SubroutineCall),
}

impl Expr {
    pub fn binary_op(lhs: Expr, op: BinaryOp, rhs: Expr) -> (r: Expr)
        ensures
            r matches Expr::BinaryExpr { lhs: l, op: o, rhs: rr } && *l == lhs && o == op && *rr
                == rhs,
    {
        Expr::BinaryExpr { lhs: Box::new(lhs), op, rhs: Box::new(rhs) }
    }

    pub fn unary_op(op: UnaryOp, rhs: Expr) -> (r: Expr)
        ensures
            r matches Expr::UnaryExpr(o, e) && o == op && *e == rhs,
    {
        Expr::UnaryExpr(op, Box::new(rhs))
    }

    pub fn var(var: VariableRef) -> (r: Expr)
        ensures
            r == Expr::VarRef(var),
    {
        Expr::VarRef(var)
    }

    pub fn brackets(expr: Expr) -> (r: Expr)
        ensures
            r matches Expr::BracketedExpr(e) && *e == expr,
    {
        Expr::BracketedExpr(Box::new(expr))
    }

    pub fn int_c(val: i32) -> (r: Expr)
        ensures
            r == Expr::Constant(Constant::Int(val)),
    {
        Expr::Constant(Constant::Int(val))
    }

    pub fn string(val: &str) -> (r: Expr)
        ensures
            r matches Expr::Constant(c) && c matches Constant::String(s) && s@ == val@,
    {
        Expr::Constant(Constant::String(String::from_str(val)))
    }

    pub fn true_c() -> (r: Expr)
        ensures
            r == Expr::Constant(Constant::Keyword(KeywordConstant::True)),
    {
        Expr::Constant(Constant::Keyword(KeywordConstant::True))
    }

    pub fn false_c() -> (r: Expr)
        ensures
            r == Expr::Constant(Constant::Keyword(KeywordConstant::False)),
    {
        Expr::Constant(Constant::Keyword(KeywordConstant::False))
    }

    pub fn null() -> (r: Expr)
        ensures
            r == Expr::Constant(Constant::Keyword(KeywordConstant::Null)),
    {
        Expr::Constant(Constant::Keyword(KeywordConstant::Null))
    }

    pub fn this() -> (r: Expr)
        ensures
            r == Expr::Constant(Constant::Keyword(KeywordConstant::This)),
    {
        Expr::Constant(Constant::Keyword(KeywordConstant::This))
    }

    /// Opens a builder for a subroutine call.
    pub fn call() -> (r: SubroutineCall)
        ensures
            r.target_name is None,
            r.subroutine_name@ == Seq::<char>::empty(),
            r.parameters@ == Seq::<Expr>::empty(),
    {
        SubroutineCall::new()
    }
}

/// A literal: an integer, a string, or a keyword constant.
#[derive(Debug, PartialEq)]
pub enum Constant {
    Int(i32),
    String(String),
    Keyword(KeywordConstant),
}

impl Constant {
    pub fn as_expr(self) -> (r: Expr)
        ensures
            r == Expr::Constant(self),
    {
        Expr::Constant(self)
    }
}

#[derive(Debug, PartialEq, Clone, Copy)]
pub enum KeywordConstant {
    True,
    False,
    Null,
    This,
}

#[derive(Debug, PartialEq, Clone, Copy)]
pub enum BinaryOp {
    Plus,
    Minus,
    Mult,
    Div,
    And,
    Or,
    Lt,
    Gt,
    Eq,
}

#[derive(Debug, Clone, Copy, PartialEq)]
pub enum UnaryOp {
    Minus,
    Not,
}



/// A `let` statement: a target and the expression assigned to it.
#[derive(Debug)]
pub struct LetDetails {
    pub identifier: VariableRef,
    pub expression: Expr,
}

impl LetDetails {
    pub fn new() -> (r: Self)
        ensures
            r.identifier.name@ == Seq::<char>::empty(),
            r.identifier.index is None,
            r.expression == Expr::Constant(Constant::Int(0)),
    {
        proof {
            reveal_strlit("");
        }
        LetDetails { identifier: VariableRef::new(""), expression: Expr::int_c(0) }
    }

    pub fn id(self, id: VariableRef) -> (r: Self)
        ensures
            r.identifier == id,
            r.expression == self.expression,
    {
        LetDetails { identifier: id, ..self }
    }

    pub fn value(self, expr: Expr) -> (r: Self)
        ensures
            r.identifier == self.identifier,
            r.expression == expr,
    {
        LetDetails { expression: expr, ..self }
    }

    pub fn get_identifier(&self) -> (r: &VariableRef)
        ensures
            *r == self.identifier,
    {
        &self.identifier
    }

    pub fn get_expression(&self) -> (r: &Expr)
        ensures
            *r == self.expression,
    {
        &self.expression
    }

    pub fn as_statement(self) -> (r: Statement)
        ensures
            r == Statement::Let(self),
    {
        Statement::Let(self)
    }
}

/// A `while` statement: a condition and a body.
#[derive(Debug)]
pub struct WhileDetails {
    pub condition: Expr,
    pub body: Vec<Statement>,
}

impl WhileDetails {
    pub fn new() -> (r: Self)
        ensures
            r.condition == Expr::Constant(
                Constant::Keyword(KeywordConstant::True),
            ),
            r.body@ == Seq::<Statement>::empty(),
    {
        WhileDetails { condition: Expr::true_c(), body: Vec::new() }
    }

    pub fn condition(self, condition: Expr) -> (r: Self)
        ensures
            r.condition == condition,
            r.body == self.body,
    {
        WhileDetails { condition, ..self }
    }

    pub fn add_statement(self, statement: Statement) -> (r: Self)
        ensures
            r.condition == self.condition,
            r.body@ == self.body@.push(statement),
    {
        let mut s = self;
        s.body.push(statement);
        s
    }

    pub fn get_condition(&self) -> (r: &Expr)
        ensures
            *r == self.condition,
    {
        &self.condition
    }

    pub fn get_body(&self) -> (r: &Vec<Statement>)
        ensures
            *r == self.body,
    {
        &self.body
    }

    pub fn as_statement(self) -> (r: Statement)
        ensures
            r == Statement::While(self),
    {
        Statement::While(self)
    }
}

/// An `if` statement: a condition, a then-body, and an optional
/// else-body.
#[derive(Debug)]
pub struct IfDetails {
    pub condition: Expr,
    pub if_body: Vec<Statement>,
    pub else_body: Option<Vec<Statement>>,
}

impl IfDetails {
    pub fn new() -> (r: Self)
        ensures
            r.condition == Expr::Constant(
                Constant::Keyword(KeywordConstant::True),
            ),
            r.if_body@ == Seq::<Statement>::empty(),
            r.else_body is None,
    {
        IfDetails { condition: Expr::true_c(), if_body: Vec::new(), else_body: None }
    }

    pub fn condition(self, condition: Expr) -> (r: Self)
        ensures
            r.condition == condition,
            r.if_body == self.if_body,
            r.else_body == self.else_body,
    {
        IfDetails { condition, ..self }
    }

    pub fn add_if_statement(self, statement: Statement) -> (r: Self)
        ensures
            r.condition == self.condition,
            r.if_body@ == self.if_body@.push(statement),
            r.else_body == self.else_body,
    {
        let mut s = self;
        s.if_body.push(statement);
        s
    }

    pub fn add_else_statement(self, statement: Statement) -> (r: Self)
        ensures
            r.condition == self.condition,
            r.if_body == self.if_body,
            match self.else_body {
                Some(es) => r.else_body matches Some(es2) && es2@ == es@.push(statement),
                None => r.else_body matches Some(es2) && es2@ == seq![statement],
            },
    {
        let mut s = self;
        match &mut s.else_body {
            Some(else_body) => {
                else_body.push(statement);
            },
            None => {
                let mut v: Vec<Statement> = Vec::new();
                v.push(statement);
                s.else_body = Some(v);
                proof {
                    assert(s.else_body->Some_0@ =~= seq![statement]);
                }
            },
        }
        s
    }

    pub fn get_condition(&self) -> (r: &Expr)
        ensures
            *r == self.condition,
    {
        &self.condition
    }

    pub fn get_if_body(&self) -> (r: &Vec<Statement>)
        ensures
            *r == self.if_body,
    {
        &self.if_body
    }

    pub fn get_else_body(&self) -> (r: Option<&Vec<Statement>>)
        ensures
            match r {
                Some(v) => self.else_body matches Some(v2) && *v == v2,
                None => self.else_body is None,
            },
    {
        self.else_body.as_ref()
    }

    pub fn as_statement(self) -> (r: Statement)
        ensures
            r == Statement::If(self),
    {
        Statement::If(self)
    }
}

/// A subroutine call: an optional target, the subroutine's name, and the
/// argument expressions.
#[derive(Debug, PartialEq)]
pub struct SubroutineCall {
    pub target_name: Option<String>,
    pub subroutine_name: String,
    pub parameters: Vec<Expr>,
}

impl SubroutineCall {
    pub fn new() -> (r: Self)
        ensures
            r.target_name is None,
            r.subroutine_name@ == Seq::<char>::empty(),
            r.parameters@ == Seq::<Expr>::empty(),
    {
        SubroutineCall {
            target_name: None,
            subroutine_name: String::new(),
            parameters: Vec::new(),
        }
    }

    pub fn as_statement(self) -> (r: Statement)
        ensures
            r == Statement::Do(self),
    {
        Statement::Do(self)
    }

    pub fn as_expr(self) -> (r: Expr)
        ensures
            r == Expr::Call(self),
    {
        Expr::Call(self)
    }

    pub fn set_target(self, target_name: &str) -> (r: Self)
        ensures
            r.target_name matches Some(t) && t@ == target_name@,
            r.subroutine_name == self.subroutine_name,
            r.parameters == self.parameters,
    {
        SubroutineCall { target_name: Some(String::from_str(target_name)), ..self }
    }

    pub fn get_target(&self) -> (r: &Option<String>)
        ensures
            *r == self.target_name,
    {
        &self.target_name
    }

    pub fn get_name(&self) -> (r: &str)
        ensures
            r@ == self.subroutine_name@,
    {
        self.subroutine_name.as_str()
    }

    pub fn name(self, name: &str) -> (r: Self)
        ensures
            r.target_name == self.target_name,
            r.subroutine_name@ == name@,
            r.parameters == self.parameters,
    {
        SubroutineCall { subroutine_name: String::from_str(name), ..self }
    }

    pub fn add_parameter(self, expr: Expr) -> (r: Self)
        ensures
            r.target_name == self.target_name,
            r.subroutine_name == self.subroutine_name,
            r.parameters@ == self.parameters@.push(expr),
    {
        let mut s = self;
        s.parameters.push(expr);
        s
    }

    pub fn add_parameters(self, parameters: Vec<Expr>) -> (r: Self)
        ensures
            r.target_name == self.target_name,
            r.subroutine_name == self.subroutine_name,
            r.parameters@ == self.parameters@ + parameters@,
    {
        let mut s = self;
        let mut ps = parameters;
        let ghost orig = s.parameters@;
        let ghost added = ps@;
        s.parameters.append(&mut ps);
        s
    }

    /// The called name as written: the target and a dot when a target is
    /// present, then the subroutine's name.
    pub fn name_as_string(&self) -> (r: String)
        ensures
            r@ == (match self.target_name {
                Some(t) => t@ + "."@,
                None => Seq::<char>::empty(),
            }) + self.subroutine_name@,
    {
        match &self.target_name {
            Some(t) => {
                let mut s = t.clone();
                s.append(".");
                s.append(self.subroutine_name.as_str());
                s
            },
            None => {
                let s = self.subroutine_name.clone();
                proof {
                    assert(Seq::<char>::empty() + self.subroutine_name@ =~= self.subroutine_name@);
                }
                s
            },
        }
    }

    pub fn get_parameters(&self) -> (r: &Vec<Expr>)
        ensures
            *r == self.parameters,
    {
        &self.parameters
    }
}

/// One `var` declaration line: the variables it declares.
#[derive(Debug)]
pub struct VarDeclDetails {
    pub variables: Vec<Variable>,
}

impl VarDeclDetails {
    pub fn new() -> (r: Self)
        ensures
            r.variables@ == Seq::<Variable>::empty(),
    {
        VarDeclDetails { variables: Vec::new() }
    }

    pub fn add_var(self, var: Variable) -> (r: Self)
        ensures
            r.variables@ == self.variables@.push(var),
    {
        let mut s = self;
        s.variables.push(var);
        s
    }

    pub fn get_variables(&self) -> (r: &Vec<Variable>)
        ensures
            *r == self.variables,
    {
        &self.variables
    }

    pub fn as_statement(self) -> (r: Statement)
        ensures
            r == Statement::VarDecl(self),
    {
        Statement::VarDecl(self)
    }
}

/// A statement.
#[derive(Debug)]
pub enum Statement {
    Let(LetDetails),
    While(WhileDetails),
    Do(SubroutineCall),
    If(IfDetails),
    Return(Option<Expr>),
    VarDecl(VarDeclDetails),
}

impl Statement {
    /// Opens a builder for a `do` statement.
    pub fn do_statement() -> (r: SubroutineCall)
        ensures
            r.target_name is None,
            r.subroutine_name@ == Seq::<char>::empty(),
            r.parameters@ == Seq::<Expr>::empty(),
    {
        SubroutineCall::new()
    }

    /// Opens a builder for a `var` declaration.
    pub fn var() -> (r: VarDeclDetails)
        ensures
            r.variables@ == Seq::<Variable>::empty(),
    {
        VarDeclDetails::new()
    }

    /// Opens a builder for a `let` statement.
    pub fn let_statement() -> (r: LetDetails)
        ensures
            r.identifier.name@ == Seq::<char>::empty(),
            r.identifier.index is None,
            r.expression == Expr::Constant(Constant::Int(0)),
    {
        LetDetails::new()
    }

    pub fn return_void() -> (r: Statement)
        ensures
            r == Statement::Return(None::<Expr>),
    {
        Statement::Return(None)
    }

    pub fn return_expr(expr: Expr) -> (r: Statement)
        ensures
            r == Statement::Return(Some(expr)),
    {
        Statement::Return(Some(expr))
    }

    /// Opens a builder for a `while` statement.
    pub fn while_loop() -> (r: WhileDetails)
        ensures
            r.condition == Expr::Constant(
                Constant::Keyword(KeywordConstant::True),
            ),
            r.body@ == Seq::<Statement>::empty(),
    {
        WhileDetails::new()
    }

    /// Opens a builder for an `if` statement.
    pub fn if_statement() -> (r: IfDetails)
        ensures
            r.condition == Expr::Constant(
                Constant::Keyword(KeywordConstant::True),
            ),
            r.if_body@ == Seq::<Statement>::empty(),
            r.else_body is None,
    {
        IfDetails::new()
    }
}


} // verus!
