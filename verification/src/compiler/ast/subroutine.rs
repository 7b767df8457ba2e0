//! Subroutines: functions, constructors and methods.

use vstd::prelude::*;

use crate::compiler::ast::{Statement, Variable};

verus! {

#[derive(Debug, Clone, Copy, PartialEq, Eq, Structural)]
pub enum SubroutineType {
    Function,
    Constructor,
    Method,
}

#[derive(Debug, Clone)]
pub enum ReturnType {
    Int,
    Char,
    Boolean,
    Void,
    ClassName(String),
}

/// One subroutine: its kind, name, parameters, return type and body.
#[derive(Debug)]
pub struct Subroutine {
    pub subroutine_type: SubroutineType,
    pub identifier: String,
    pub parameters: Vec<Variable>,
    pub return_type: ReturnType,
    pub statements: Vec<Statement>,
}

impl Subroutine {
    /// A new subroutine of the given name: a void function with no
    /// parameters and no statements until the builders say otherwise.
    pub fn new(identifier: &str) -> (r: Self)
        ensures
            r.subroutine_type == SubroutineType::Function,
            r.identifier@ == identifier@,
            r.parameters@ == Seq::<Variable>::empty(),
            r.return_type is Void,
            r.statements@ == Seq::<Statement>::empty(),
    {
        Subroutine {
            subroutine_type: SubroutineType::Function,
            identifier: String::from_str(identifier),
            parameters: Vec::new(),
            return_type: ReturnType::Void,
            statements: Vec::new(),
        }
    }

    pub fn add_statement(self, statement: Statement) -> (r: Self)
        ensures
            r.statements@ == self.statements@.push(statement),
            r.subroutine_type == self.subroutine_type,
            r.identifier == self.identifier,
            r.parameters == self.parameters,
            r.return_type == self.return_type,
    {
        let mut s = self;
        s.statements.push(statement);
        s
    }

    pub fn add_statements(self, statements: Vec<Statement>) -> (r: Self)
        ensures
            r.statements@ == self.statements@ + statements@,
            r.subroutine_type == self.subroutine_type,
            r.identifier == self.identifier,
            r.parameters == self.parameters,
            r.return_type == self.return_type,
    {
        let mut s = self;
        let mut added = statements;
        s.statements.append(&mut added);
        s
    }

    pub fn return_type(self, return_type: ReturnType) -> (r: Self)
        ensures
            r.return_type == return_type,
            r.subroutine_type == self.subroutine_type,
            r.identifier == self.identifier,
            r.parameters == self.parameters,
            r.statements == self.statements,
    {
        Subroutine { return_type, ..self }
    }

    pub fn add_parameter(self, parameter: Variable) -> (r: Self)
        ensures
            r.parameters@ == self.parameters@.push(parameter),
            r.subroutine_type == self.subroutine_type,
            r.identifier == self.identifier,
            r.return_type == self.return_type,
            r.statements == self.statements,
    {
        let mut s = self;
        s.parameters.push(parameter);
        s
    }

    pub fn add_parameters(self, parameters: Vec<Variable>) -> (r: Self)
        ensures
            r.parameters@ == self.parameters@ + parameters@,
            r.subroutine_type == self.subroutine_type,
            r.identifier == self.identifier,
            r.return_type == self.return_type,
            r.statements == self.statements,
    {
        let mut s = self;
        let mut added = parameters;
        s.parameters.append(&mut added);
        s
    }

    pub fn subroutine_type(self, subroutine_type: SubroutineType) -> (r: Self)
        ensures
            r.subroutine_type == subroutine_type,
            r.identifier == self.identifier,
            r.parameters == self.parameters,
            r.return_type == self.return_type,
            r.statements == self.statements,
    {
        Subroutine { subroutine_type, ..self }
    }

    pub fn get_subroutine_type(&self) -> (r: SubroutineType)
        ensures
            r == self.subroutine_type,
    {
        self.subroutine_type
    }

    pub fn get_name(&self) -> (r: &String)
        ensures
            *r == self.identifier,
    {
        &self.identifier
    }

    pub fn get_statements(&self) -> (r: &Vec<Statement>)
        ensures
            *r == self.statements,
    {
        &self.statements
    }

    pub fn get_parameters(&self) -> (r: &Vec<Variable>)
        ensures
            *r == self.parameters,
    {
        &self.parameters
    }
}

} // verus!
