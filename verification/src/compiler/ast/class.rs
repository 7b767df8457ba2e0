//! Classes and class-level variables, and the parsed program.

use vstd::prelude::*;

use crate::compiler::ast::{Subroutine, VariableType};

verus! {

#[derive(Debug, Clone, Copy, PartialEq, Eq, Structural)]
pub enum ClassVariableVisibility {
    Field,
    Static,
}

/// One class-level variable: its visibility, type and name.
#[derive(Debug)]
pub struct ClassVariable {
    pub visibility: ClassVariableVisibility,
    pub var_type: VariableType,
    pub identifier: String,
}

impl ClassVariable {
    /// A new field of type `int` with the given name, until the builders
    /// say otherwise.
    pub fn new(identifier: &str) -> (r: Self)
        ensures
            r.identifier@ == identifier@,
            r.var_type is Int,
            r.visibility == ClassVariableVisibility::Field,
    {
        ClassVariable {
            identifier: String::from_str(identifier),
            var_type: VariableType::Int,
            visibility: ClassVariableVisibility::Field,
        }
    }

    pub fn var_type(self, var_type: VariableType) -> (r: Self)
        ensures
            r.var_type == var_type,
            r.identifier == self.identifier,
            r.visibility == self.visibility,
    {
        ClassVariable { var_type, ..self }
    }

    pub fn visibility(self, visibility: ClassVariableVisibility) -> (r: Self)
        ensures
            r.visibility == visibility,
            r.identifier == self.identifier,
            r.var_type == self.var_type,
    {
        ClassVariable { visibility, ..self }
    }

    pub fn get_identifier(&self) -> (r: &str)
        ensures
            r@ == self.identifier@,
    {
        self.identifier.as_str()
    }

    pub fn get_visibility(&self) -> (r: ClassVariableVisibility)
        ensures
            r == self.visibility,
    {
        self.visibility
    }

    pub fn get_var_type(&self) -> (r: VariableType)
        ensures
            r == self.var_type,
    {
        self.var_type.clone_type()
    }
}

impl VariableType {
    /// A copy of the type.
    pub fn clone_type(&self) -> (r: VariableType)
        ensures
            r == *self,
    {
        match self {
            VariableType::Array => VariableType::Array,
            VariableType::Int => VariableType::Int,
            VariableType::Char => VariableType::Char,
            VariableType::Boolean => VariableType::Boolean,
            VariableType::ClassName(name) => VariableType::ClassName(name.clone()),
        }
    }
}

/// One class: its name, variables and subroutines.
#[derive(Debug)]
pub struct Class {
    pub identifier: String,
    pub subroutines: Vec<Subroutine>,
    pub variables: Vec<ClassVariable>,
}

impl Class {
    pub fn new(identifier: &str) -> (r: Self)
        ensures
            r.identifier@ == identifier@,
            r.subroutines@ == Seq::<Subroutine>::empty(),
            r.variables@ == Seq::<ClassVariable>::empty(),
    {
        Class {
            identifier: String::from_str(identifier),
            subroutines: Vec::new(),
            variables: Vec::new(),
        }
    }

    pub fn add_subroutine(self, subroutine: Subroutine) -> (r: Self)
        ensures
            r.subroutines@ == self.subroutines@.push(subroutine),
            r.identifier == self.identifier,
            r.variables == self.variables,
    {
        let mut s = self;
        s.subroutines.push(subroutine);
        s
    }

    pub fn add_subroutines(self, subroutines: Vec<Subroutine>) -> (r: Self)
        ensures
            r.subroutines@ == self.subroutines@ + subroutines@,
            r.identifier == self.identifier,
            r.variables == self.variables,
    {
        let mut s = self;
        let mut added = subroutines;
        s.subroutines.append(&mut added);
        s
    }

    pub fn add_variables(self, variables: Vec<ClassVariable>) -> (r: Self)
        ensures
            r.variables@ == self.variables@ + variables@,
            r.identifier == self.identifier,
            r.subroutines == self.subroutines,
    {
        let mut s = self;
        let mut added = variables;
        s.variables.append(&mut added);
        s
    }

    pub fn add_variable(self, variable: ClassVariable) -> (r: Self)
        ensures
            r.variables@ == self.variables@.push(variable),
            r.identifier == self.identifier,
            r.subroutines == self.subroutines,
    {
        let mut s = self;
        s.variables.push(variable);
        s
    }

    pub fn subroutines(&self) -> (r: &Vec<Subroutine>)
        ensures
            *r == self.subroutines,
    {
        &self.subroutines
    }

    pub fn variables(&self) -> (r: &Vec<ClassVariable>)
        ensures
            *r == self.variables,
    {
        &self.variables
    }

    pub fn get_name(&self) -> (r: &str)
        ensures
            r@ == self.identifier@,
    {
        self.identifier.as_str()
    }
}

/// One parsed class with the name of the file it came from.
pub struct CompiledClass {
    pub class: Class,
    pub source_filename: String,
}

/// A parsed program: its classes.
pub struct AST {
    pub classes: Vec<CompiledClass>,
}

} // verus!
