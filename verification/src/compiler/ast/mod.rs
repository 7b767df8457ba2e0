//! The Jack syntax tree: classes, subroutines, statements, expressions
//! and variables.

mod class;
mod subroutine;
mod tree;

pub use class::{Class, ClassVariable, ClassVariableVisibility, CompiledClass, AST};
pub use subroutine::{ReturnType, Subroutine, SubroutineType};
pub use tree::{
    var_type_name, BinaryOp, Constant, Expr, IfDetails, KeywordConstant, LetDetails, Statement,
    SubroutineCall, UnaryOp, VarDeclDetails, Variable, VariableRef, VariableType, WhileDetails,
};
