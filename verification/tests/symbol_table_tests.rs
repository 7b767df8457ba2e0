//! Tests for the compiler's scoped symbol table.

use hack_toolchain::compiler::symbol_table::{Scope, SymbolTable};

#[test]
fn create_a_symbol_table() {
    let mut table = SymbolTable::new();
    table.add_field("y", "int");

    let var = table.find_variable("y").unwrap();
    assert_eq!(var.name(), "y");
    assert_eq!(var.scope(), Scope::Field);
    assert_eq!(var.var_type(), "int");
}

#[test]
fn fields_have_a_number() {
    let mut table = SymbolTable::new();
    table.add_field("x", "int");
    table.add_field("y", "int");

    let x = table.find_variable("x").unwrap();
    let y = table.find_variable("y").unwrap();

    assert_eq!(x.index(), 0);
    assert_eq!(y.index(), 1);
}

#[test]
fn static_fields_number_separately() {
    let mut table = SymbolTable::new();
    table.add_field("x", "int");
    table.add_field("y", "int");

    table.add_static("sharedField", "boolean");

    assert_eq!(table.find_variable("sharedField").unwrap().index(), 0);
}

#[test]
fn scopes_can_be_pushed_and_popped() {
    let mut table = SymbolTable::new();
    table.add_local("var", "int");

    table.create_scope();
    table.add_local("var", "int");

    let inner_scope_var = table.find_variable("var").unwrap();
    assert_eq!(inner_scope_var.index(), 0);

    table.pop_scope();
    let outer_scope_var = table.find_variable("var").unwrap();
    assert_eq!(outer_scope_var.index(), 0);
}

#[test]
fn creating_a_scope_before_vars() {
    let mut table = SymbolTable::new();
    table.create_scope();
    table.add_argument("first", "int");
    table.add_argument("second", "int");

    let second = table.find_variable("second").unwrap();
    assert_eq!(second.index(), 1);
}

#[test]
fn count_field_vars() {
    let mut table = SymbolTable::new();
    table.add_field("field1", "int");
    table.add_field("field2", "int");
    table.create_scope();
    table.add_argument("arg1", "int");

    assert_eq!(table.count_fields(), 2);
}

#[test]
fn shadowing_resolves_innermost() {
    let mut table = SymbolTable::new();
    table.add_field("x", "int");
    table.create_scope();
    table.add_argument("x", "boolean");

    let x = table.find_variable("x").unwrap();
    assert_eq!(x.scope(), Scope::Argument);
    assert_eq!(x.var_type(), "boolean");

    table.pop_scope();
    let outer = table.find_variable("x").unwrap();
    assert_eq!(outer.scope(), Scope::Field);
}

#[test]
fn segments_of_scopes() {
    assert_eq!(Scope::Field.as_segment(), "this");
    assert_eq!(Scope::Static.as_segment(), "static");
    assert_eq!(Scope::Argument.as_segment(), "argument");
    assert_eq!(Scope::Local.as_segment(), "local");
}
