//! Tests across the stages: compiling, translating and assembling one
//! program end to end.

use hack_toolchain::assembler::assemble::assemble;
use hack_toolchain::compiler::ast::{Class, Statement, Subroutine};
use hack_toolchain::compiler::codegen::compile_class;
use hack_toolchain::compiler::parser::{parse_jack, FileInput};
use hack_toolchain::vm::parser::parser;
use hack_toolchain::vm::translate::translate_ast;

#[test]
fn pipeline_void_function() {
    // A class whose only subroutine is `function void f() { return; }`:
    // its bytecode is exactly the two-statement tail after the
    // declaration, and every later stage accepts it.
    let class = Class::new("Main").add_subroutine(
        Subroutine::new("f").add_statement(Statement::return_void()),
    );
    let vm_lines = compile_class(&class).unwrap();
    assert_eq!(vm_lines, vec!["function Main.f 0", "push constant 0", "return"]);

    let vm_text = vm_lines.join("\n");
    let statements = parser(&vm_text).unwrap();
    let asm_text = translate_ast(statements, "Main").unwrap();

    // The assembly holds one instruction per non-comment, non-label line.
    let instructions = asm_text
        .lines()
        .filter(|l| !l.starts_with("//") && !l.starts_with('('))
        .count();

    let hack_text = assemble(&asm_text).unwrap();
    let hack_lines: Vec<&str> = hack_text.lines().collect();
    assert_eq!(hack_lines.len(), instructions);
    for line in hack_lines {
        assert_eq!(line.len(), 16);
        assert!(line.chars().all(|c| c == '0' || c == '1'));
    }
}

#[test]
fn pipeline_counts_match_vm_statements() {
    // Each VM statement's expansion sits under its own `//` comment.
    let source = "push constant 7\npush constant 8\nadd\npop temp 0";
    let statements = parser(source).unwrap();
    let asm_text = translate_ast(statements, "Calc").unwrap();
    let comments: Vec<&str> = asm_text.lines().filter(|l| l.starts_with("// ")).collect();
    assert_eq!(
        comments,
        vec![
            "// push constant 7",
            "// push constant 8",
            "// add",
            "// pop temp 0"
        ]
    );

    let hack_text = assemble(&asm_text).unwrap();
    let instructions = asm_text
        .lines()
        .filter(|l| !l.starts_with("//") && !l.starts_with('('))
        .count();
    assert_eq!(hack_text.lines().count(), instructions);
}

#[test]
fn pipeline_from_source() {
    // Compiling, translating and assembling a class whose only
    // subroutine is one void function with a bare return: the bytecode is
    // the declaration plus the push-constant-0 / return tail.
    let source = "class Main { function void f() { return; } }";
    let ast = parse_jack(vec![FileInput::new("Main.jack", source)]).unwrap();
    let vm_lines = compile_class(&ast.classes[0].class).unwrap();
    assert_eq!(vm_lines, vec!["function Main.f 0", "push constant 0", "return"]);

    let statements = parser(&vm_lines.join("\n")).unwrap();
    let asm_text = translate_ast(statements, "Main").unwrap();
    let hack_text = assemble(&asm_text).unwrap();
    let instructions = asm_text
        .lines()
        .filter(|l| !l.starts_with("//") && !l.starts_with('('))
        .count();
    assert_eq!(hack_text.lines().count(), instructions);
}
