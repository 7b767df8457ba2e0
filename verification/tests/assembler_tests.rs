//! Tests for the Hack assembler: line parsing, the label and variable
//! passes, the encoder, and whole-text assembly.

use hack_toolchain::assembler::assemble::assemble;
use hack_toolchain::assembler::ast::{Address, Command, Dest, Jump, Operation, Stmt};
use hack_toolchain::assembler::convert_labels::{find_labels, remove_all_labels};
use hack_toolchain::assembler::convert_variables::find_variables;
use hack_toolchain::assembler::interpreter::interpret_ast;
use hack_toolchain::assembler::parser::{
    parse_a_instruction, parse_c_statement, parse_comment, parse_empty_lines, parse_hack,
    parse_label, parse_name,
};
use hack_toolchain::assembler::symbol_table::create_symbol_table;

#[allow(dead_code)]
fn command(dest: Dest, operation: Operation) -> Command {
    Command { dest: Some(dest), operation, jump: None }
}

#[allow(dead_code)]
fn jump_command(operation: Operation, jump: Jump) -> Command {
    Command { dest: None, operation, jump: Some(jump) }
}

#[test]
fn test_find_labels() {
    let mut symbol_table = create_symbol_table();

    let statements = vec![
        Stmt::A(Address::Value(21)),
        Stmt::Label("FIRST_LABEL".to_string()),
        Stmt::A(Address::Value(43)),
        Stmt::Label("SECOND_LABEL".to_string()),
        Stmt::A(Address::Value(86)),
    ];

    find_labels(&statements, &mut symbol_table);
    assert_eq!(symbol_table.get("FIRST_LABEL").unwrap(), 1);
    assert_eq!(symbol_table.get("SECOND_LABEL").unwrap(), 2);
}

#[test]
fn test_remove_all_labels() {
    let mut statements = vec![
        Stmt::Label("FIRST_LABEL".to_string()),
        Stmt::A(Address::Value(21)),
        Stmt::Label("SECOND_LABEL".to_string()),
        Stmt::A(Address::Value(32)),
    ];

    statements = remove_all_labels(statements);

    assert_eq!(statements.len(), 2);
    assert_eq!(statements[0], Stmt::A(Address::Value(21)));
    assert_eq!(statements[1], Stmt::A(Address::Value(32)));
}

#[test]
fn test_convert_variables() {
    let mut symbol_table = create_symbol_table();

    let statements = vec![
        Stmt::A(Address::Symbol("i".to_string())),
        Stmt::A(Address::Symbol("i2".to_string())),
    ];

    find_variables(&statements, &mut symbol_table);

    assert_eq!(symbol_table.get("i").unwrap(), 16);
    assert_eq!(symbol_table.get("i2").unwrap(), 17);
}

#[test]
fn test_interpret_ast() {
    let symbol_table = create_symbol_table();

    assert_eq!(
        interpret_ast(&vec![Stmt::A(Address::Value(u16::MAX))], &symbol_table),
        vec![0b01111111_11111111]
    );

    assert_eq!(
        interpret_ast(
            &vec![Stmt::A(Address::Symbol("SCREEN".to_string()))],
            &symbol_table
        ),
        vec![0b01000000_00000000]
    );

    assert_eq!(
        interpret_ast(
            &vec![Stmt::C(Command {
                dest: Some(Dest::M),
                operation: Operation::Zero,
                jump: None
            })],
            &symbol_table
        ),
        vec![0b11101010_10001000]
    );
}

#[test]
fn test_parse_a_instruction() {
    assert_eq!(
        parse_a_instruction("@123").unwrap(),
        Stmt::A(Address::Value(123))
    );
    assert_eq!(
        parse_a_instruction("  @i").unwrap(),
        Stmt::A(Address::Symbol("i".to_string()))
    );
    assert_eq!(
        parse_a_instruction("@R0").unwrap(),
        Stmt::A(Address::Symbol("R0".to_string()))
    );
    assert_eq!(
        parse_a_instruction("@12 // Plus a comment").unwrap(),
        Stmt::A(Address::Value(12))
    );

    assert_eq!(
        parse_a_instruction("@SCREEN").unwrap(),
        Stmt::A(Address::Symbol("SCREEN".to_string()))
    );
    assert_eq!(
        parse_a_instruction("@KBD").unwrap(),
        Stmt::A(Address::Symbol("KBD".to_string()))
    );
}

#[test]
fn test_c_instruction() {
    assert_eq!(
        parse_c_statement("D=M").unwrap(),
        Stmt::C(command(Dest::D, Operation::M))
    );
    assert_eq!(
        parse_c_statement("AMD=!D").unwrap(),
        Stmt::C(command(Dest::AMD, Operation::NotD))
    );
    assert_eq!(
        parse_c_statement("D=D-A").unwrap(),
        Stmt::C(command(Dest::D, Operation::DMinusA))
    );
    assert_eq!(
        parse_c_statement("  D=D-A").unwrap(),
        Stmt::C(command(Dest::D, Operation::DMinusA))
    );
    assert_eq!(
        parse_c_statement("D=D-A // plus a comment").unwrap(),
        Stmt::C(command(Dest::D, Operation::DMinusA))
    );
    assert_eq!(
        parse_c_statement("D=A+D").unwrap(),
        Stmt::C(command(Dest::D, Operation::DPlusA))
    );

    // Jump instructions.
    assert_eq!(
        parse_c_statement("0;JMP").unwrap(),
        Stmt::C(jump_command(Operation::Zero, Jump::JMP))
    );
    assert_eq!(
        parse_c_statement("D;JMP").unwrap(),
        Stmt::C(jump_command(Operation::D, Jump::JMP))
    );
    assert_eq!(
        parse_c_statement("0; JMP").unwrap(),
        Stmt::C(jump_command(Operation::Zero, Jump::JMP))
    );
    assert_eq!(
        parse_c_statement("    0; JMP").unwrap(),
        Stmt::C(jump_command(Operation::Zero, Jump::JMP))
    );

    // Everything must be consumed.
    assert!(parse_c_statement("D=D+").is_none());
    assert!(parse_c_statement("A=A&D").is_none());
}

#[test]
fn test_parse_label() {
    assert_eq!(
        parse_label("(LABEL)").unwrap(),
        Stmt::Label("LABEL".to_string())
    );
    assert_eq!(
        parse_label("(A_LABEL)").unwrap(),
        Stmt::Label("A_LABEL".to_string())
    );
    assert_eq!(
        parse_label("(A_LABEL) // Plus a comment").unwrap(),
        Stmt::Label("A_LABEL".to_string())
    );
    assert_eq!(
        parse_label("(A_LABEL)// Plus a comment").unwrap(),
        Stmt::Label("A_LABEL".to_string())
    );
}

#[test]
fn test_parse_comment() {
    assert!(parse_comment("// something something"));
    assert!(parse_comment("// something something\n"));
    assert!(parse_comment("    // something something\n"));
}

#[test]
fn test_parse_multilines() {
    assert!(!parse_empty_lines("@21"));
    assert!(parse_empty_lines("\n"));
    assert!(parse_empty_lines(""));

    assert!(!parse_empty_lines("  @21"));
}

#[test]
fn test_parse_name() {
    assert_eq!(parse_name("THIS_NAME").unwrap(), "THIS_NAME");
    assert_eq!(parse_name("THIS_NAME.new").unwrap(), "THIS_NAME.new");
    assert_eq!(
        parse_name("THIS_NAME.new$if_lt_4").unwrap(),
        "THIS_NAME.new$if_lt_4"
    );
}

#[test]
fn assemble_basic_program() {
    let output = assemble("@21\nD=A\n@R0\nM=D").unwrap();
    assert_eq!(
        output,
        "0000000000010101\n1110110000010000\n0000000000000000\n1110001100001000"
    );
}

#[test]
fn assemble_resolves_labels() {
    let output = assemble("(LOOP)\n@LOOP\n0;JMP").unwrap();
    assert_eq!(output, "0000000000000000\n1110101010000111");
}

#[test]
fn assemble_allocates_variables() {
    // Two fresh symbols get 16 and 17, in first-encounter order.
    let output = assemble("@first\n@second\n@first").unwrap();
    assert_eq!(
        output,
        "0000000000010000\n0000000000010001\n0000000000010000"
    );
}

#[test]
fn assemble_skips_comments_and_blanks() {
    let output = assemble("// intro\n\n  @1 // inline\nD=A\n").unwrap();
    assert_eq!(output, "0000000000000001\n1110110000010000");
}

#[test]
fn assemble_rejects_bad_lines() {
    assert!(assemble("@1x").is_err());
    assert!(assemble("D=Q").is_err());
    assert!(assemble("(lower case$) extra").is_err());
    assert!(assemble("@70000").is_err());
}

#[test]
fn parse_hack_keeps_source_lines() {
    let parsed = parse_hack("@2\nD=A // note").unwrap();
    assert_eq!(parsed.len(), 2);
    assert_eq!(parsed[0].0, "@2");
    assert_eq!(parsed[0].1, Stmt::A(Address::Value(2)));
    assert_eq!(parsed[1].0, "D=A // note");
    assert_eq!(parsed[1].1, Stmt::C(command(Dest::D, Operation::A)));
}

#[test]
fn symbol_listing_counts_instructions_only() {
    let parsed = parse_hack("@2\n(LOOP)\nD=A\n// note\n@LOOP").unwrap();
    let listing = hack_toolchain::assembler::assemble::symbol_lines(&parsed);
    assert_eq!(
        listing,
        vec!["0 @2", "1 (LOOP)", "1 D=A", "2 // note", "2 @LOOP"]
    );
}
