//! Tests for the VM translator: the line parser and the per-opcode
//! expanders.

use hack_toolchain::vm::ast::{Address, Function, MemorySegment, Operation, Stmt};
use hack_toolchain::vm::parser::parser;
use hack_toolchain::vm::translate::translate_ast;
use hack_toolchain::vm::translate_pop::translate_pop;
use hack_toolchain::vm::translate_push::translate_push;

#[test]
fn test_parser() {
    assert_eq!(
        parser("push constant 4").unwrap(),
        vec![Stmt {
            operation: Operation::Push(Address {
                memory_segment: MemorySegment::Constant,
                address: 4,
            }),
            text: "push constant 4".to_string()
        }]
    );

    assert_eq!(
        parser("pop constant 4").unwrap(),
        vec![Stmt {
            operation: Operation::Pop(Address {
                memory_segment: MemorySegment::Constant,
                address: 4,
            }),
            text: "pop constant 4".to_string()
        }]
    );

    assert_eq!(
        parser("add").unwrap(),
        vec![Stmt { operation: Operation::Add, text: "add".to_string() }]
    );

    let test_script = "// Start with a comment\n\npush constant 7\npush constant 8\nadd";
    assert_eq!(
        parser(test_script).unwrap(),
        vec![
            Stmt {
                operation: Operation::Push(Address {
                    memory_segment: MemorySegment::Constant,
                    address: 7
                }),
                text: "push constant 7".to_string()
            },
            Stmt {
                operation: Operation::Push(Address {
                    memory_segment: MemorySegment::Constant,
                    address: 8
                }),
                text: "push constant 8".to_string()
            },
            Stmt { operation: Operation::Add, text: "add".to_string() }
        ]
    );

    assert_eq!(
        parser("neg").unwrap(),
        vec![Stmt { operation: Operation::Neg, text: "neg".to_string() }]
    );
    assert_eq!(
        parser("not").unwrap(),
        vec![Stmt { operation: Operation::Not, text: "not".to_string() }]
    );
}

#[test]
fn test_parser_labels() {
    assert_eq!(
        parser("label LOOP").unwrap(),
        vec![Stmt {
            operation: Operation::Label("LOOP".to_owned()),
            text: "label LOOP".to_owned()
        }]
    );

    assert_eq!(
        parser("\tlabel Math.test").unwrap()[0].operation,
        Operation::Label("Math.test".to_owned())
    );
}

#[test]
fn test_parser_with_spaces() {
    assert!(parser("\teq").is_ok());
    assert!(parser("\tpop local 0").is_ok());
    assert!(parser("\tpush constant 0").is_ok());
    assert!(parser("\tnot").is_ok());
}

#[test]
fn test_comment_parsing() {
    assert!(parser("\t// This is my comment").is_ok());
    assert_eq!(
        parser("push constant 2 // This is a comment").unwrap(),
        vec![Stmt {
            operation: Operation::Push(Address {
                memory_segment: MemorySegment::Constant,
                address: 2,
            }),
            text: "push constant 2 // This is a comment".to_owned()
        }]
    );
}

#[test]
fn test_if_goto_parsing() {
    assert_eq!(
        parser("if-goto LOOP").unwrap()[0].operation,
        Operation::ConditionalJump("LOOP".to_owned())
    );
}

#[test]
fn test_goto_parsing() {
    assert_eq!(
        parser("goto LOOP").unwrap()[0].operation,
        Operation::Jump("LOOP".to_owned())
    );
}

#[test]
fn test_function_parsing() {
    assert_eq!(
        parser("function myfunc 3").unwrap()[0].operation,
        Operation::Function(Function { name: "myfunc".to_owned(), num: 3 })
    );
}

#[test]
fn test_call_and_return_parsing() {
    assert_eq!(
        parser("call Sys.init 0").unwrap()[0].operation,
        Operation::Call(Function { name: "Sys.init".to_owned(), num: 0 })
    );
    assert_eq!(parser("return").unwrap()[0].operation, Operation::Return);
}

#[test]
fn test_parser_rejects_garbage() {
    assert!(parser("push constant").is_err());
    assert!(parser("push nowhere 3").is_err());
    assert!(parser("jump LOOP").is_err());
    assert_eq!(
        parser("jump LOOP").unwrap_err(),
        "Error occurred parsing line jump LOOP"
    );
}

#[test]
fn test_pop_local() {
    let code = translate_pop(
        &Address { memory_segment: MemorySegment::Local, address: 2 },
        "Vars",
    )
    .unwrap();

    assert_eq!(
        code,
        vec![
            "@2", "D=A", "@LCL", "D=D+M", "@SP", "M=M-1", "A=M+1", "M=D", "A=A-1", "D=M", "A=A+1",
            "A=M", "M=D"
        ]
    )
}

#[test]
fn test_pop_argument() {
    let code = translate_pop(
        &Address { memory_segment: MemorySegment::Arguments, address: 6 },
        "Vars",
    )
    .unwrap();

    assert_eq!(
        code,
        vec![
            "@6", "D=A", "@ARG", "D=D+M", "@SP", "M=M-1", "A=M+1", "M=D", "A=A-1", "D=M", "A=A+1",
            "A=M", "M=D"
        ]
    )
}

#[test]
fn test_pop_this() {
    let code = translate_pop(
        &Address { memory_segment: MemorySegment::This, address: 2 },
        "Vars",
    )
    .unwrap();

    assert_eq!(
        code,
        vec![
            "@2", "D=A", "@THIS", "D=D+M", "@SP", "M=M-1", "A=M+1", "M=D", "A=A-1", "D=M", "A=A+1",
            "A=M", "M=D"
        ]
    )
}

#[test]
fn test_pop_that() {
    let code = translate_pop(
        &Address { memory_segment: MemorySegment::That, address: 6 },
        "Vars",
    )
    .unwrap();

    assert_eq!(
        code,
        vec![
            "@6", "D=A", "@THAT", "D=D+M", "@SP", "M=M-1", "A=M+1", "M=D", "A=A-1", "D=M", "A=A+1",
            "A=M", "M=D"
        ]
    )
}

#[test]
fn test_pop_static() {
    let code = translate_pop(
        &Address { memory_segment: MemorySegment::Static, address: 6 },
        "Vars",
    )
    .unwrap();

    assert_eq!(code, vec!["@SP", "M=M-1", "A=M", "D=M", "@Vars.6", "M=D"])
}

#[test]
fn test_pop_temp() {
    let code = translate_pop(
        &Address { memory_segment: MemorySegment::Temp, address: 1 },
        "Vars",
    )
    .unwrap();

    assert_eq!(code, vec!["@SP", "M=M-1", "A=M", "D=M", "@R6", "M=D"])
}

#[test]
fn test_pop_pointer_0() {
    let code = translate_pop(
        &Address { memory_segment: MemorySegment::Pointer, address: 0 },
        "Vars",
    )
    .unwrap();

    assert_eq!(code, vec!["@SP", "M=M-1", "A=M", "D=M", "@THIS", "M=D"])
}

#[test]
fn test_pop_pointer_1() {
    let code = translate_pop(
        &Address { memory_segment: MemorySegment::Pointer, address: 1 },
        "Vars",
    )
    .unwrap();

    assert_eq!(code, vec!["@SP", "M=M-1", "A=M", "D=M", "@THAT", "M=D"])
}

#[test]
fn test_pop_pointer_out_of_bounds() {
    let code = translate_pop(
        &Address { memory_segment: MemorySegment::Pointer, address: 2 },
        "Vars",
    );
    assert!(code.is_err());
}

#[test]
fn test_pop_constant() {
    let code = translate_pop(
        &Address { memory_segment: MemorySegment::Constant, address: 6 },
        "Vars",
    );

    assert!(code.is_err());
}

#[test]
fn test_push_constant() {
    let code = translate_push(
        &Address { memory_segment: MemorySegment::Constant, address: 5 },
        "Vars",
    )
    .unwrap();
    assert_eq!(code, vec!["@5", "D=A", "@SP", "A=M", "M=D", "@SP", "M=M+1"]);
}

#[test]
fn test_push_local() {
    let code = translate_push(
        &Address { memory_segment: MemorySegment::Local, address: 3 },
        "Vars",
    )
    .unwrap();
    assert_eq!(
        code,
        vec!["@3", "D=A", "@LCL", "A=D+M", "D=M", "@SP", "A=M", "M=D", "@SP", "M=M+1"]
    );
}

#[test]
fn test_push_arg() {
    let code = translate_push(
        &Address { memory_segment: MemorySegment::Arguments, address: 5 },
        "Vars",
    )
    .unwrap();

    assert_eq!(
        code,
        vec!["@5", "D=A", "@ARG", "A=D+M", "D=M", "@SP", "A=M", "M=D", "@SP", "M=M+1"]
    );
}

#[test]
fn test_push_this() {
    let code = translate_push(
        &Address { memory_segment: MemorySegment::This, address: 2 },
        "Vars",
    )
    .unwrap();

    assert_eq!(
        code,
        vec!["@2", "D=A", "@THIS", "A=D+M", "D=M", "@SP", "A=M", "M=D", "@SP", "M=M+1"]
    );
}

#[test]
fn test_push_that() {
    let code = translate_push(
        &Address { memory_segment: MemorySegment::That, address: 4 },
        "Vars",
    )
    .unwrap();

    assert_eq!(
        code,
        vec!["@4", "D=A", "@THAT", "A=D+M", "D=M", "@SP", "A=M", "M=D", "@SP", "M=M+1"]
    );
}

#[test]
fn test_push_static() {
    let code = translate_push(
        &Address { memory_segment: MemorySegment::Static, address: 4 },
        "Vars",
    )
    .unwrap();

    assert_eq!(code, vec!["@Vars.4", "D=M", "@SP", "A=M", "M=D", "@SP", "M=M+1"]);
}

#[test]
fn test_push_temp() {
    let code = translate_push(
        &Address { memory_segment: MemorySegment::Temp, address: 1 },
        "Vars",
    )
    .unwrap();

    assert_eq!(code, vec!["@R6", "D=M", "@SP", "A=M", "M=D", "@SP", "M=M+1"]);
}

#[test]
fn test_push_temp_fails() {
    let code = translate_push(
        &Address { memory_segment: MemorySegment::Temp, address: 9 },
        "Vars",
    );
    assert!(code.is_err());
}

#[test]
fn test_push_pointer_0() {
    let code = translate_push(
        &Address { memory_segment: MemorySegment::Pointer, address: 0 },
        "Vars",
    )
    .unwrap();

    assert_eq!(code, vec!["@THIS", "D=M", "@SP", "A=M", "M=D", "@SP", "M=M+1"]);
}

#[test]
fn test_push_pointer_1() {
    let code = translate_push(
        &Address { memory_segment: MemorySegment::Pointer, address: 1 },
        "Vars",
    )
    .unwrap();

    assert_eq!(code, vec!["@THAT", "D=M", "@SP", "A=M", "M=D", "@SP", "M=M+1"]);
}

#[test]
fn translate_vm_arithmetic_program() {
    // push 7, push 8, add: the expansion leaves 15 at *(SP-1), with SP as
    // it stood after the first push.
    let statements = parser("push constant 7\npush constant 8\nadd").unwrap();
    let code = translate_ast(statements, "Prog").unwrap();
    let expected = "\
// push constant 7
@7
D=A
@SP
A=M
M=D
@SP
M=M+1
// push constant 8
@8
D=A
@SP
A=M
M=D
@SP
M=M+1
// add
@SP
AM=M-1
D=M
A=A-1
M=D+M";
    assert_eq!(code, expected);
}

#[test]
fn translate_namespaces_comparison_labels() {
    let statements = parser("eq\neq\ngt\nlt").unwrap();
    let code = translate_ast(statements, "File").unwrap();
    assert!(code.contains("@File.EQ_END_0"));
    assert!(code.contains("(File.EQ_END_0)"));
    assert!(code.contains("@File.EQ_END_1"));
    assert!(code.contains("@File.GT_END_0"));
    assert!(code.contains("@File.LT_END_0"));
}

#[test]
fn translate_function_call_return() {
    let statements = parser("function Main.f 2\ncall Main.f 0\nreturn").unwrap();
    let code = translate_ast(statements, "Main").unwrap();
    assert!(code.contains("(Main.f)"));
    assert!(code.contains("@Main.RETURN_ADDRESS_CALL_0"));
    assert!(code.contains("(Main.RETURN_ADDRESS_CALL_0)"));
    assert!(code.contains("(Main.RETURN_DMA_START_0)"));
    assert!(code.contains("// call Main.f 0"));
}

#[test]
fn translate_rejects_pop_constant_program() {
    let statements = parser("pop constant 3").unwrap();
    let err = translate_ast(statements, "Main").unwrap_err();
    assert_eq!(err, "Invalid pop statement: pop constant 3");
}
