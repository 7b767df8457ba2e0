//! Tests for the Jack parser.

use hack_toolchain::compiler::ast::{
    BinaryOp, Constant, Expr, SubroutineCall, UnaryOp, VariableRef,
};
use hack_toolchain::compiler::codegen::compile_class;
use hack_toolchain::compiler::parser::{parse_expression, parse_jack, FileInput};

fn chars(text: &str) -> Vec<char> {
    text.chars().collect()
}

fn expr(text: &str) -> Expr {
    parse_expression(&chars(text), 0).unwrap().1
}

#[test]
fn test_expression() {
    assert_eq!(expr("3"), Expr::Constant(Constant::Int(3)));
    assert_eq!(expr("i"), Expr::VarRef(VariableRef::new("i")));
    assert_eq!(
        expr("i < 3"),
        Expr::BinaryExpr {
            lhs: Box::new(Expr::VarRef(VariableRef::new("i"))),
            op: BinaryOp::Lt,
            rhs: Box::new(Expr::Constant(Constant::Int(3)))
        }
    );
    assert_eq!(
        expr("a[ i + 1 ]"),
        Expr::VarRef(VariableRef::new_with_index(
            "a",
            Expr::BinaryExpr {
                lhs: Box::new(Expr::VarRef(VariableRef::new("i"))),
                op: BinaryOp::Plus,
                rhs: Box::new(Expr::Constant(Constant::Int(1)))
            }
        ))
    );
    assert_eq!(
        expr("read()"),
        Expr::Call(SubroutineCall::new().name("read"))
    );

    assert_eq!(
        expr("-i"),
        Expr::UnaryExpr(
            UnaryOp::Minus,
            Box::new(Expr::VarRef(VariableRef::new("i")))
        )
    );

    assert_eq!(
        expr("~(b | c)"),
        Expr::UnaryExpr(
            UnaryOp::Not,
            Box::new(Expr::BracketedExpr(Box::new(Expr::BinaryExpr {
                lhs: Box::new(Expr::VarRef(VariableRef::new("b"))),
                op: BinaryOp::Or,
                rhs: Box::new(Expr::VarRef(VariableRef::new("c")))
            })))
        )
    );

    assert_eq!(
        expr("(((y + size) < 254) & ((x + size) < 510))"),
        Expr::BracketedExpr(Box::new(Expr::BinaryExpr {
            lhs: Box::new(Expr::BracketedExpr(Box::new(Expr::BinaryExpr {
                lhs: Box::new(Expr::BracketedExpr(Box::new(Expr::binary_op(
                    Expr::VarRef(VariableRef::new("y")),
                    BinaryOp::Plus,
                    Expr::VarRef(VariableRef::new("size"))
                )))),
                op: BinaryOp::Lt,
                rhs: Box::new(Expr::Constant(Constant::Int(254)))
            }))),
            op: BinaryOp::And,
            rhs: Box::new(Expr::BracketedExpr(Box::new(Expr::BinaryExpr {
                lhs: Box::new(Expr::BracketedExpr(Box::new(Expr::BinaryExpr {
                    lhs: Box::new(Expr::VarRef(VariableRef::new("x"))),
                    op: BinaryOp::Plus,
                    rhs: Box::new(Expr::VarRef(VariableRef::new("size")))
                }))),
                op: BinaryOp::Lt,
                rhs: Box::new(Expr::Constant(Constant::Int(510)))
            })))
        }))
    );

    assert_eq!(expr("true"), Expr::true_c());
}

#[test]
fn parse_class_and_compile() {
    let source = "\
// A small class.
class Point {
    field int x, y;

    constructor Point new(int ax, int ay) {
        let x = ax;
        let y = ay;
        return this;
    }

    method int getx() {
        return x;
    }
}";
    let ast = parse_jack(vec![FileInput::new("Point.jack", source)]).unwrap();
    assert_eq!(ast.classes.len(), 1);
    assert_eq!(ast.classes[0].source_filename, "Point.jack");

    let vm = compile_class(&ast.classes[0].class).unwrap();
    let expected: Vec<String> = "\
function Point.new 0
push constant 2
call Memory.alloc 1
pop pointer 0
push argument 0
pop this 0
push argument 1
pop this 1
push pointer 0
return
function Point.getx 0
push argument 0
pop pointer 0
push this 0
return"
        .lines()
        .map(|s| s.to_owned())
        .collect();
    assert_eq!(vm, expected);
}

#[test]
fn parse_statements_and_comments() {
    let source = "\
class Main {
    function void main() {
        var int i;          // a counter
        let i = 0;
        while (i < 3) {
            let i = i + 1;
        }
        if (true) { do Output.printInt(i); } else { do Output.printInt(0); }
        return;
    }
}";
    let ast = parse_jack(vec![FileInput::new("Main.jack", source)]).unwrap();
    let vm = compile_class(&ast.classes[0].class).unwrap();
    assert!(vm.contains(&"label main.while.0.condition".to_string()));
    assert!(vm.contains(&"if-goto main.if.0.if_body".to_string()));
}

#[test]
fn parse_rejects_malformed_class() {
    assert!(parse_jack(vec![FileInput::new("Bad.jack", "class {")]).is_err());
    assert!(parse_jack(vec![FileInput::new("Bad2.jack", "class A { function }")]).is_err());
    let err = match parse_jack(vec![FileInput::new("Oops.jack", "klass A {}")]) {
        Err(e) => e,
        Ok(_) => panic!("a malformed class must not parse"),
    };
    assert_eq!(err, "Failed to compile with error in file Oops.jack");
}

#[test]
fn parse_string_and_array_statement() {
    let source = "\
class Main {
    function void main() {
        var Array a;
        let a[2] = 3;
        do Output.printString(\"ok\");
        return;
    }
}";
    let ast = parse_jack(vec![FileInput::new("Main.jack", source)]).unwrap();
    let vm = compile_class(&ast.classes[0].class).unwrap();
    let joined = vm.join("\n");
    assert!(joined.contains("push local 0\npush constant 2\nadd\npush constant 3\npop temp 0\npop pointer 1\npush temp 0\npop that 0"));
    assert!(joined.contains("push constant 2\ncall String.new 1\npush constant 111\ncall String.appendChar 2\npush constant 107"));
}

#[test]
fn statement_shapes_from_source() {
    // `let x = x;` on a resolved plain variable is exactly a push and a
    // pop of the same cell.
    let source = "\
class Main {
    function void main() {
        var int x;
        let x = x;
        return;
    }
}";
    let ast = parse_jack(vec![FileInput::new("Main.jack", source)]).unwrap();
    let vm = compile_class(&ast.classes[0].class).unwrap();
    let expected: Vec<String> = vec![
        "function Main.main 1",
        "push local 0",
        "pop local 0",
        "push constant 0",
        "return",
    ]
    .into_iter()
    .map(|s| s.to_owned())
    .collect();
    assert_eq!(vm, expected);
}
