//! Tests for the Jack code generator.

use hack_toolchain::compiler::ast::{
    BinaryOp, Class, ClassVariable, ClassVariableVisibility, Expr, ReturnType, Statement,
    Subroutine, SubroutineType, UnaryOp, Variable, VariableRef, VariableType,
};
use hack_toolchain::compiler::codegen::compile_class;

#[allow(dead_code)]
fn contains_commands(result: &Vec<String>, expected: &Vec<String>) -> bool {
    result
        .windows(expected.len())
        .position(|window| window == expected.as_slice())
        .is_some()
}

fn lines(text: &str) -> Vec<String> {
    text.trim().split('\n').map(|s| s.trim().to_owned()).collect()
}

#[test]
fn test_compile_function() {
    let class = Class::new("Main").add_subroutine(
        Subroutine::new("main")
            .add_statement(
                Statement::do_statement()
                    .set_target("Output")
                    .name("printInt")
                    .add_parameter(Expr::int_c(3))
                    .as_statement(),
            )
            .add_statement(Statement::return_void()),
    );

    let result = compile_class(&class).unwrap();

    let expected = lines(
        "function Main.main 0
        push constant 3
        call Output.printInt 1
        pop temp 0
        push constant 0
        return",
    );

    assert_eq!(result, expected);
}

#[test]
fn test_compile_simple_expression() {
    // 1 + 2
    let expression = Expr::binary_op(Expr::int_c(1), BinaryOp::Plus, Expr::int_c(2));

    let class = Class::new("Main").add_subroutine(
        Subroutine::new("main")
            .add_statement(
                Statement::do_statement()
                    .set_target("Output")
                    .name("printInt")
                    .add_parameter(expression)
                    .as_statement(),
            )
            .add_statement(Statement::return_void()),
    );

    let result = compile_class(&class).unwrap();

    let expected = lines(
        "push constant 1
        push constant 2
        add",
    );

    assert!(contains_commands(&result, &expected));
}

#[test]
fn test_compile_complex_expression() {
    // 1 + (2 * 3)
    let expression = Expr::binary_op(
        Expr::int_c(1),
        BinaryOp::Plus,
        Expr::brackets(Expr::binary_op(Expr::int_c(2), BinaryOp::Mult, Expr::int_c(3))),
    );

    let class = Class::new("Main").add_subroutine(
        Subroutine::new("main")
            .add_statement(
                Statement::do_statement()
                    .set_target("Output")
                    .name("printInt")
                    .add_parameter(expression)
                    .as_statement(),
            )
            .add_statement(Statement::return_void()),
    );

    let result = compile_class(&class).unwrap();

    let expected = lines(
        "push constant 1
        push constant 2
        push constant 3
        call Math.multiply 2
        add",
    );

    assert!(contains_commands(&result, &expected));
}

#[test]
fn compile_var_statement() {
    let class = Class::new("Main").add_subroutine(
        Subroutine::new("main")
            .add_statement(
                Statement::var()
                    .add_var(Variable::new("value", VariableType::Int))
                    .as_statement(),
            )
            .add_statement(Statement::return_void()),
    );

    let result = compile_class(&class).unwrap();
    let expected = lines(
        "function Main.main 1
        push constant 0
        return",
    );

    assert_eq!(result, expected);
}

#[test]
fn compile_let() {
    let class = Class::new("Main").add_subroutine(
        Subroutine::new("main")
            .add_statement(
                Statement::var()
                    .add_var(Variable::new("value", VariableType::Int))
                    .as_statement(),
            )
            .add_statement(
                Statement::let_statement()
                    .id(VariableRef::new("value"))
                    .value(Expr::int_c(3))
                    .as_statement(),
            )
            .add_statement(Statement::return_void()),
    );

    let result = compile_class(&class).unwrap();
    let expected = lines(
        "function Main.main 1
        push constant 3
        pop local 0
        push constant 0
        return",
    );

    assert_eq!(result, expected);
}

#[test]
fn compile_var_used_in_do_statement() {
    let class = Class::new("Main").add_subroutine(
        Subroutine::new("main")
            .add_statement(
                Statement::var()
                    .add_var(Variable::new("value", VariableType::Int))
                    .as_statement(),
            )
            .add_statement(
                Statement::let_statement()
                    .id(VariableRef::new("value"))
                    .value(Expr::int_c(3))
                    .as_statement(),
            )
            .add_statement(
                Statement::do_statement()
                    .set_target("Output")
                    .name("printInt")
                    .add_parameter(Expr::var(VariableRef::new("value")))
                    .as_statement(),
            )
            .add_statement(Statement::return_void()),
    );

    let result = compile_class(&class).unwrap();

    let expected = lines(
        "push constant 3
        pop local 0
        push local 0
        call Output.printInt 1",
    );

    assert!(contains_commands(&result, &expected));
}

#[test]
fn compile_unary_operation_test() {
    let class = Class::new("Main").add_subroutine(
        Subroutine::new("main")
            .add_statement(
                Statement::do_statement()
                    .set_target("Output")
                    .name("printInt")
                    .add_parameter(Expr::unary_op(UnaryOp::Minus, Expr::int_c(3)))
                    .as_statement(),
            )
            .add_statement(Statement::return_void()),
    );

    let result = compile_class(&class).unwrap();

    let expected = lines(
        "push constant 3
        neg
        call Output.printInt 1",
    );

    assert!(contains_commands(&result, &expected));
}

fn var_and_set() -> Vec<Statement> {
    vec![
        Statement::var()
            .add_var(Variable::new("value", VariableType::Int))
            .as_statement(),
        Statement::let_statement()
            .id(VariableRef::new("value"))
            .value(Expr::int_c(3))
            .as_statement(),
    ]
}

#[test]
fn compile_multiple_functions() {
    let class = Class::new("Main")
        .add_subroutine(
            Subroutine::new("main")
                .add_statements(var_and_set())
                .add_statement(
                    Statement::do_statement()
                        .set_target("Main")
                        .name("second")
                        .add_parameter(Expr::var(VariableRef::new("value")))
                        .as_statement(),
                )
                .add_statement(Statement::return_void()),
        )
        .add_subroutine(
            Subroutine::new("second")
                .add_statements(var_and_set())
                .add_statement(Statement::return_expr(Expr::var(VariableRef::new("value")))),
        );

    let result = compile_class(&class).unwrap();

    let expected = lines(
        "function Main.main 1
        push constant 3
        pop local 0
        push local 0
        call Main.second 1
        pop temp 0
        push constant 0
        return
        function Main.second 1
        push constant 3
        pop local 0
        push local 0
        return",
    );

    assert_eq!(result, expected);
}

#[test]
fn compile_function_with_args() {
    let class = Class::new("Main").add_subroutine(
        Subroutine::new("main")
            .return_type(ReturnType::Int)
            .add_parameter(Variable::new("first", VariableType::Int))
            .add_parameter(Variable::new("second", VariableType::Int))
            .add_statement(Statement::return_expr(Expr::var(VariableRef::new("second")))),
    );

    let result = compile_class(&class).unwrap();

    let expected = lines(
        "function Main.main 0
        push argument 1
        return",
    );

    assert_eq!(result, expected);
}

#[test]
fn compile_while_loop() {
    let class = Class::new("Main").add_subroutine(
        Subroutine::new("main")
            .add_statement(
                Statement::while_loop()
                    .condition(Expr::true_c())
                    .add_statement(
                        Statement::do_statement()
                            .set_target("Output")
                            .name("printInt")
                            .add_parameter(Expr::int_c(2))
                            .as_statement(),
                    )
                    .as_statement(),
            )
            .add_statement(Statement::return_void()),
    );

    let result = compile_class(&class).unwrap();

    let expected = lines(
        "function Main.main 0
            label main.while.0.condition
                push constant 1
                neg
            if-goto main.while.0.while_body
                goto main.while.0.while_end
            label main.while.0.while_body
                push constant 2
                call Output.printInt 1
                pop temp 0
                goto main.while.0.condition
            label main.while.0.while_end
        push constant 0
        return",
    );

    assert_eq!(result, expected);
}

#[test]
fn compile_if_statement() {
    let class = Class::new("Main").add_subroutine(
        Subroutine::new("main")
            .add_statement(
                Statement::if_statement()
                    .condition(Expr::true_c())
                    .add_if_statement(
                        Statement::do_statement()
                            .set_target("Output")
                            .name("printInt")
                            .add_parameter(Expr::int_c(2))
                            .as_statement(),
                    )
                    .add_else_statement(
                        Statement::do_statement()
                            .set_target("Output")
                            .name("printInt")
                            .add_parameter(Expr::int_c(3))
                            .as_statement(),
                    )
                    .as_statement(),
            )
            .add_statement(Statement::return_void()),
    );

    let result = compile_class(&class).unwrap();

    let expected = lines(
        "function Main.main 0
            push constant 1
            neg
            if-goto main.if.0.if_body
                push constant 3
                call Output.printInt 1
                pop temp 0
                goto main.if.0.if_end
            label main.if.0.if_body
                push constant 2
                call Output.printInt 1
                pop temp 0
            label main.if.0.if_end
        push constant 0
        return",
    );

    assert_eq!(result, expected);
}

#[test]
fn compile_let_with_call() {
    // let mask = Main.nextMask(mask);
    let class = Class::new("Main").add_subroutine(
        Subroutine::new("main")
            .return_type(ReturnType::Void)
            .add_statement(
                Statement::var()
                    .add_var(Variable::new("mask", VariableType::Int))
                    .as_statement(),
            )
            .add_statement(
                Statement::let_statement()
                    .id(VariableRef::new("mask"))
                    .value(
                        Expr::call()
                            .set_target("Main")
                            .name("nextMask")
                            .add_parameter(Expr::var(VariableRef::new("mask")))
                            .as_expr(),
                    )
                    .as_statement(),
            )
            .add_statement(Statement::return_void()),
    );

    let result = compile_class(&class).unwrap();

    let expected = lines(
        "function Main.main 1
        push local 0
        call Main.nextMask 1
        pop local 0
        push constant 0
        return",
    );

    assert_eq!(result, expected);
}

#[test]
fn compile_class_with_constructor() {
    let class = Class::new("Point")
        .add_variable(ClassVariable::new("x"))
        .add_variable(ClassVariable::new("y"))
        .add_subroutine(
            Subroutine::new("new")
                .subroutine_type(SubroutineType::Constructor)
                .return_type(ReturnType::ClassName("Point".to_string()))
                .add_parameter(Variable::new("ax", VariableType::Int))
                .add_parameter(Variable::new("ay", VariableType::Int))
                .add_statement(
                    Statement::let_statement()
                        .id(VariableRef::new("x"))
                        .value(Expr::var(VariableRef::new("ax")))
                        .as_statement(),
                )
                .add_statement(
                    Statement::let_statement()
                        .id(VariableRef::new("y"))
                        .value(Expr::var(VariableRef::new("ay")))
                        .as_statement(),
                )
                .add_statement(Statement::return_expr(Expr::this())),
        );

    let result = compile_class(&class).unwrap();

    let expected = lines(
        "function Point.new 0
        push constant 2
        call Memory.alloc 1
        pop pointer 0
        push argument 0
        pop this 0
        push argument 1
        pop this 1
        push pointer 0
        return",
    );

    assert_eq!(result, expected);
}

#[test]
fn test_method() {
    let class = Class::new("Adder")
        .add_variable(ClassVariable::new("a"))
        .add_variable(ClassVariable::new("b"))
        .add_subroutine(
            Subroutine::new("new")
                .subroutine_type(SubroutineType::Constructor)
                .return_type(ReturnType::ClassName("Adder".to_string()))
                .add_parameter(Variable::new("aa", VariableType::Int))
                .add_parameter(Variable::new("ab", VariableType::Int))
                .add_statement(
                    Statement::let_statement()
                        .id(VariableRef::new("a"))
                        .value(Expr::var(VariableRef::new("aa")))
                        .as_statement(),
                )
                .add_statement(
                    Statement::let_statement()
                        .id(VariableRef::new("b"))
                        .value(Expr::var(VariableRef::new("ab")))
                        .as_statement(),
                )
                .add_statement(Statement::return_expr(Expr::this())),
        )
        .add_subroutine(
            Subroutine::new("add")
                .subroutine_type(SubroutineType::Method)
                .return_type(ReturnType::Int)
                .add_statement(Statement::return_expr(Expr::binary_op(
                    Expr::var(VariableRef::new("a")),
                    BinaryOp::Plus,
                    Expr::var(VariableRef::new("b")),
                ))),
        );

    let result = compile_class(&class).unwrap();

    let expected = lines(
        "function Adder.add 0
        push argument 0
        pop pointer 0
        push this 0
        push this 1
        add
        return",
    );

    assert!(contains_commands(&result, &expected));
}

#[test]
fn call_method_on_object() {
    let class = Class::new("Main").add_subroutine(
        Subroutine::new("main")
            .return_type(ReturnType::Void)
            .add_statement(
                Statement::var()
                    .add_var(Variable::new(
                        "square",
                        VariableType::ClassName("Square".to_owned()),
                    ))
                    .as_statement(),
            )
            .add_statement(
                Statement::let_statement()
                    .id(VariableRef::new("square"))
                    .value(Expr::call().set_target("Square").name("new").as_expr())
                    .as_statement(),
            )
            .add_statement(
                Statement::do_statement()
                    .set_target("square")
                    .name("draw")
                    .as_statement(),
            )
            .add_statement(Statement::return_void()),
    );

    let result = compile_class(&class).unwrap();

    let expected = lines(
        "function Main.main 1
        call Square.new 0
        pop local 0
        push local 0
        call Square.draw 1
        pop temp 0
        push constant 0
        return",
    );

    assert_eq!(result, expected);
}

#[test]
fn call_method_on_field_object() {
    let class = Class::new("Game")
        .add_variable(
            ClassVariable::new("ball")
                .var_type(VariableType::ClassName("Ball".to_owned()))
                .visibility(ClassVariableVisibility::Field),
        )
        .add_subroutine(
            Subroutine::new("new")
                .subroutine_type(SubroutineType::Constructor)
                .return_type(ReturnType::ClassName("Game".to_owned()))
                .add_statement(
                    Statement::let_statement()
                        .id(VariableRef::new("ball"))
                        .value(Expr::call().set_target("Ball").name("new").as_expr())
                        .as_statement(),
                )
                .add_statement(Statement::return_expr(Expr::this())),
        )
        .add_subroutine(
            Subroutine::new("run")
                .subroutine_type(SubroutineType::Method)
                .add_statement(
                    Statement::do_statement()
                        .set_target("ball")
                        .name("run")
                        .as_statement(),
                )
                .add_statement(Statement::return_void()),
        );

    let result = compile_class(&class).unwrap();

    let expected = lines(
        "function Game.new 0
        push constant 1
        call Memory.alloc 1
        pop pointer 0
        call Ball.new 0
        pop this 0
        push pointer 0
        return
        function Game.run 0
        push argument 0
        pop pointer 0
        push this 0
        call Ball.run 1
        pop temp 0
        push constant 0
        return",
    );

    assert_eq!(result, expected);
}

#[test]
fn test_chained_methods() {
    let class = Class::new("Adder")
        .add_subroutine(
            Subroutine::new("new")
                .subroutine_type(SubroutineType::Constructor)
                .return_type(ReturnType::ClassName("Adder".to_string()))
                .add_statement(Statement::return_expr(Expr::this())),
        )
        .add_subroutine(
            Subroutine::new("first")
                .subroutine_type(SubroutineType::Method)
                .return_type(ReturnType::Int)
                .add_statement(Statement::return_expr(
                    Expr::call().name("second").as_expr(),
                )),
        )
        .add_subroutine(
            Subroutine::new("second")
                .subroutine_type(SubroutineType::Method)
                .return_type(ReturnType::Int)
                .add_statement(Statement::return_expr(Expr::int_c(3))),
        );

    let result = compile_class(&class).unwrap();

    let expected = lines(
        "function Adder.first 0
        push argument 0
        pop pointer 0
        push pointer 0
        call Adder.second 1
        return
        function Adder.second 0
        push argument 0
        pop pointer 0
        push constant 3
        return",
    );

    assert!(
        contains_commands(&result, &expected),
        "Result: {:?}",
        result
    );
}

#[test]
fn test_chained_methods_using_do() {
    let class = Class::new("Adder")
        .add_subroutine(
            Subroutine::new("new")
                .subroutine_type(SubroutineType::Constructor)
                .return_type(ReturnType::ClassName("Adder".to_string()))
                .add_statement(Statement::return_expr(Expr::this())),
        )
        .add_subroutine(
            Subroutine::new("first")
                .subroutine_type(SubroutineType::Method)
                .add_statement(Statement::do_statement().name("second").as_statement())
                .add_statement(Statement::return_void()),
        )
        .add_subroutine(
            Subroutine::new("second")
                .subroutine_type(SubroutineType::Method)
                .add_statement(Statement::return_void()),
        );

    let result = compile_class(&class).unwrap();

    let expected = lines(
        "function Adder.first 0
        push argument 0
        pop pointer 0
        push pointer 0
        call Adder.second 1
        pop temp 0
        push constant 0
        return
        function Adder.second 0
        push argument 0
        pop pointer 0
        push constant 0
        return",
    );

    assert!(
        contains_commands(&result, &expected),
        "Result: {:?}",
        result
    );
}

#[test]
fn compile_array_test() {
    let class = Class::new("Main").add_subroutine(
        Subroutine::new("main")
            .add_statement(
                Statement::do_statement()
                    .set_target("Output")
                    .name("printString")
                    .add_parameter(Expr::string("abc"))
                    .as_statement(),
            )
            .add_statement(Statement::return_void()),
    );

    let result = compile_class(&class).unwrap();

    let expected = lines(
        "function Main.main 0
        push constant 3
        call String.new 1
        push constant 97
        call String.appendChar 2
        push constant 98
        call String.appendChar 2
        push constant 99
        call String.appendChar 2
        call Output.printString 1
        pop temp 0
        push constant 0
        return",
    );

    assert_eq!(result, expected);
}

#[test]
fn test_array_values() {
    let class = Class::new("Main").add_subroutine(
        Subroutine::new("main")
            .add_statement(
                Statement::var()
                    .add_var(Variable::new("a", VariableType::Array))
                    .as_statement(),
            )
            .add_statement(
                Statement::let_statement()
                    .id(VariableRef::new("a"))
                    .value(
                        Expr::call()
                            .set_target("Array")
                            .name("new")
                            .add_parameter(Expr::int_c(5))
                            .as_expr(),
                    )
                    .as_statement(),
            )
            .add_statement(
                Statement::let_statement()
                    .id(VariableRef::new_with_index("a", Expr::int_c(2)))
                    .value(Expr::int_c(3))
                    .as_statement(),
            )
            .add_statement(
                Statement::do_statement()
                    .set_target("Output")
                    .name("printInt")
                    .add_parameter(Expr::var(VariableRef::new_with_index("a", Expr::int_c(2))))
                    .as_statement(),
            )
            .add_statement(Statement::return_void()),
    );

    let result = compile_class(&class).unwrap();

    let expected = lines(
        "function Main.main 1
        push constant 5
        call Array.new 1
        pop local 0
        push local 0
        push constant 2
        add
        push constant 3
        pop temp 0
        pop pointer 1
        push temp 0
        pop that 0
        push local 0
        push constant 2
        add
        pop pointer 1
        push that 0
        call Output.printInt 1
        pop temp 0
        push constant 0
        return",
    );

    assert_eq!(result, expected);
}

#[test]
fn compile_missing_variable_fails() {
    let class = Class::new("Main").add_subroutine(
        Subroutine::new("main")
            .add_statement(
                Statement::let_statement()
                    .id(VariableRef::new("ghostly"))
                    .value(Expr::int_c(1))
                    .as_statement(),
            )
            .add_statement(Statement::return_void()),
    );

    let result = compile_class(&class);
    assert!(result.is_err());
}
