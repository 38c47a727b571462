//! The interpreter: operators, control flow, errors, and output.

use kox::{Interpreter, KoxValue, Parser, RuntimeError, RuntimeErrorKind};

fn run(src: &str) -> Result<KoxValue, RuntimeError> {
    let mut parser = Parser::new(src.to_string());
    let program = parser.parse_program().expect("program should parse");
    let mut interpreter = Interpreter::new();
    let mut env = interpreter.global_environment();
    interpreter.evaluate_program(program, &mut env)
}

#[test]
fn integer_arithmetic() {
    assert!(matches!(run("2 + 3"), Ok(KoxValue::Int(5))));
    assert!(matches!(run("2 - 3"), Ok(KoxValue::Int(-1))));
    assert!(matches!(run("6 * 7"), Ok(KoxValue::Int(42))));
    assert!(matches!(run("-7 / 2"), Ok(KoxValue::Int(-3))));
    assert!(matches!(run("7 / -2"), Ok(KoxValue::Int(-3))));
}

#[test]
fn integer_arithmetic_wraps_on_overflow() {
    assert!(matches!(run("9223372036854775807 + 1"), Ok(KoxValue::Int(i64::MIN))));
    assert!(matches!(run("-9223372036854775808 - 1"), Ok(KoxValue::Int(i64::MAX))));
    assert!(matches!(run("-9223372036854775808 / -1"), Ok(KoxValue::Int(i64::MIN))));
}

#[test]
fn integer_division_by_zero_is_an_error() {
    assert_eq!(run("1 / 0").unwrap_err().kind, RuntimeErrorKind::DivisionByZero);
}

#[test]
fn float_arithmetic_matches_ieee_doubles() {
    let expected = (0.1f64 + 0.2f64).to_bits();
    assert!(matches!(run("0.1 + 0.2"), Ok(KoxValue::Float(b)) if b == expected));
    let expected = (1.5f64 * 4.0f64).to_bits();
    assert!(matches!(run("1.5 * 4.0"), Ok(KoxValue::Float(b)) if b == expected));
    let expected = (1.0f64 - 0.75f64).to_bits();
    assert!(matches!(run("1.0 - 0.75"), Ok(KoxValue::Float(b)) if b == expected));
}

#[test]
fn float_division_by_zero_is_an_error() {
    assert_eq!(run("1.0 / 0.0").unwrap_err().kind, RuntimeErrorKind::DivisionByZero);
    assert_eq!(run("1.0 / -0.0").unwrap_err().kind, RuntimeErrorKind::DivisionByZero);
}

#[test]
fn integer_comparisons() {
    assert!(matches!(run("3 > 2"), Ok(KoxValue::Boolean(true))));
    assert!(matches!(run("3 < 2"), Ok(KoxValue::Boolean(false))));
    assert!(matches!(run("2 >= 2"), Ok(KoxValue::Boolean(true))));
    assert!(matches!(run("2 <= 1"), Ok(KoxValue::Boolean(false))));
}

#[test]
fn equality_on_like_typed_operands() {
    assert!(matches!(run("1 == 1"), Ok(KoxValue::Boolean(true))));
    assert!(matches!(run("1 != 2"), Ok(KoxValue::Boolean(true))));
    assert!(matches!(run("'a' == 'a'"), Ok(KoxValue::Boolean(true))));
    assert!(matches!(run("'a' != 'b'"), Ok(KoxValue::Boolean(true))));
    assert!(matches!(run("true == true"), Ok(KoxValue::Boolean(true))));
    assert!(matches!(run("1.5 == 1.5"), Ok(KoxValue::Boolean(true))));
    assert!(matches!(run("0.0 == -0.0"), Ok(KoxValue::Boolean(true))));
    assert!(matches!(run("(if false 1) == (if false 1)"), Ok(KoxValue::Boolean(true))));
}

#[test]
fn undefined_operators_for_a_type() {
    assert_eq!(run("true + false").unwrap_err().kind, RuntimeErrorKind::UndefinedOperatorForType);
    assert_eq!(run("2 ^ 3").unwrap_err().kind, RuntimeErrorKind::UndefinedOperatorForType);
    assert_eq!(run("1.5 < 2.5").unwrap_err().kind, RuntimeErrorKind::UndefinedOperatorForType);
    assert_eq!(run("'a' + 'b'").unwrap_err().kind, RuntimeErrorKind::UndefinedOperatorForType);
}

#[test]
fn a_non_boolean_condition_is_an_error() {
    assert_eq!(run("if 1 2 else 3").unwrap_err().kind, RuntimeErrorKind::NonBooleanCondition);
}

#[test]
fn calling_a_non_function_is_an_error() {
    assert_eq!(run("1(2)").unwrap_err().kind, RuntimeErrorKind::NotCallable);
    assert_eq!(run("let x = 5; x()").unwrap_err().kind, RuntimeErrorKind::NotCallable);
}

#[test]
fn a_for_loop_iterates_an_integer_range() {
    assert!(matches!(run("let s = 0; for i in 4 { s = s + i } s"), Ok(KoxValue::Int(6))));
    assert!(matches!(run("let s = 9; for i in 0 { s = 1 } s"), Ok(KoxValue::Int(9))));
    assert!(matches!(run("for i in 3 { i }"), Ok(KoxValue::Nil)));
}

#[test]
fn a_return_propagates_out_of_a_for_loop() {
    let src = "fn first(n) { for i in n { return i }; -1 }; first(5)";
    assert!(matches!(run(src), Ok(KoxValue::Int(0))));
}

#[test]
fn iterating_a_non_integer_is_an_error() {
    assert_eq!(run("for i in true { 0 }").unwrap_err().kind, RuntimeErrorKind::NotIterable);
    assert_eq!(run("for i in 'abc' { 0 }").unwrap_err().kind, RuntimeErrorKind::NotIterable);
}

#[test]
fn recursion_works_within_the_budget() {
    let src = "fn fib(n) { if n < 2 { n } else { fib(n - 1) + fib(n - 2) } } fib(10)";
    assert!(matches!(run(src), Ok(KoxValue::Int(55))));
}

#[test]
fn runaway_recursion_is_a_reported_error() {
    let err = run("fn f() { f() }; f()").unwrap_err();
    assert_eq!(err.kind, RuntimeErrorKind::RecursionLimit);
}

#[test]
fn a_function_definition_evaluates_to_nil() {
    assert!(matches!(run("fn f() { 1 }"), Ok(KoxValue::Nil)));
}

#[test]
fn print_records_its_argument_and_yields_nil() {
    let mut parser = Parser::new("print(42); print('hi')".to_string());
    let program = parser.parse_program().unwrap();
    let mut interpreter = Interpreter::new();
    let mut env = interpreter.global_environment();
    let r = interpreter.evaluate_program(program, &mut env).unwrap();
    assert!(matches!(r, KoxValue::Nil));
    let out = interpreter.take_output();
    assert_eq!(out.len(), 2);
    assert!(matches!(out[0], KoxValue::Int(42)));
    assert!(matches!(&out[1], KoxValue::Str(s) if s == "hi"));
    assert!(interpreter.take_output().is_empty());
}

#[test]
fn evaluate_expression_keeps_bindings_between_calls() {
    let mut interpreter = Interpreter::new();
    let e1 = Parser::new("let x = 5".to_string()).expression().unwrap();
    assert!(matches!(interpreter.evaluate_expression(e1), Ok(KoxValue::Int(5))));
    let e2 = Parser::new("x + 1".to_string()).expression().unwrap();
    assert!(matches!(interpreter.evaluate_expression(e2), Ok(KoxValue::Int(6))));
}

#[test]
fn an_empty_program_yields_nil() {
    assert!(matches!(run(""), Ok(KoxValue::Nil)));
    assert!(matches!(run("   // only a comment"), Ok(KoxValue::Nil)));
}

#[test]
fn errors_carry_the_position_of_the_failing_construct() {
    let err = run("let a = 1;\nlet b = a / 0; b").unwrap_err();
    assert_eq!(err.kind, RuntimeErrorKind::DivisionByZero);
    assert_eq!(err.line, 2);
}
