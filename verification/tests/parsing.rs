//! The parser: grammar structure, separators, and located parse errors.

use kox::{
    Expression, Interpreter, KoxValue, ParseError, ParseErrorKind, Parser, RuntimeError, Token,
};

fn parse(src: &str) -> Result<Vec<Expression>, ParseError> {
    Parser::new(src.to_string()).parse_program()
}

fn run(src: &str) -> Result<KoxValue, RuntimeError> {
    let mut parser = Parser::new(src.to_string());
    let program = parser.parse_program().expect("program should parse");
    let mut interpreter = Interpreter::new();
    let mut env = interpreter.global_environment();
    interpreter.evaluate_program(program, &mut env)
}

#[test]
fn precedence_multiplication_before_addition() {
    assert!(matches!(run("1 + 2 * 3"), Ok(KoxValue::Int(7))));
    assert!(matches!(run("(1 + 2) * 3"), Ok(KoxValue::Int(9))));
}

#[test]
fn precedence_comparison_above_equality() {
    assert!(matches!(run("1 < 2 == true"), Ok(KoxValue::Boolean(true))));
}

#[test]
fn additive_operators_are_left_associative() {
    assert!(matches!(run("10 - 4 - 3"), Ok(KoxValue::Int(3))));
    assert!(matches!(run("100 / 10 / 5"), Ok(KoxValue::Int(2))));
}

#[test]
fn assignment_is_right_associative() {
    let src = "let a = 1; let b = 2; a = b = 3; a + b";
    assert!(matches!(run(src), Ok(KoxValue::Int(6))));
}

#[test]
fn assignment_returns_the_assigned_value() {
    assert!(matches!(run("let a = 1; a = 41 + 1"), Ok(KoxValue::Int(42))));
}

#[test]
fn a_missing_separator_is_a_parse_error() {
    let err = parse("1 2").unwrap_err();
    assert_eq!(err.kind, ParseErrorKind::ExpectedToken(Token::Semicolon));
}

#[test]
fn a_self_delimiting_form_needs_no_separator() {
    assert!(parse("if true { 1 } 2").is_ok());
    assert!(parse("fn f() { 1 } f()").is_ok());
    assert!(parse("for i in 3 { i } 9").is_ok());
    assert!(matches!(run("if true { 1 } 2"), Ok(KoxValue::Int(2))));
}

#[test]
fn a_block_with_a_trailing_separator_yields_nil() {
    assert!(matches!(run("{ 1; 2; }"), Ok(KoxValue::Nil)));
    assert!(matches!(run("{ }"), Ok(KoxValue::Nil)));
    assert!(matches!(run("{ 1; 2 }"), Ok(KoxValue::Int(2))));
}

#[test]
fn blocks_elide_separators_after_braced_forms() {
    assert!(matches!(run("{ if true { 1 } 5 }"), Ok(KoxValue::Int(5))));
}

#[test]
fn a_missing_identifier_is_a_parse_error() {
    let err = parse("let = 5").unwrap_err();
    assert_eq!(err.kind, ParseErrorKind::ExpectedIdentifier);
    let err = parse("fn (a) { a }").unwrap_err();
    assert_eq!(err.kind, ParseErrorKind::ExpectedIdentifier);
}

#[test]
fn a_missing_closing_parenthesis_is_a_parse_error() {
    let err = parse("(1 + 2").unwrap_err();
    assert_eq!(err.kind, ParseErrorKind::ExpectedToken(Token::RParen));
}

#[test]
fn an_invalid_assignment_target_is_a_parse_error() {
    let err = parse("1 = 2").unwrap_err();
    assert_eq!(err.kind, ParseErrorKind::InvalidAssignmentTarget);
}

#[test]
fn an_unterminated_string_is_an_unterminated_construct() {
    let err = parse("let s = 'abc").unwrap_err();
    assert_eq!(err.kind, ParseErrorKind::UnterminatedConstruct);
}

#[test]
fn an_unexpected_token_is_reported_with_its_position() {
    let err = parse("let x = ;").unwrap_err();
    assert_eq!(err.kind, ParseErrorKind::UnexpectedToken(Token::Semicolon));
    assert_eq!(err.line, 1);
    assert_eq!(err.column, 8);
}

#[test]
fn if_with_else_branches() {
    assert!(matches!(run("if 1 < 2 { 10 } else { 20 }"), Ok(KoxValue::Int(10))));
    assert!(matches!(run("if 1 > 2 { 10 } else { 20 }"), Ok(KoxValue::Int(20))));
    assert!(matches!(run("if 1 > 2 { 10 }"), Ok(KoxValue::Nil)));
}

#[test]
fn calls_with_multiple_arguments() {
    assert!(matches!(run("fn add3(a, b, c) { a + b + c } add3(1, 2, 3)"), Ok(KoxValue::Int(6))));
}

#[test]
fn a_function_body_may_be_a_bare_expression() {
    assert!(matches!(run("fn double(a) a * 2; double(21)"), Ok(KoxValue::Int(42))));
}

#[test]
fn an_expression_can_be_parsed_alone() {
    let mut parser = Parser::new("1 + 2".to_string());
    let e = parser.expression().unwrap();
    assert!(matches!(e, Expression::Binary { .. }));
}
