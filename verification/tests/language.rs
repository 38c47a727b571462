//! End-to-end behavior of the language: source text in, value or error out.

use kox::{Interpreter, KoxValue, Parser, RuntimeError, RuntimeErrorKind};

fn run(src: &str) -> Result<KoxValue, RuntimeError> {
    let mut parser = Parser::new(src.to_string());
    let program = parser.parse_program().expect("program should parse");
    let mut interpreter = Interpreter::new();
    let mut env = interpreter.global_environment();
    interpreter.evaluate_program(program, &mut env)
}

#[test]
fn integer_division_truncates() {
    assert!(matches!(run("7 / 2"), Ok(KoxValue::Int(3))));
}

#[test]
fn float_division_is_ieee() {
    let expected = (3.5f64).to_bits();
    assert!(matches!(run("7.0 / 2.0"), Ok(KoxValue::Float(b)) if b == expected));
}

#[test]
fn mixed_operands_are_a_type_mismatch() {
    let err = run("1 + 1.0").unwrap_err();
    assert_eq!(err.kind, RuntimeErrorKind::TypeMismatch);
}

#[test]
fn mixed_operands_of_any_variants_mismatch() {
    assert_eq!(run("true + 1").unwrap_err().kind, RuntimeErrorKind::TypeMismatch);
    assert_eq!(run("'a' == 1").unwrap_err().kind, RuntimeErrorKind::TypeMismatch);
    assert_eq!(run("1.0 - 1").unwrap_err().kind, RuntimeErrorKind::TypeMismatch);
}

#[test]
fn assignment_mutates_the_binding() {
    assert!(matches!(run("let x = 1; x = 2; x"), Ok(KoxValue::Int(2))));
}

#[test]
fn block_shadows_without_touching_outer() {
    assert!(matches!(run("let x = 1; { let x = 2; x }"), Ok(KoxValue::Int(2))));
    assert!(matches!(run("let x = 1; { let x = 2; x }; x"), Ok(KoxValue::Int(1))));
}

#[test]
fn wrong_arity_fails_with_arity_mismatch() {
    let err = run("fn f(a, b) { a }; f(1)").unwrap_err();
    assert_eq!(err.kind, RuntimeErrorKind::ArityMismatch { expected: 2, got: 1 });
}

#[test]
fn wrong_arity_for_native_print() {
    let err = run("print(1, 2)").unwrap_err();
    assert_eq!(err.kind, RuntimeErrorKind::ArityMismatch { expected: 1, got: 2 });
}

#[test]
fn wrong_arity_leaves_bindings_untouched() {
    // The failed call binds nothing: `a` keeps its value.
    let src = "let a = 1; fn f(x, y) { a = 99; 0 }; fn g() { f(5) }; g(); a";
    let err = run(src).unwrap_err();
    assert_eq!(err.kind, RuntimeErrorKind::ArityMismatch { expected: 2, got: 1 });
    let src2 = "let a = 1; fn f(x, y) { a = 99; 0 }; a";
    assert!(matches!(run(src2), Ok(KoxValue::Int(1))));
}

#[test]
fn closures_from_the_same_call_share_their_frame() {
    let src = "let a = 0; let b = 0; \
               fn make() { let n = 0; fn inc() { n = n + 1; n }; fn get() { n }; a = inc; b = get; 0 }; \
               make(); a(); a(); b()";
    assert!(matches!(run(src), Ok(KoxValue::Int(2))));
}

#[test]
fn closures_from_separate_calls_are_independent() {
    let src = "let a = 0; \
               fn make() { let n = 0; fn inc() { n = n + 1; n }; a = inc; 0 }; \
               make(); let f = a; make(); let g = a; f(); f(); g()";
    assert!(matches!(run(src), Ok(KoxValue::Int(1))));
}

#[test]
fn return_unwinds_past_blocks_to_the_call_boundary() {
    assert!(matches!(run("fn f() { { return 7; 1 }; 2 }; f()"), Ok(KoxValue::Int(7))));
}

#[test]
fn top_level_return_becomes_the_program_result() {
    assert!(matches!(run("return 5; 6"), Ok(KoxValue::Int(5))));
    assert!(matches!(run("let x = { return 9; 1 }; x"), Ok(KoxValue::Int(9))));
}

#[test]
fn undefined_variable_carries_its_position() {
    let err = run("nope").unwrap_err();
    assert_eq!(err.kind, RuntimeErrorKind::UndefinedVariable);
    assert_eq!(err.line, 1);
    assert_eq!(err.column, 0);

    let err = run("let a = 1;\n  b").unwrap_err();
    assert_eq!(err.kind, RuntimeErrorKind::UndefinedVariable);
    assert_eq!(err.line, 2);
    assert_eq!(err.column, 2);
}

#[test]
fn parsing_is_deterministic() {
    let src = "let x = 1; fn f(a) { a + x }; f(2) * 3";
    let ast1 = Parser::new(src.to_string()).parse_program().unwrap();
    let ast2 = Parser::new(src.to_string()).parse_program().unwrap();
    assert_eq!(format!("{:?}", ast1), format!("{:?}", ast2));
}

#[test]
fn evaluation_is_deterministic() {
    let src = "let x = 1; fn f(a) { a + x }; f(2) * 3";
    let r1 = run(src);
    let r2 = run(src);
    assert_eq!(format!("{:?}", r1), format!("{:?}", r2));
    assert!(matches!(r1, Ok(KoxValue::Int(9))));
}
