//! The lexer: tokens produced from source text.

use kox::{Lexer, Token};

#[test]
fn keywords_punctuation_and_identifiers() {
    let tokens = Lexer::lex("let x = 5; fn f(a) { a }".to_string()).unwrap();
    assert_eq!(
        tokens,
        vec![
            Token::Let,
            Token::Ident("x".to_string()),
            Token::Eq,
            Token::Int(5),
            Token::Semicolon,
            Token::Function,
            Token::Ident("f".to_string()),
            Token::LParen,
            Token::Ident("a".to_string()),
            Token::RParen,
            Token::LBrace,
            Token::Ident("a".to_string()),
            Token::RBrace,
        ]
    );
}

#[test]
fn all_keywords_are_recognized() {
    let tokens = Lexer::lex("fn let true false if else return for in".to_string()).unwrap();
    assert_eq!(
        tokens,
        vec![
            Token::Function,
            Token::Let,
            Token::True,
            Token::False,
            Token::If,
            Token::Else,
            Token::Return,
            Token::For,
            Token::In,
        ]
    );
}

#[test]
fn operators_single_and_double() {
    let tokens = Lexer::lex("= == ! != < <= > >= + - * / ^ , ;".to_string()).unwrap();
    assert_eq!(
        tokens,
        vec![
            Token::Eq,
            Token::EqEq,
            Token::Bang,
            Token::BangEq,
            Token::LessThan,
            Token::LessThanEqual,
            Token::GreaterThan,
            Token::GreaterThanEqual,
            Token::Plus,
            Token::Minus,
            Token::Asterisk,
            Token::Slash,
            Token::Pow,
            Token::Comma,
            Token::Semicolon,
        ]
    );
}

#[test]
fn a_minus_before_a_digit_binds_to_the_number() {
    let tokens = Lexer::lex("1 -2 - 3".to_string()).unwrap();
    assert_eq!(
        tokens,
        vec![Token::Int(1), Token::Int(-2), Token::Minus, Token::Int(3)]
    );
}

#[test]
fn float_literals_carry_their_bit_pattern() {
    let tokens = Lexer::lex("3.5".to_string()).unwrap();
    assert_eq!(tokens, vec![Token::Float((3.5f64).to_bits())]);
    let tokens = Lexer::lex("-0.25".to_string()).unwrap();
    assert_eq!(tokens, vec![Token::Float((-0.25f64).to_bits())]);
    let tokens = Lexer::lex("0.1".to_string()).unwrap();
    assert_eq!(tokens, vec![Token::Float((0.1f64).to_bits())]);
}

#[test]
fn string_literals_with_both_quotes() {
    let tokens = Lexer::lex("\"hello\" 'world'".to_string()).unwrap();
    assert_eq!(
        tokens,
        vec![
            Token::Str("hello".to_string()),
            Token::Str("world".to_string()),
        ]
    );
}

#[test]
fn comments_run_to_the_end_of_the_line() {
    let tokens = Lexer::lex("1 // ignored ;;; \n2".to_string()).unwrap();
    assert_eq!(tokens, vec![Token::Int(1), Token::Int(2)]);
}

#[test]
fn integer_bounds() {
    let tokens = Lexer::lex("9223372036854775807".to_string()).unwrap();
    assert_eq!(tokens, vec![Token::Int(i64::MAX)]);
    let tokens = Lexer::lex("-9223372036854775808".to_string()).unwrap();
    assert_eq!(tokens, vec![Token::Int(i64::MIN)]);
}

#[test]
fn an_integer_out_of_range_is_a_lexical_failure() {
    let err = Lexer::lex("9223372036854775808".to_string()).unwrap_err();
    assert_eq!(err.message, "number out of range");
    let err = Lexer::lex("-9223372036854775809".to_string()).unwrap_err();
    assert_eq!(err.message, "number out of range");
}

#[test]
fn an_unterminated_string_is_a_lexical_failure() {
    let err = Lexer::lex("'abc".to_string()).unwrap_err();
    assert_eq!(err.message, "unterminated string");
    assert_eq!(err.line, 1);
}

#[test]
fn an_unexpected_character_is_a_lexical_failure() {
    let err = Lexer::lex("1 @ 2".to_string()).unwrap_err();
    assert_eq!(err.message, "unexpected character");
}

#[test]
fn character_level_cursor_operations() {
    let mut lexer = Lexer::new("ab".to_string());
    assert_eq!(lexer.read_char_at(0), 'a');
    assert_eq!(lexer.read_char_at(1), 'b');
    assert_eq!(lexer.read_char_at(2), '\0');
    assert_eq!(lexer.peek(), 'b');
    assert!(!lexer.match_next('x'));
    assert!(lexer.match_next('b'));
    lexer.advance();
    assert_eq!(lexer.peek(), '\0');
}

#[test]
fn next_token_skips_whitespace_and_reports_positions() {
    let mut lexer = Lexer::new("  foo\n bar".to_string());
    let t = lexer.next_token();
    assert_eq!(t, Token::Ident("foo".to_string()));
    assert_eq!(lexer.token_position(), (1, 2));
    let t = lexer.next_token();
    assert_eq!(t, Token::Ident("bar".to_string()));
    assert_eq!(lexer.token_position(), (2, 1));
    assert_eq!(lexer.next_token(), Token::Eof);
}
