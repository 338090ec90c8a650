//! The diagnostic sink.

use crlox::token::Token;
use crlox::token::TokenType;
use crlox::Lox;

fn token(kind: TokenType, lexeme: &str, line: u32) -> Token {
    Token { token_type: kind, lexeme: lexeme.to_string(), literal: None, line }
}

#[test]
fn a_fresh_sink_is_clean() {
    let sink = Lox::default();
    assert!(!sink.had_error);
    assert!(!sink.had_runtime_error);
    assert!(sink.reports.is_empty());
    assert_eq!(sink.exit_code(), 0);
}

#[test]
fn scanner_error_has_no_location() {
    let mut sink = Lox::default();
    sink.scanner_error(12, "Unexpected character.");
    assert!(sink.had_error);
    assert!(!sink.had_runtime_error);
    assert_eq!(sink.reports, vec!["[line 12] Error: Unexpected character."]);
    assert_eq!(sink.exit_code(), 65);
}

#[test]
fn parser_error_points_at_the_token_or_the_end() {
    let mut sink = Lox::default();
    sink.parser_error(token(TokenType::Semicolon, ";", 3), "Expect expression.");
    sink.parser_error(token(TokenType::Eof, "", 4), "Expect ';' after value.");
    assert!(sink.had_error);
    assert_eq!(
        sink.reports,
        vec![
            "[line 3] Error at ';': Expect expression.",
            "[line 4] Error at end: Expect ';' after value."
        ]
    );
    assert_eq!(sink.exit_code(), 65);
}

#[test]
fn interpreter_error_sets_the_runtime_flag_only() {
    let mut sink = Lox::default();
    sink.interpreter_error(token(TokenType::Slash, "/", 1000), "Can't divide by 0");
    assert!(!sink.had_error);
    assert!(sink.had_runtime_error);
    assert_eq!(sink.reports, vec!["[line 1000] Error at '/': Can't divide by 0"]);
    assert_eq!(sink.exit_code(), 70);
}

#[test]
fn a_syntax_error_decides_the_exit_status_before_a_runtime_error() {
    let mut sink = Lox::default();
    sink.interpreter_error(token(TokenType::Eof, "", 1), "m");
    sink.scanner_error(1, "n");
    assert_eq!(sink.exit_code(), 65);
    assert_eq!(sink.reports, vec!["[line 1] Error at end: m", "[line 1] Error: n"]);
}

#[test]
fn reset_clears_the_syntax_flag_and_keeps_the_rest() {
    let mut sink = Lox::default();
    sink.scanner_error(1, "n");
    sink.interpreter_error(token(TokenType::Id, "x", 2), "m");
    sink.reset();
    assert!(!sink.had_error);
    assert!(sink.had_runtime_error);
    assert_eq!(sink.reports.len(), 2);
    assert_eq!(sink.exit_code(), 70);
}

#[test]
fn line_numbers_of_every_length() {
    let mut sink = Lox::default();
    sink.scanner_error(0, "a");
    sink.scanner_error(9, "a");
    sink.scanner_error(4294967295, "a");
    assert_eq!(
        sink.reports,
        vec!["[line 0] Error: a", "[line 9] Error: a", "[line 4294967295] Error: a"]
    );
}
