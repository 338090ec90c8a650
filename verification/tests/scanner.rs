//! The scanner on sources small enough to read.

use crlox::scanner::scanner_builder;
use crlox::token::Literal;
use crlox::token::Token;
use crlox::token::TokenType;
use crlox::Lox;

fn scan(source: &str) -> (Vec<Token>, Lox) {
    let mut scanner = scanner_builder(Lox::default(), source.to_string());
    let tokens = scanner.scan_tokens();
    (tokens, scanner.instance)
}

fn kinds(tokens: &[Token]) -> Vec<TokenType> {
    tokens.iter().map(|t| t.token_type).collect()
}

fn lexemes(tokens: &[Token]) -> Vec<String> {
    tokens.iter().map(|t| t.lexeme.clone()).collect()
}

#[test]
fn empty_source_gives_the_end_marker() {
    let (tokens, sink) = scan("");
    assert_eq!(kinds(&tokens), vec![TokenType::Eof]);
    assert_eq!(tokens[0].line, 1);
    assert_eq!(tokens[0].lexeme, "");
    assert!(tokens[0].literal.is_none());
    assert!(!sink.had_error);
}

#[test]
fn punctuation() {
    let (tokens, sink) = scan("(){},.-+;*:?/");
    assert_eq!(
        kinds(&tokens),
        vec![
            TokenType::LParen,
            TokenType::RParen,
            TokenType::LBrace,
            TokenType::RBrace,
            TokenType::Comma,
            TokenType::Dot,
            TokenType::Minus,
            TokenType::Plus,
            TokenType::Semicolon,
            TokenType::Star,
            TokenType::Colon,
            TokenType::Question,
            TokenType::Slash,
            TokenType::Eof
        ]
    );
    assert!(!sink.had_error);
}

#[test]
fn comparisons_of_one_and_two_characters() {
    let (tokens, _) = scan("! != = == < <= > >= =!");
    assert_eq!(
        kinds(&tokens),
        vec![
            TokenType::Bang,
            TokenType::BangEqual,
            TokenType::Equal,
            TokenType::EqualEqual,
            TokenType::Less,
            TokenType::LessEqual,
            TokenType::Greater,
            TokenType::GreaterEqual,
            TokenType::Equal,
            TokenType::Bang,
            TokenType::Eof
        ]
    );
    assert_eq!(lexemes(&tokens)[1], "!=");
}

#[test]
fn keywords_and_identifiers() {
    let (tokens, _) = scan(
        "and class else false for fun if nil or print return super this true var while andy _x x1 For",
    );
    assert_eq!(
        kinds(&tokens),
        vec![
            TokenType::And,
            TokenType::Class,
            TokenType::Else,
            TokenType::False,
            TokenType::For,
            TokenType::Fun,
            TokenType::If,
            TokenType::Nil,
            TokenType::Or,
            TokenType::Print,
            TokenType::Return,
            TokenType::Super,
            TokenType::This,
            TokenType::True,
            TokenType::Var,
            TokenType::While,
            TokenType::Id,
            TokenType::Id,
            TokenType::Id,
            TokenType::Id,
            TokenType::Eof
        ]
    );
    assert_eq!(lexemes(&tokens)[16], "andy");
    assert!(tokens.iter().all(|t| t.literal.is_none()));
}

#[test]
fn identifier_may_hold_a_numeric_character_of_any_script() {
    let (tokens, sink) = scan("a\u{b2} b");
    assert_eq!(kinds(&tokens), vec![TokenType::Id, TokenType::Id, TokenType::Eof]);
    assert_eq!(tokens[0].lexeme, "a\u{b2}");
    assert!(!sink.had_error);
}

#[test]
fn numbers_carry_their_numeral() {
    let (tokens, _) = scan("12 3.25 7. .5");
    assert_eq!(
        kinds(&tokens),
        vec![
            TokenType::Num,
            TokenType::Num,
            TokenType::Num,
            TokenType::Dot,
            TokenType::Dot,
            TokenType::Num,
            TokenType::Eof
        ]
    );
    assert!(matches!(&tokens[0].literal, Some(Literal::Num(n)) if n == "12"));
    assert!(matches!(&tokens[1].literal, Some(Literal::Num(n)) if n == "3.25"));
    assert_eq!(tokens[2].lexeme, "7");
    assert_eq!(tokens[5].lexeme, "5");
}

#[test]
fn string_carries_its_body_without_the_quotes() {
    let (tokens, sink) = scan("\"hi there\" \"\"");
    assert_eq!(kinds(&tokens), vec![TokenType::String, TokenType::String, TokenType::Eof]);
    assert_eq!(tokens[0].lexeme, "\"hi there\"");
    assert!(matches!(&tokens[0].literal, Some(Literal::Str(s)) if s == "hi there"));
    assert!(matches!(&tokens[1].literal, Some(Literal::Str(s)) if s.is_empty()));
    assert!(!sink.had_error);
}

#[test]
fn string_over_several_lines_stands_on_its_last_line() {
    let (tokens, _) = scan("\"a\nb\nc\" x");
    assert_eq!(tokens[0].line, 3);
    assert_eq!(tokens[1].line, 3);
    assert!(matches!(&tokens[0].literal, Some(Literal::Str(s)) if s == "a\nb\nc"));
}

#[test]
fn unterminated_string_is_one_error_and_no_token() {
    let (tokens, sink) = scan("1 \"abc\ndef");
    assert_eq!(kinds(&tokens), vec![TokenType::Num, TokenType::Eof]);
    assert!(sink.had_error);
    assert!(!sink.had_runtime_error);
    assert_eq!(sink.reports, vec!["[line 2] Error: Undetermined String"]);
    assert_eq!(tokens[1].line, 2);
}

#[test]
fn line_comment_runs_to_the_end_of_the_line() {
    let (tokens, sink) = scan("1 // two three\n4 // five");
    assert_eq!(kinds(&tokens), vec![TokenType::Num, TokenType::Num, TokenType::Eof]);
    assert_eq!(tokens[1].line, 2);
    assert!(!sink.had_error);
}

#[test]
fn block_comment_closes_at_the_first_star_slash() {
    let (tokens, sink) = scan("1 /* a\n b /* c */ 2 */");
    assert_eq!(
        kinds(&tokens),
        vec![TokenType::Num, TokenType::Num, TokenType::Star, TokenType::Slash, TokenType::Eof]
    );
    assert_eq!(tokens[1].line, 2);
    assert!(!sink.had_error);
}

#[test]
fn block_comment_needs_both_of_its_own_closing_characters() {
    let (tokens, sink) = scan("/*/ 1");
    assert_eq!(kinds(&tokens), vec![TokenType::Eof]);
    assert_eq!(sink.reports, vec!["[line 1] Error: Undetermined Block Comment"]);
    let (tokens, sink) = scan("/**/ 1");
    assert_eq!(kinds(&tokens), vec![TokenType::Num, TokenType::Eof]);
    assert!(!sink.had_error);
}

#[test]
fn unterminated_block_comment_is_reported_on_the_last_line() {
    let (tokens, sink) = scan("1 /* a\nb\nc");
    assert_eq!(kinds(&tokens), vec![TokenType::Num, TokenType::Eof]);
    assert!(sink.had_error);
    assert_eq!(sink.reports, vec!["[line 3] Error: Undetermined Block Comment"]);
}

#[test]
fn unexpected_characters_are_reported_and_scanning_goes_on() {
    let (tokens, sink) = scan("1 @ 2\n# 3");
    assert_eq!(
        kinds(&tokens),
        vec![TokenType::Num, TokenType::Num, TokenType::Num, TokenType::Eof]
    );
    assert_eq!(
        sink.reports,
        vec!["[line 1] Error: Unexpected character.", "[line 2] Error: Unexpected character."]
    );
}

#[test]
fn lines_are_counted_from_one() {
    let (tokens, _) = scan("a\nb\r\n\tc\n");
    assert_eq!(tokens.iter().map(|t| t.line).collect::<Vec<u32>>(), vec![1, 2, 3, 4]);
}

#[test]
fn exactly_one_end_marker_and_lines_within_the_source() {
    let source = "var a = 1;\n/* x\ny */ print \"s\nt\";\n// end";
    let (tokens, _) = scan(source);
    let lines = 1 + source.matches('\n').count() as u32;
    assert_eq!(tokens.iter().filter(|t| t.token_type == TokenType::Eof).count(), 1);
    assert_eq!(tokens.last().unwrap().token_type, TokenType::Eof);
    assert!(tokens.iter().all(|t| 1 <= t.line && t.line <= lines));
}

#[test]
fn characters_beyond_ascii_are_counted_one_by_one() {
    let (tokens, sink) = scan("\"h\u{e9}\u{4e16}\" x");
    assert_eq!(kinds(&tokens), vec![TokenType::String, TokenType::Id, TokenType::Eof]);
    assert!(matches!(&tokens[0].literal, Some(Literal::Str(s)) if s == "h\u{e9}\u{4e16}"));
    assert_eq!(tokens[1].lexeme, "x");
    assert!(!sink.had_error);
}

#[test]
fn scanning_again_adds_one_more_end_marker() {
    let mut scanner = scanner_builder(Lox::default(), "a".to_string());
    let first = scanner.scan_tokens();
    let second = scanner.scan_tokens();
    assert_eq!(kinds(&first), vec![TokenType::Id, TokenType::Eof]);
    assert_eq!(kinds(&second), vec![TokenType::Id, TokenType::Eof, TokenType::Eof]);
}
