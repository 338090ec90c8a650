//! The parser on the tokens of small sources.

use crlox::expression::Expr;
use crlox::parser::Parser;
use crlox::scanner::scanner_builder;
use crlox::stmt::Stmt;
use crlox::token::Literal;
use crlox::token::TokenType;
use crlox::Lox;

fn parse(source: &str) -> (Option<Vec<Stmt>>, Lox) {
    let mut scanner = scanner_builder(Lox::default(), source.to_string());
    let tokens = scanner.scan_tokens();
    let mut parser = Parser::parser_builder(tokens, scanner.instance);
    let statements = parser.parse();
    (statements, parser.instance)
}

/// The expression in prefix form, fully parenthesized.
fn show(e: &Expr) -> String {
    match e {
        Expr::Binary { left, operator, right } => {
            format!("({} {} {})", operator.lexeme, show(left), show(right))
        }
        Expr::Logical { left, operator, right } => {
            format!("[{} {} {}]", operator.lexeme, show(left), show(right))
        }
        Expr::Grouping { expression } => format!("(group {})", show(expression)),
        Expr::Literal { value } => match value {
            Literal::Str(s) => format!("{:?}", s),
            Literal::Num(n) => n.clone(),
            Literal::False => "false".to_string(),
            Literal::True => "true".to_string(),
            Literal::Nill => "nil".to_string(),
        },
        Expr::Unary { operator, right } => format!("({} {})", operator.lexeme, show(right)),
        Expr::Variable { token } => token.lexeme.clone(),
        Expr::Assign { name, value } => format!("(= {} {})", name.lexeme, show(value)),
        Expr::Call { .. } => "call".to_string(),
    }
}

fn show_stmt(s: &Stmt) -> String {
    match s {
        Stmt::Expression { expression } => format!("{};", show(expression)),
        Stmt::Print { expression } => format!("print {};", show(expression)),
        Stmt::Var { name, right } => match right {
            Some(e) => format!("var {} = {};", name.lexeme, show(e)),
            None => format!("var {};", name.lexeme),
        },
        Stmt::Block { statements } => {
            let inner: Vec<String> = statements.iter().map(show_stmt).collect();
            format!("{{ {} }}", inner.join(" "))
        }
        Stmt::If { condition, then_branch, else_branch } => match else_branch {
            Some(e) => {
                format!("if {} then {} else {}", show(condition), show_stmt(then_branch), show_stmt(e))
            }
            None => format!("if {} then {}", show(condition), show_stmt(then_branch)),
        },
        Stmt::While { condition, body } => {
            format!("while {} do {}", show(condition), show_stmt(body))
        }
    }
}

fn shown(source: &str) -> Vec<String> {
    let (statements, sink) = parse(source);
    assert!(!sink.had_error, "{:?}", sink.reports);
    statements.unwrap().iter().map(show_stmt).collect()
}

fn errors(source: &str) -> Vec<String> {
    let (statements, sink) = parse(source);
    assert!(statements.is_none());
    assert!(sink.had_error);
    sink.reports
}

#[test]
fn precedence_from_factor_to_or() {
    assert_eq!(shown("1 + 2 * 3;"), vec!["(+ 1 (* 2 3));"]);
    assert_eq!(shown("1 * 2 + 3;"), vec!["(+ (* 1 2) 3);"]);
    assert_eq!(shown("1 < 2 == 3 > 4;"), vec!["(== (< 1 2) (> 3 4));"]);
    assert_eq!(shown("a or b and c == d;"), vec!["[or a [and b (== c d)]];"]);
    assert_eq!(shown("1 - 2 - 3;"), vec!["(- (- 1 2) 3);"]);
    assert_eq!(shown("1 >= 2 <= 3 != 4;"), vec!["(!= (<= (>= 1 2) 3) 4);"]);
}

#[test]
fn unary_binds_looser_than_the_comma() {
    assert_eq!(shown("-1, 2;"), vec!["(- (, 1 2));"]);
    assert_eq!(shown("!-a;"), vec!["(! (- a));"]);
    assert_eq!(shown("1, 2, 3 * 4;"), vec!["(* (, (, 1 2) 3) 4);"]);
}

#[test]
fn primaries() {
    assert_eq!(
        shown("true; false; nil; 1.5; \"s\"; x; (x);"),
        vec!["true;", "false;", "nil;", "1.5;", "\"s\";", "x;", "(group x);"]
    );
}

#[test]
fn grouping_of_an_unclosed_expression_is_one_error_at_the_end() {
    assert_eq!(errors("(1+2"), vec!["[line 1] Error at end: Expect ')' after expression."]);
}

#[test]
fn assignment_is_right_associative_and_targets_a_variable() {
    assert_eq!(shown("a = b = 3;"), vec!["(= a (= b 3));"]);
    let (statements, _) = parse("a = 1;");
    match &statements.unwrap()[0] {
        Stmt::Expression { expression: Expr::Assign { name, .. } } => {
            assert_eq!(name.token_type, TokenType::Id);
            assert_eq!(name.lexeme, "a");
        }
        other => panic!("{:?}", other),
    }
}

#[test]
fn invalid_assignment_target_is_reported_at_the_equal_sign() {
    assert_eq!(errors("1 = 2;"), vec!["[line 1] Error at '=': Invalid assignment target."]);
    assert_eq!(errors("(a) = 2;\nprint 1"), vec![
        "[line 1] Error at '=': Invalid assignment target.",
        "[line 2] Error at end: Expect ';' after value."
    ]);
}

#[test]
fn statements_of_each_kind() {
    assert_eq!(shown("print 1;"), vec!["print 1;"]);
    assert_eq!(shown("var a; var b = 2;"), vec!["var a;", "var b = 2;"]);
    assert_eq!(shown("{ var a = 1; print a; } {}"), vec!["{ var a = 1; print a; }", "{  }"]);
    assert_eq!(shown("if (a) print 1; else print 2;"), vec!["if a then print 1; else print 2;"]);
    assert_eq!(shown("if (a) if (b) 1; else 2;"), vec!["if a then if b then 1; else 2;"]);
    assert_eq!(shown("while (a < 3) a = a + 1;"), vec!["while (< a 3) do (= a (+ a 1));"]);
}

#[test]
fn for_stands_for_a_while_loop() {
    assert_eq!(
        shown("for (var i = 0; i < 2; i = i + 1) print i;"),
        vec!["{ var i = 0; while (< i 2) do { print i; (= i (+ i 1)); } }"]
    );
    assert_eq!(shown("for (;;) print 1;"), vec!["while true do print 1;"]);
    assert_eq!(shown("for (i = 0;;) print 1;"), vec!["{ (= i 0); while true do print 1; }"]);
    assert_eq!(shown("for (; i < 1;) {}"), vec!["while (< i 1) do {  }"]);
    assert_eq!(shown("for (;; i = 1) 2;"), vec!["while true do { 2; (= i 1); }"]);
}

#[test]
fn missing_pieces_of_statements() {
    assert_eq!(errors("print 1"), vec!["[line 1] Error at end: Expect ';' after value."]);
    assert_eq!(errors("1"), vec!["[line 1] Error at end: Expect ';' after value."]);
    assert_eq!(errors("var 1;"), vec!["[line 1] Error at '1': Expect variable name."]);
    assert_eq!(
        errors("var a = 1"),
        vec!["[line 1] Error at end: Expect ';' after variable declaration."]
    );
    assert_eq!(errors("{ print 1;"), vec!["[line 1] Error at end: Expect '}' after block."]);
    assert_eq!(errors("if a) 1;"), vec!["[line 1] Error at 'a': Expect '(' after 'if'."]);
    assert_eq!(errors("if (a 1;"), vec!["[line 1] Error at '1': Expect ')' after if condition"]);
    assert_eq!(errors("while a) 1;"), vec!["[line 1] Error at 'a': Expect '(' after 'while'."]);
    assert_eq!(errors("while (a 1;"), vec!["[line 1] Error at '1': Expect ')' after 'while'."]);
    assert_eq!(errors("for a;"), vec!["[line 1] Error at 'a': Expect '(' after 'for'."]);
    assert_eq!(
        errors("for a;;) 1;"),
        vec![
            "[line 1] Error at 'a': Expect '(' after 'for'.",
            "[line 1] Error at ';': Expect expression.",
            "[line 1] Error at ')': Expect expression."
        ]
    );
    assert_eq!(
        errors("for (;a b"),
        vec!["[line 1] Error at 'b': Expect ';' after loop condition."]
    );
    assert_eq!(
        errors("for (;;a b"),
        vec!["[line 1] Error at 'b': Expect ')' after for clauses."]
    );
    assert_eq!(errors(")"), vec!["[line 1] Error at ')': Expect expression."]);
    assert_eq!(errors("1 +;"), vec!["[line 1] Error at ';': Expect expression."]);
}

#[test]
fn recovery_resumes_after_a_semicolon_or_before_a_statement() {
    assert_eq!(
        errors("var 1 2 3; print;\nprint 2 print 3;"),
        vec![
            "[line 1] Error at '1': Expect variable name.",
            "[line 1] Error at ';': Expect expression.",
            "[line 2] Error at 'print': Expect ';' after value."
        ]
    );
    assert_eq!(
        errors("(1 2 3 var a = ;"),
        vec![
            "[line 1] Error at '2': Expect ')' after expression.",
            "[line 1] Error at ';': Expect expression."
        ]
    );
}

#[test]
fn a_lexical_error_alone_makes_the_parse_fail() {
    let (statements, sink) = parse("print 1; @");
    assert!(statements.is_none());
    assert_eq!(sink.reports, vec!["[line 1] Error: Unexpected character."]);
}

#[test]
fn empty_program_parses_to_no_statement() {
    let (statements, sink) = parse("");
    assert_eq!(statements.unwrap().len(), 0);
    assert!(!sink.had_error);
}

#[test]
fn a_consume_that_fails_does_not_move() {
    let mut scanner = scanner_builder(Lox::default(), "print 1 2;".to_string());
    let tokens = scanner.scan_tokens();
    let mut parser = Parser::parser_builder(tokens, scanner.instance);
    assert_eq!(parser.current, 0);
    let statements = parser.parse();
    assert!(statements.is_none());
    assert_eq!(parser.instance.reports, vec!["[line 1] Error at '2': Expect ';' after value."]);
    assert_eq!(parser.tokens[parser.current].token_type, TokenType::Eof);
}
