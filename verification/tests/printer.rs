//! The printer, and the parser on what the printer writes.

use crlox::expression::Expr;
use crlox::interpreter::Action;
use crlox::interpreter::Event;
use crlox::interpreter::Interpreter;
use crlox::interpreter::Operation;
use crlox::interpreter::Style;
use crlox::parser::Parser;
use crlox::printer::printed;
use crlox::printer::printed_source;
use crlox::printer::printed_statement;
use crlox::scanner::scanner_builder;
use crlox::spelling::spell_tokens;
use crlox::stmt::Stmt;
use crlox::token::Token;
use crlox::token::TokenType;
use crlox::Lox;

fn expression(source: &str) -> Expr {
    let mut scanner = scanner_builder(Lox::default(), source.to_string());
    let tokens = scanner.scan_tokens();
    let mut parser = Parser::parser_builder(tokens, scanner.instance);
    let mut statements = parser.parse().unwrap();
    assert_eq!(statements.len(), 1);
    match statements.remove(0) {
        Stmt::Expression { expression } => expression,
        other => panic!("{:?}", other),
    }
}

fn reparsed(e: &Expr) -> Expr {
    let mut parser = Parser::parser_builder(printed_statement(e, false), Lox::default());
    let mut statements = parser.parse().unwrap();
    assert!(parser.instance.reports.is_empty());
    assert_eq!(statements.len(), 1);
    match statements.remove(0) {
        Stmt::Expression { expression } => expression,
        other => panic!("{:?}", other),
    }
}

fn answer(action: &Action) -> Event {
    match action {
        Action::Parse(text) => Event::Number(text.parse::<f64>().unwrap().to_bits()),
        Action::Arithmetic(op, a, b) => {
            let x = f64::from_bits(*a);
            let y = f64::from_bits(*b);
            let r = match op {
                Operation::Add => x + y,
                Operation::Subtract => x - y,
                Operation::Multiply => x * y,
                Operation::Divide => x / y,
            };
            Event::Number(r.to_bits())
        }
        Action::Format(Style::Display, n) => Event::Text(format!("{}", f64::from_bits(*n))),
        Action::Format(Style::Debug, n) => Event::Text(format!("{:?}", f64::from_bits(*n))),
        _ => Event::Nothing,
    }
}

/// What `print e;` writes, to the output and to the error stream.
fn value_printed(e: Expr) -> (Vec<String>, Vec<String>) {
    let mut machine = Interpreter::build_interpreter(Lox::default());
    machine.interpret(vec![Stmt::Print { expression: e }]);
    let mut output = Vec::new();
    let mut event = Event::Nothing;
    loop {
        let action = machine.step(event);
        match &action {
            Action::Print(line) => output.push(line.clone()),
            Action::Done => break,
            _ => {}
        }
        event = answer(&action);
    }
    (output, machine.instance.reports)
}

fn texts(tokens: &[Token]) -> Vec<String> {
    tokens.iter().map(|t| t.lexeme.clone()).collect()
}

const SOURCES: [&str; 12] = [
    "1 + 2 * 3;",
    "(1 + 2) * 3;",
    "1 - 2 - 3;",
    "-1, 2;",
    "!!true == false;",
    "1 < 2 == 3 >= 4;",
    "nil or \"a\" and 2;",
    "\"a\" + 1 + \"b\";",
    "1 / 0;",
    "true + 1;",
    "((1.5));",
    "1 + \"x\" == \"1x\" and !nil;",
];

#[test]
fn printed_form_holds_the_tokens_of_the_source() {
    let tokens = printed(&expression("a = (1 + b) * -\"s\" or nil;"));
    assert_eq!(
        texts(&tokens),
        vec!["a", "=", "(", "1", "+", "b", ")", "*", "-", "\"s\"", "or", "nil"]
    );
    let tokens = printed_statement(&expression("true;"), false);
    assert_eq!(texts(&tokens), vec!["true", ";", ""]);
    assert_eq!(tokens[2].token_type, TokenType::Eof);
    let tokens = printed_statement(&expression("1 + 2;"), true);
    assert_eq!(texts(&tokens), vec!["print", "1", "+", "2", ";", ""]);
    assert_eq!(tokens[0].token_type, TokenType::Print);
}

#[test]
fn printed_form_parses_back_to_the_same_tree() {
    for source in SOURCES {
        let e = expression(source);
        let back = reparsed(&e);
        assert_eq!(format!("{:?}", back), format!("{:?}", e), "{}", source);
    }
    let e = expression("a = b = c, d;");
    assert_eq!(format!("{:?}", reparsed(&e)), format!("{:?}", e));
}

#[test]
fn an_expression_and_its_printed_form_evaluate_alike() {
    for source in SOURCES {
        let e = expression(source);
        let back = reparsed(&e);
        assert_eq!(value_printed(back), value_printed(e), "{}", source);
    }
    assert_eq!(value_printed(expression("1 + 2 * 3;")).0, vec!["7"]);
}

#[test]
fn a_tree_that_the_grammar_does_not_give_parses_back_otherwise() {
    let sum = expression("1 + 2;");
    let times = match expression("0 * 3;") {
        Expr::Binary { operator, right, .. } => {
            Expr::Binary { left: Box::new(sum), operator, right }
        }
        other => panic!("{:?}", other),
    };
    let back = reparsed(&times);
    assert_ne!(format!("{:?}", back), format!("{:?}", times));
    assert_eq!(value_printed(times).0, vec!["9"]);
    assert_eq!(value_printed(back).0, vec!["7"]);
}

#[test]
fn the_program_that_prints_the_printed_form_writes_the_value() {
    for source in SOURCES {
        let e = expression(source);
        let mut parser = Parser::parser_builder(printed_statement(&e, true), Lox::default());
        let statements = parser.parse().unwrap();
        let mut machine = Interpreter::build_interpreter(parser.instance);
        machine.interpret(statements);
        let mut output = Vec::new();
        let mut event = Event::Nothing;
        loop {
            let action = machine.step(event);
            match &action {
                Action::Print(line) => output.push(line.clone()),
                Action::Done => break,
                _ => {}
            }
            event = answer(&action);
        }
        assert_eq!((output, machine.instance.reports), value_printed(e), "{}", source);
    }
}

#[test]
fn spelling_puts_a_blank_after_each_token() {
    let tokens = printed(&expression("a=(1+b)*-\"s t\";"));
    assert_eq!(spell_tokens(&tokens), "a = ( 1 + b ) * - \"s t\" ");
    assert_eq!(spell_tokens(&Vec::new()), "");
    assert_eq!(printed_source(&expression("1<=2;")), "print 1 <= 2 ; ");
}

#[test]
fn the_scanner_reads_the_tokens_back_from_their_text() {
    for source in SOURCES {
        let mut scanner = scanner_builder(Lox::default(), source.to_string());
        let mut tokens = scanner.scan_tokens();
        tokens.pop();
        let mut again = scanner_builder(Lox::default(), spell_tokens(&tokens));
        let mut back = again.scan_tokens();
        assert!(again.instance.reports.is_empty());
        assert_eq!(back.pop().unwrap().token_type, TokenType::Eof);
        assert_eq!(format!("{:?}", back), format!("{:?}", tokens), "{}", source);
    }
}

#[test]
fn the_printed_source_runs_as_the_expression_evaluates() {
    for source in SOURCES {
        let e = expression(source);
        let mut machine = Lox::default().run(printed_source(&e));
        let mut output = Vec::new();
        let mut event = Event::Nothing;
        loop {
            let action = machine.step(event);
            match &action {
                Action::Print(line) => output.push(line.clone()),
                Action::Done => break,
                _ => {}
            }
            event = answer(&action);
        }
        assert_eq!((output, machine.instance.reports), value_printed(e), "{}", source);
    }
}
