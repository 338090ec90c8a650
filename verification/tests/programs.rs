//! Whole programs, run by a host that does the arithmetic on doubles and
//! collects what the evaluator asks it to write.

use crlox::interpreter::Action;
use crlox::expression::Expr;
use crlox::interpreter::Control;
use crlox::interpreter::Event;
use crlox::interpreter::Interpreter;
use crlox::interpreter::Operation;
use crlox::interpreter::Style;
use crlox::stmt::Stmt;
use crlox::token::Literal;
use crlox::token::Token;
use crlox::token::TokenType;
use crlox::Lox;

fn answer(action: &Action) -> Event {
    match action {
        Action::Parse(text) => Event::Number(text.parse::<f64>().unwrap().to_bits()),
        Action::Arithmetic(op, a, b) => {
            let x = f64::from_bits(*a);
            let y = f64::from_bits(*b);
            let r = match op {
                Operation::Add => x + y,
                Operation::Subtract => x - y,
                Operation::Multiply => x * y,
                Operation::Divide => x / y,
            };
            Event::Number(r.to_bits())
        }
        Action::Format(Style::Display, n) => Event::Text(format!("{}", f64::from_bits(*n))),
        Action::Format(Style::Debug, n) => Event::Text(format!("{:?}", f64::from_bits(*n))),
        _ => Event::Nothing,
    }
}

struct Run {
    output: Vec<String>,
    errors: Vec<String>,
    reported: Vec<String>,
    exit: u8,
}

fn run(source: &str) -> Run {
    let mut machine = Lox::default().run(source.to_string());
    let mut output = Vec::new();
    let mut reported = Vec::new();
    let mut event = Event::Nothing;
    let mut steps = 0;
    loop {
        let action = machine.step(event);
        steps += 1;
        assert!(steps < 1_000_000, "the program does not end");
        match &action {
            Action::Print(line) => output.push(line.clone()),
            Action::Report(line) => reported.push(line.clone()),
            Action::Done => break,
            _ => {}
        }
        event = answer(&action);
    }
    assert!(machine.is_finished());
    Run {
        output,
        errors: machine.instance.reports.clone(),
        reported,
        exit: machine.instance.exit_code(),
    }
}

#[test]
fn precedence_of_product_over_sum() {
    let r = run("print 1 + 2 * 3;");
    assert_eq!(r.output, vec!["7"]);
    assert!(r.errors.is_empty());
    assert_eq!(r.exit, 0);
}

#[test]
fn sum_of_two_variables() {
    let r = run("var a = 1;\nvar b = 2;\nprint a + b;\n");
    assert_eq!(r.output, vec!["3"]);
    assert_eq!(r.exit, 0);
}

#[test]
fn inner_declaration_shadows_and_does_not_leak() {
    let r = run("var a = \"hi\";\n{ var a = \"bye\"; print a; }\nprint a;\n");
    assert_eq!(r.output, vec!["bye", "hi"]);
    assert_eq!(r.exit, 0);
}

#[test]
fn inner_declaration_is_gone_after_the_block() {
    let r = run("{ var x = 1; }\nprint x;");
    assert!(r.output.is_empty());
    assert_eq!(r.errors, vec!["[line 2] Error at 'x': Undefined variable x."]);
    assert_eq!(r.exit, 70);
}

#[test]
fn while_loop_counts() {
    let r = run("var i = 0;\nwhile (i < 3) { print i; i = i + 1; }\n");
    assert_eq!(r.output, vec!["0", "1", "2"]);
    assert_eq!(r.exit, 0);
}

#[test]
fn for_loop_counts() {
    let r = run("for (var i = 0; i < 2; i = i + 1) print i;");
    assert_eq!(r.output, vec!["0", "1"]);
    assert_eq!(r.exit, 0);
}

#[test]
fn for_loop_without_clauses_but_condition() {
    let r = run("var i = 3; for (; i > 0;) { print i; i = i - 1; }");
    assert_eq!(r.output, vec!["3", "2", "1"]);
}

#[test]
fn for_variable_is_gone_after_the_loop() {
    let r = run("for (var i = 0; i < 1; i = i + 1) {}\nprint i;");
    assert_eq!(r.errors, vec!["[line 2] Error at 'i': Undefined variable i."]);
}

#[test]
fn division_by_zero_is_a_runtime_error() {
    let r = run("print 1 / 0;");
    assert!(r.output.is_empty());
    assert_eq!(r.errors, vec!["[line 1] Error at '/': Can't divide by 0"]);
    assert_eq!(r.reported, r.errors);
    assert_eq!(r.exit, 70);
}

#[test]
fn division_by_negative_zero_is_a_runtime_error() {
    let r = run("print 1 / -0;");
    assert_eq!(r.errors, vec!["[line 1] Error at '/': Can't divide by 0"]);
}

#[test]
fn number_then_string_concatenates() {
    let r = run("print 1 + \"a\";");
    assert_eq!(r.output, vec!["1a"]);
}

#[test]
fn string_then_number_concatenates() {
    let r = run("print \"a\" + 1;");
    assert_eq!(r.output, vec!["a1"]);
}

#[test]
fn two_strings_concatenate() {
    let r = run("print \"foo\" + \"bar\";");
    assert_eq!(r.output, vec!["foobar"]);
}

#[test]
fn fraction_is_kept_in_concatenation() {
    let r = run("print \"x=\" + 2.5;");
    assert_eq!(r.output, vec!["x=2.5"]);
}

#[test]
fn undefined_variable_is_a_runtime_error() {
    let r = run("x;");
    assert_eq!(r.errors, vec!["[line 1] Error at 'x': Undefined variable x."]);
    assert_eq!(r.exit, 70);
}

#[test]
fn assignment_to_undefined_variable_is_a_runtime_error() {
    let r = run("x = 1;");
    assert_eq!(r.errors, vec!["[line 1] Error at 'x': Undefined variable x."]);
    assert_eq!(r.exit, 70);
}

#[test]
fn print_nil_writes_nill() {
    let r = run("print nil;");
    assert_eq!(r.output, vec!["nill"]);
}

#[test]
fn print_of_each_kind_of_value() {
    let r = run("print true; print false; print \"text\"; print 3.0; print 2.5; print 10;");
    assert_eq!(r.output, vec!["true", "false", "text", "3", "2.5", "10"]);
}

#[test]
fn declaration_without_initializer_is_nil() {
    let r = run("var a; print a;");
    assert_eq!(r.output, vec!["nill"]);
}

#[test]
fn redefinition_in_the_same_scope() {
    let r = run("var a = 1; var a = 2; print a;");
    assert_eq!(r.output, vec!["2"]);
}

#[test]
fn assignment_is_an_expression_with_the_value_written() {
    let r = run("var a = 1; print a = 5; print a;");
    assert_eq!(r.output, vec!["5", "5"]);
}

#[test]
fn assignment_is_right_associative() {
    let r = run("var a = 1; var b = 2; a = b = 7; print a; print b;");
    assert_eq!(r.output, vec!["7", "7"]);
}

#[test]
fn assignment_in_a_block_reaches_the_outer_variable() {
    let r = run("var a = 1; { a = 2; var b = 3; } print a;");
    assert_eq!(r.output, vec!["2"]);
}

#[test]
fn unary_minus_and_bang() {
    let r = run("print -3; print --3; print !true; print !nil; print !!0; print !\"\";");
    assert_eq!(r.output, vec!["-3", "3", "false", "true", "true", "false"]);
}

#[test]
fn unary_minus_wants_a_number() {
    let r = run("print -\"a\";");
    assert_eq!(r.errors, vec!["[line 1] Error at '-': Str(\"a\") Must be a number..."]);
    assert_eq!(r.exit, 70);
}

#[test]
fn comparisons() {
    let r = run("print 1 < 2; print 2 <= 2; print 3 > 4; print 4 >= 5; print 1 == 1; print 1 != 1;");
    assert_eq!(r.output, vec!["true", "true", "false", "false", "true", "false"]);
}

#[test]
fn equality_across_kinds_is_false_and_no_error() {
    let r = run("print 1 == \"1\"; print nil == false; print \"a\" == \"a\"; print nil == nil; print true != false;");
    assert_eq!(r.output, vec!["false", "false", "true", "true", "true"]);
    assert_eq!(r.exit, 0);
}

#[test]
fn subtraction_wants_two_numbers() {
    let r = run("print 1 - \"a\";");
    assert_eq!(
        r.errors,
        vec!["[line 1] Error at '-': Num(1.0) and Str(\"a\") must both be numbers"]
    );
    let r = run("print true * 2.5;");
    assert_eq!(r.errors, vec!["[line 1] Error at '*': True and Num(2.5) must both be numbers"]);
    let r = run("print nil < false;");
    assert_eq!(r.errors, vec!["[line 1] Error at '<': Nill and False must both be numbers"]);
}

#[test]
fn addition_wants_strings_or_numbers() {
    let r = run("print true + \"a\";");
    assert_eq!(
        r.errors,
        vec!["[line 1] Error at '+': true and \"a\" must be either a String or a Num"]
    );
    let r = run("print 1 + nil;");
    assert_eq!(
        r.errors,
        vec!["[line 1] Error at '+': 1.0 and nill must be either a String or a Num"]
    );
    let r = run("print nil + 1;");
    assert_eq!(
        r.errors,
        vec!["[line 1] Error at '+': nill and 1.0 must be either a String or a Num"]
    );
}

#[test]
fn message_quotes_a_string_as_debug_does() {
    let r = run("print true + \"a\\b\";");
    assert_eq!(
        r.errors,
        vec!["[line 1] Error at '+': true and \"a\\\\b\" must be either a String or a Num"]
    );
}

#[test]
fn logical_operators_short_circuit() {
    let r = run("print nil or 2; print 1 or x; print nil and x; print 1 and 2; print false or false;");
    assert_eq!(r.output, vec!["2", "1", "nill", "2", "false"]);
    assert_eq!(r.exit, 0);
}

#[test]
fn if_and_else() {
    let r = run("if (1 < 2) print \"yes\"; else print \"no\"; if (nil) print \"a\"; else print \"b\"; if (false) print \"c\";");
    assert_eq!(r.output, vec!["yes", "b"]);
}

#[test]
fn comma_between_primaries_yields_nil() {
    let r = run("print 1, 2;");
    assert_eq!(r.output, vec!["nill"]);
}

#[test]
fn grouping_changes_the_order() {
    let r = run("print (1 + 2) * 3;");
    assert_eq!(r.output, vec!["9"]);
}

#[test]
fn runtime_error_abandons_the_statement_and_the_next_one_runs() {
    let r = run("var a = 1;\n{ var b = 2; print 1 / 0; print b; }\nprint a;\nprint b;");
    assert_eq!(r.output, vec!["1"]);
    assert_eq!(
        r.errors,
        vec![
            "[line 2] Error at '/': Can't divide by 0",
            "[line 4] Error at 'b': Undefined variable b."
        ]
    );
    assert_eq!(r.exit, 70);
}

#[test]
fn failing_operand_reports_once_and_stops_the_expression() {
    let r = run("var a = 1; print (1 / 0) + (a = 2); print a;");
    assert_eq!(r.errors, vec!["[line 1] Error at '/': Can't divide by 0"]);
    assert_eq!(r.output, vec!["1"]);
}

#[test]
fn failing_initializer_declares_nothing() {
    let r = run("var a = 1 / 0;\nprint a;");
    assert_eq!(
        r.errors,
        vec![
            "[line 1] Error at '/': Can't divide by 0",
            "[line 2] Error at 'a': Undefined variable a."
        ]
    );
}

#[test]
fn syntax_error_yields_exit_65_and_runs_nothing() {
    let r = run("print 1;\n(1+2");
    assert!(r.output.is_empty());
    assert_eq!(r.errors, vec!["[line 2] Error at end: Expect ')' after expression."]);
    assert_eq!(r.exit, 65);
}

#[test]
fn lexical_error_yields_exit_65_and_runs_nothing() {
    let r = run("print 1; @");
    assert!(r.output.is_empty());
    assert_eq!(r.errors, vec!["[line 1] Error: Unexpected character."]);
    assert_eq!(r.exit, 65);
}

#[test]
fn empty_source_ends_at_once() {
    let r = run("");
    assert!(r.output.is_empty());
    assert!(r.errors.is_empty());
    assert_eq!(r.exit, 0);
}

#[test]
fn large_and_small_numbers_print_without_exponent() {
    let r = run("print 100000000000000000000000; print 0.1 + 0.2;");
    assert_eq!(r.output, vec!["100000000000000000000000", "0.30000000000000004"]);
}

#[test]
fn an_answer_of_the_wrong_kind_repeats_the_request() {
    let mut machine = Lox::default().run("print 1;".to_string());
    let mut action = machine.step(Event::Nothing);
    let mut guard = 0;
    while !matches!(action, Action::Parse(_)) {
        action = machine.step(Event::Nothing);
        guard += 1;
        assert!(guard < 100);
    }
    let again = machine.step(Event::Text("x".to_string()));
    assert!(matches!(&again, Action::Parse(t) if t == "1"));
    let again = machine.step(Event::Nothing);
    assert!(matches!(&again, Action::Parse(t) if t == "1"));
    let after = machine.step(Event::Number(1f64.to_bits()));
    assert!(matches!(after, Action::Continue));
}

#[test]
fn nested_loops_and_blocks() {
    let r = run("var i = 0; while (i < 2) { var j = 0; while (j < 2) { print i * 10 + j; j = j + 1; } i = i + 1; }");
    assert_eq!(r.output, vec!["0", "1", "10", "11"]);
}

#[test]
fn a_call_is_a_runtime_error_at_the_closing_parenthesis() {
    let paren = Token { token_type: TokenType::RParen, lexeme: ")".to_string(), literal: None, line: 3 };
    let call = Expr::Call {
        callee: Box::new(Expr::Literal { value: Literal::Nill }),
        paren,
        arguments: Vec::new(),
    };
    let mut machine = Interpreter::build_interpreter(Lox::default());
    machine.interpret(vec![Stmt::Print { expression: call }]);
    let mut reported = Vec::new();
    let mut event = Event::Nothing;
    loop {
        let action = machine.step(event);
        match &action {
            Action::Print(line) => panic!("{}", line),
            Action::Report(line) => reported.push(line.clone()),
            Action::Done => break,
            _ => {}
        }
        event = answer(&action);
    }
    assert_eq!(reported, vec!["[line 3] Error at ')': Can only call functions."]);
    assert_eq!(machine.instance.exit_code(), 70);
}

#[test]
fn loading_a_program_drops_what_was_under_execution() {
    let mut machine = Lox::default().run("var g = 1; { var a = 2; print a; }".to_string());
    let mut event = Event::Nothing;
    for _ in 0..12 {
        let action = machine.step(event);
        event = answer(&action);
    }
    assert!(!machine.frames.is_empty());
    assert!(machine.environment.enclosing.is_some());
    machine.interpret(Vec::new());
    assert!(machine.frames.is_empty());
    assert!(machine.environment.enclosing.is_none());
    assert!(matches!(machine.control, Control::Next));
    assert!(machine.is_finished());
    assert!(matches!(machine.step(Event::Nothing), Action::Done));
    assert!(matches!(machine.step(Event::Nothing), Action::Done));
}

#[test]
fn every_block_that_is_entered_is_left() {
    let mut machine = Lox::default().run("{ { var a = 1; { print a; } } var b = 2; } {}".to_string());
    let mut event = Event::Nothing;
    loop {
        let mut depth = 0;
        let mut scope = &machine.environment;
        while let Some(outer) = &scope.enclosing {
            depth += 1;
            scope = outer;
        }
        let open = machine
            .frames
            .iter()
            .filter(|f| matches!(f, crlox::interpreter::Frame::Block { .. }))
            .count();
        assert_eq!(depth, open);
        let action = machine.step(event);
        if matches!(action, Action::Done) {
            break;
        }
        event = answer(&action);
    }
    assert!(machine.environment.enclosing.is_none());
}
