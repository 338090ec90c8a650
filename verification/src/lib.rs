//! A tree-walking interpreter for a small dynamically typed scripting
//! language: scanner, recursive-descent parser, lexically scoped
//! environment and evaluator.
//!
//! A source goes through three stages. The [`scanner`] turns its
//! characters into tokens, the [`parser`] turns the tokens into
//! statements, and the [`interpreter`] executes the statements. All three
//! write their errors to one sink, [`Lox`].
//!
//! The library holds no floating-point code and does no input or output.
//! The evaluator is a machine that the host drives step by step: it asks
//! the host for arithmetic on doubles, which it holds as bits, and tells
//! the host what to write. [`semantics`] says what a program comes to, by
//! recursion on its structure, and proves that the machine computes it.
//! [`printer`] and [`spelling`] prove that the parser and the scanner read
//! back what a printer writes.

use vstd::prelude::*;
use vstd::string::StringExecFns;

pub mod environment;
pub mod expression;
pub mod interpreter;
pub mod number;
pub mod parser;
pub mod printer;
pub mod scanner;
pub mod semantics;
pub mod spelling;
pub mod stmt;
pub mod text;
pub mod token;
pub mod value;

use crate::interpreter::Interpreter;
use crate::interpreter::InterpreterView;
use crate::parser::Parser;
use crate::parser::ParserView;
use crate::scanner::scan;
use crate::scanner::scanner_builder;
use crate::stmt::Stmt;
use crate::text::decimal;
use crate::text::push_decimal;
use crate::token::Token;
use crate::token::TokenType;
use crate::token::TokenView;

verus! {

/// The diagnostic sink: the two error flags, and the lines written to the
/// error stream so far, oldest first.
#[derive(Debug)]
pub struct Lox {
    pub had_error: bool,
    pub had_runtime_error: bool,
    pub reports: Vec<String>,
}

/// The mathematical model of a [`Lox`].
pub struct LoxView {
    pub had_error: bool,
    pub had_runtime_error: bool,
    pub reports: Seq<Seq<char>>,
}

/// The texts of a sequence of strings.
pub open spec fn texts(lines: Seq<String>) -> Seq<Seq<char>> {
    Seq::new(lines.len(), |i: int| lines[i]@)
}

/// One line of diagnostics: `[line N] Error<where>: <message>`.
pub open spec fn report_text(line: int, where_is: Seq<char>, message: Seq<char>) -> Seq<char> {
    "[line "@ + decimal(line as nat) + "] Error"@ + where_is + ": "@ + message
}

/// Where a token's diagnostic points: at the end of the source for the end
/// marker, at the token's text otherwise.
pub open spec fn location(token: TokenView) -> Seq<char> {
    if token.token_type == TokenType::Eof {
        " at end"@
    } else {
        " at '"@ + token.lexeme + "'"@
    }
}

impl LoxView {
    /// The sink after a lexical error on `line`.
    pub open spec fn scanner_error(self, line: int, message: Seq<char>) -> LoxView {
        LoxView {
            had_error: true,
            had_runtime_error: self.had_runtime_error,
            reports: self.reports.push(report_text(line, Seq::empty(), message)),
        }
    }

    /// The sink after a syntax error at `token`.
    pub open spec fn parser_error(self, token: TokenView, message: Seq<char>) -> LoxView {
        LoxView {
            had_error: true,
            had_runtime_error: self.had_runtime_error,
            reports: self.reports.push(report_text(token.line, location(token), message)),
        }
    }

    /// The sink after a runtime error at `token`.
    pub open spec fn interpreter_error(self, token: TokenView, message: Seq<char>) -> LoxView {
        LoxView {
            had_error: self.had_error,
            had_runtime_error: true,
            reports: self.reports.push(report_text(token.line, location(token), message)),
        }
    }

    /// Running tokens up to their execution: the tokens are parsed, and
    /// the statements are loaded into a fresh evaluator. Where the sink
    /// holds a lexical or syntax error, nothing is loaded, so that the
    /// evaluator has ended before its first step.
    pub open spec fn run_tokens(self, tokens: Seq<TokenView>) -> InterpreterView {
        let parsed = (ParserView { tokens, current: 0, sink: self }).parse();
        match parsed.node {
            Some(statements) => InterpreterView::fresh(parsed.parser.sink).load(statements),
            None => InterpreterView::fresh(parsed.parser.sink),
        }
    }

    /// Running a source up to its execution: the source is scanned, and
    /// its tokens are run.
    pub open spec fn run(self, source: Seq<char>) -> InterpreterView {
        let lexed = scan(source, self);
        lexed.sink.run_tokens(lexed.tokens)
    }

    /// The exit status that the flags ask for: 65 after a lexical or syntax
    /// error, 70 after a runtime error, 0 otherwise.
    pub open spec fn exit_code(self) -> u8 {
        if self.had_error {
            65
        } else if self.had_runtime_error {
            70
        } else {
            0
        }
    }
}

impl View for Lox {
    type V = LoxView;

    open spec fn view(&self) -> LoxView {
        LoxView {
            had_error: self.had_error,
            had_runtime_error: self.had_runtime_error,
            reports: texts(self.reports@),
        }
    }
}

impl Default for Lox {
    fn default() -> (r: Self)
        ensures
            r@ == (LoxView { had_error: false, had_runtime_error: false, reports: Seq::empty() }),
    {
        let r = Lox { had_error: false, had_runtime_error: false, reports: Vec::new() };
        assert(r@.reports =~= Seq::empty());
        r
    }
}

impl Lox {
    /// Records a lexical error on `line`.
    pub fn scanner_error(&mut self, line: u32, message: &str)
        ensures
            final(self)@ == old(self)@.scanner_error(line as int, message@),
    {
        if !self.had_error {
            self.had_error = true;
        }
        self.report(line, "", message);
        proof {
            reveal_strlit("");
            assert(""@ =~= Seq::<char>::empty());
        }
    }

    /// Records a syntax error at `token`.
    pub fn parser_error(&mut self, token: Token, message: &str)
        ensures
            final(self)@ == old(self)@.parser_error(token@, message@),
    {
        if !self.had_error {
            self.had_error = true;
        }
        match token.token_type {
            TokenType::Eof => self.report(token.line, " at end", message),
            _ => {
                let place = crate::text::join3(" at '", token.lexeme.as_str(), "'");
                self.report(token.line, place.as_str(), message);
            },
        }
    }

    /// Records a runtime error at `token`.
    pub fn interpreter_error(&mut self, token: Token, message: &str)
        ensures
            final(self)@ == old(self)@.interpreter_error(token@, message@),
    {
        if !self.had_runtime_error {
            self.had_runtime_error = true;
        }
        match token.token_type {
            TokenType::Eof => self.report(token.line, " at end", message),
            _ => {
                let place = crate::text::join3(" at '", token.lexeme.as_str(), "'");
                self.report(token.line, place.as_str(), message);
            },
        }
    }

    /// Writes one formatted line to the sink.
    fn report(&mut self, line: u32, where_is: &str, message: &str)
        ensures
            final(self).had_error == old(self).had_error,
            final(self).had_runtime_error == old(self).had_runtime_error,
            final(self)@.reports == old(self)@.reports.push(
                report_text(line as int, where_is@, message@),
            ),
    {
        let mut text = String::from_str("[line ");
        push_decimal(&mut text, line);
        text.append("] Error");
        text.append(where_is);
        text.append(": ");
        text.append(message);
        self.reports.push(text);
        assert(final(self)@.reports =~= old(self)@.reports.push(
            report_text(line as int, where_is@, message@),
        ));
    }

    /// Scans and parses `input` and returns the evaluator that executes
    /// it, step by step, under the control of the host. The sink of the
    /// evaluator holds the lexical and syntax errors found.
    pub fn run(self, input: String) -> (r: Interpreter)
        requires
            input@.len() < u32::MAX,
        ensures
            r.well_formed(),
            r@ == self@.run(input@),
            r@.instance.had_error ==> r@.finished(),
    {
        proof {
            crate::scanner::scan_ends_with_one_eof(input@, self@);
        }
        let mut a: crate::scanner::Scanner = scanner_builder(self, input);
        let tokens: Vec<crate::token::Token> = a.scan_tokens();
        let mut parser: Parser = Parser::parser_builder(tokens, a.instance);
        assert(parser.well_formed()) by {
            let views = crate::token::token_views(parser.tokens@);
            assert(views.last() == parser.tokens@[parser.tokens.len() - 1]@);
            assert forall|i: int| 0 <= i < parser.tokens.len() implies (
            #[trigger] parser.tokens@[i])@.well_formed() by {
                assert(views[i] == parser.tokens@[i]@);
            }
        }
        let statements: Option<Vec<Stmt>> = parser.parse();
        let mut inter: Interpreter = Interpreter::build_interpreter(parser.instance);
        match statements {
            Some(a) => {
                inter.interpret(a);
            },
            None => {},
        }
        inter
    }

    /// The exit status that the flags ask for.
    pub fn exit_code(&self) -> (r: u8)
        ensures
            r == self@.exit_code(),
    {
        if self.had_error {
            65
        } else if self.had_runtime_error {
            70
        } else {
            0
        }
    }

    /// Clears the flag for lexical and syntax errors, as a prompt does
    /// between two lines. The lines already written stay.
    pub fn reset(&mut self)
        ensures
            final(self)@ == (LoxView { had_error: false, ..old(self)@ }),
    {
        self.had_error = false;
    }
}

} // verus!
