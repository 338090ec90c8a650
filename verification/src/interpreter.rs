//! The evaluator. It is a machine that the host drives: each step takes
//! what the host answered to the last request and returns what the host is
//! to do next. The host owns the two things that the verified code cannot
//! do: arithmetic on doubles, with their conversion from and to text, and
//! writing to the output and error streams.

use vstd::prelude::*;
use vstd::string::StringExecFns;

use crate::environment::undefined;
use crate::environment::Environment;
use crate::environment::EnvironmentView;
use crate::expression::Expr;
use crate::expression::ExprView;
use crate::number::ieee_less;
use crate::number::ieee_less_equal;
use crate::number::ieee_negated;
use crate::number::ieee_zero;
use crate::stmt::stmt_views;
use crate::stmt::Stmt;
use crate::stmt::StmtView;
use crate::text::without_point_zero;
use crate::token::Literal;
use crate::token::LiteralView;
use crate::token::Token;
use crate::token::TokenType;
use crate::token::TokenView;
use crate::value::Value;
use crate::value::ValueView;
use crate::Lox;
use crate::LoxView;

verus! {

/// An operation on two doubles that the host computes.
#[derive(Clone, Copy, Debug, PartialEq, Eq, Structural)]
pub enum Operation {
    Add,
    Subtract,
    Multiply,
    Divide,
}

/// How the host writes a double as text. `Display` is the shortest decimal
/// text that reads back as the same double, written without an exponent;
/// `Debug` is the same digits, with `.0` after a whole number and with an
/// exponent for very large and very small doubles.
#[derive(Clone, Copy, Debug, PartialEq, Eq, Structural)]
pub enum Style {
    Display,
    Debug,
}

/// What becomes of an operator once its operands are known.
#[derive(Debug)]
pub enum Outcome {
    /// The result.
    Value(Value),
    /// The result is the double that the host computes.
    Arithmetic(Operation, u64, u64),
    /// The result is the string made of `before`, the canonical text of
    /// `number` and `after`.
    Concatenation { before: String, number: u64, after: String },
    /// A runtime error. Its message is made of `before`, the `Debug` text
    /// of `number` and `after`.
    Complaint { before: String, number: u64, after: String },
    /// A runtime error with this message.
    Failure(String),
}

/// The mathematical model of an [`Outcome`].
pub enum OutcomeView {
    Value(ValueView),
    Arithmetic(Operation, u64, u64),
    Concatenation { before: Seq<char>, number: u64, after: Seq<char> },
    Complaint { before: Seq<char>, number: u64, after: Seq<char> },
    Failure(Seq<char>),
}

impl View for Outcome {
    type V = OutcomeView;

    open spec fn view(&self) -> OutcomeView {
        match self {
            Outcome::Value(v) => OutcomeView::Value(v@),
            Outcome::Arithmetic(op, a, b) => OutcomeView::Arithmetic(*op, *a, *b),
            Outcome::Concatenation { before, number, after } => OutcomeView::Concatenation {
                before: before@,
                number: *number,
                after: after@,
            },
            Outcome::Complaint { before, number, after } => OutcomeView::Complaint {
                before: before@,
                number: *number,
                after: after@,
            },
            Outcome::Failure(m) => OutcomeView::Failure(m@),
        }
    }
}

/// The error for two operands of which at least one has the wrong kind:
/// both operands as `shown` gives them, joined by " and ", then `tail`.
/// Where one operand is a number, its text is left to the host.
pub open spec fn operand_error(
    left: ValueView,
    right: ValueView,
    tagged: bool,
    tail: Seq<char>,
) -> OutcomeView {
    match (left, right) {
        (ValueView::Num(n), _) => OutcomeView::Complaint {
            before: ValueView::number_opening(tagged),
            number: n,
            after: ValueView::number_closing(tagged) + " and "@ + right.shown(tagged) + tail,
        },
        (_, ValueView::Num(n)) => OutcomeView::Complaint {
            before: left.shown(tagged) + " and "@ + ValueView::number_opening(tagged),
            number: n,
            after: ValueView::number_closing(tagged) + tail,
        },
        _ => OutcomeView::Failure(left.shown(tagged) + " and "@ + right.shown(tagged) + tail),
    }
}

/// What a binary operator does with two values.
///
/// `-`, `*`, `/` and the four comparisons take two numbers; `/` refuses a
/// zero divisor. `+` adds two numbers and concatenates two operands of
/// which one is a string and the other a string or a number. `==` and `!=`
/// compare any two values. Any other token yields `Nill`.
pub open spec fn binary_outcome(op: TokenType, left: ValueView, right: ValueView) -> OutcomeView {
    match op {
        TokenType::Minus => match (left, right) {
            (ValueView::Num(a), ValueView::Num(b)) => OutcomeView::Arithmetic(
                Operation::Subtract,
                a,
                b,
            ),
            _ => operand_error(left, right, true, " must both be numbers"@),
        },
        TokenType::Star => match (left, right) {
            (ValueView::Num(a), ValueView::Num(b)) => OutcomeView::Arithmetic(
                Operation::Multiply,
                a,
                b,
            ),
            _ => operand_error(left, right, true, " must both be numbers"@),
        },
        TokenType::Slash => match (left, right) {
            (ValueView::Num(a), ValueView::Num(b)) => if ieee_zero(b) {
                OutcomeView::Failure("Can't divide by 0"@)
            } else {
                OutcomeView::Arithmetic(Operation::Divide, a, b)
            },
            _ => operand_error(left, right, true, " must both be numbers"@),
        },
        TokenType::Plus => match (left, right) {
            (ValueView::Num(a), ValueView::Str(b)) => OutcomeView::Concatenation {
                before: Seq::empty(),
                number: a,
                after: b,
            },
            (ValueView::Str(a), ValueView::Num(b)) => OutcomeView::Concatenation {
                before: a,
                number: b,
                after: Seq::empty(),
            },
            (ValueView::Str(a), ValueView::Str(b)) => OutcomeView::Value(ValueView::Str(a + b)),
            (ValueView::Num(a), ValueView::Num(b)) => OutcomeView::Arithmetic(
                Operation::Add,
                a,
                b,
            ),
            _ => operand_error(left, right, false, " must be either a String or a Num"@),
        },
        TokenType::Greater => match (left, right) {
            (ValueView::Num(a), ValueView::Num(b)) => OutcomeView::Value(
                ValueView::of_bool(ieee_less(b, a)),
            ),
            _ => operand_error(left, right, true, " must both be numbers"@),
        },
        TokenType::GreaterEqual => match (left, right) {
            (ValueView::Num(a), ValueView::Num(b)) => OutcomeView::Value(
                ValueView::of_bool(ieee_less_equal(b, a)),
            ),
            _ => operand_error(left, right, true, " must both be numbers"@),
        },
        TokenType::Less => match (left, right) {
            (ValueView::Num(a), ValueView::Num(b)) => OutcomeView::Value(
                ValueView::of_bool(ieee_less(a, b)),
            ),
            _ => operand_error(left, right, true, " must both be numbers"@),
        },
        TokenType::LessEqual => match (left, right) {
            (ValueView::Num(a), ValueView::Num(b)) => OutcomeView::Value(
                ValueView::of_bool(ieee_less_equal(a, b)),
            ),
            _ => operand_error(left, right, true, " must both be numbers"@),
        },
        TokenType::BangEqual => OutcomeView::Value(ValueView::of_bool(!left.equals(right))),
        TokenType::EqualEqual => OutcomeView::Value(ValueView::of_bool(left.equals(right))),
        _ => OutcomeView::Value(ValueView::Nill),
    }
}

/// What a unary operator does with a value: `-` negates a number, `!`
/// gives the opposite of the value's truthiness, any other token yields
/// `Nill`.
pub open spec fn unary_outcome(op: TokenType, right: ValueView) -> OutcomeView {
    match op {
        TokenType::Minus => match right {
            ValueView::Num(n) => OutcomeView::Value(ValueView::Num(ieee_negated(n))),
            _ => OutcomeView::Failure(right.shown(true) + " Must be a number..."@),
        },
        TokenType::Bang => OutcomeView::Value(ValueView::of_bool(!right.truthy())),
        _ => OutcomeView::Value(ValueView::Nill),
    }
}

/// What the host is to do before the next step.
#[derive(Debug)]
pub enum Action {
    /// Nothing.
    Continue,
    /// Write this line to the output stream.
    Print(String),
    /// Write this line to the error stream. The sink holds it too.
    Report(String),
    /// Answer with the double nearest to this numeral.
    Parse(String),
    /// Answer with the result of this operation on these two doubles.
    Arithmetic(Operation, u64, u64),
    /// Answer with the text of this double in this style.
    Format(Style, u64),
    /// Nothing: the program has ended.
    Done,
}

/// The mathematical model of an [`Action`].
pub enum ActionView {
    Continue,
    Print(Seq<char>),
    Report(Seq<char>),
    Parse(Seq<char>),
    Arithmetic(Operation, u64, u64),
    Format(Style, u64),
    Done,
}

impl View for Action {
    type V = ActionView;

    open spec fn view(&self) -> ActionView {
        match self {
            Action::Continue => ActionView::Continue,
            Action::Print(s) => ActionView::Print(s@),
            Action::Report(s) => ActionView::Report(s@),
            Action::Parse(s) => ActionView::Parse(s@),
            Action::Arithmetic(op, a, b) => ActionView::Arithmetic(*op, *a, *b),
            Action::Format(style, n) => ActionView::Format(*style, *n),
            Action::Done => ActionView::Done,
        }
    }
}

impl Clone for Action {
    fn clone(&self) -> (r: Self)
        ensures
            r@ == self@,
    {
        match self {
            Action::Continue => Action::Continue,
            Action::Print(s) => Action::Print(s.clone()),
            Action::Report(s) => Action::Report(s.clone()),
            Action::Parse(s) => Action::Parse(s.clone()),
            Action::Arithmetic(op, a, b) => Action::Arithmetic(*op, *a, *b),
            Action::Format(style, n) => Action::Format(*style, *n),
            Action::Done => Action::Done,
        }
    }
}

/// What the host answers to the last action: a double to `Parse` and to
/// `Arithmetic`, a text to `Format`, nothing to the others.
#[derive(Debug)]
pub enum Event {
    Nothing,
    Number(u64),
    Text(String),
}

/// The mathematical model of an [`Event`].
pub enum EventView {
    Nothing,
    Number(u64),
    Text(Seq<char>),
}

impl View for Event {
    type V = EventView;

    open spec fn view(&self) -> EventView {
        match self {
            Event::Nothing => EventView::Nothing,
            Event::Number(n) => EventView::Number(*n),
            Event::Text(s) => EventView::Text(s@),
        }
    }
}

/// What a text that the evaluator waits for is for.
#[derive(Debug)]
pub enum Purpose {
    /// A line to print.
    Print,
    /// The value of a concatenation.
    Concatenation,
    /// The message of a runtime error at this token.
    Complaint(Token),
}

/// The mathematical model of a [`Purpose`].
pub enum PurposeView {
    Print,
    Concatenation,
    Complaint(TokenView),
}

impl View for Purpose {
    type V = PurposeView;

    open spec fn view(&self) -> PurposeView {
        match self {
            Purpose::Print => PurposeView::Print,
            Purpose::Concatenation => PurposeView::Concatenation,
            Purpose::Complaint(t) => PurposeView::Complaint(t@),
        }
    }
}

/// What the evaluator does with the answer that it waits for.
#[derive(Debug)]
pub enum Pending {
    /// The double is the value of the expression under evaluation.
    Number,
    /// The text is put between `before` and `after`, and the whole serves
    /// `purpose`.
    Text { before: String, after: String, purpose: Purpose },
}

/// The mathematical model of a [`Pending`].
pub enum PendingView {
    Number,
    Text { before: Seq<char>, after: Seq<char>, purpose: PurposeView },
}

impl View for Pending {
    type V = PendingView;

    open spec fn view(&self) -> PendingView {
        match self {
            Pending::Number => PendingView::Number,
            Pending::Text { before, after, purpose } => PendingView::Text {
                before: before@,
                after: after@,
                purpose: purpose@,
            },
        }
    }
}

/// What the evaluator does at its next step.
#[derive(Debug)]
pub enum Control {
    /// Take the next statement.
    Next,
    /// Execute this statement.
    Execute(Stmt),
    /// Evaluate this expression.
    Evaluate(Expr),
    /// Hand this value to whatever waits for it.
    Return(Value),
    /// Take the host's answer to this action.
    Await(Action, Pending),
}

/// The mathematical model of a [`Control`].
pub enum ControlView {
    Next,
    Execute(StmtView),
    Evaluate(ExprView),
    Return(ValueView),
    Await(ActionView, PendingView),
}

impl View for Control {
    type V = ControlView;

    open spec fn view(&self) -> ControlView {
        match self {
            Control::Next => ControlView::Next,
            Control::Execute(s) => ControlView::Execute(s@),
            Control::Evaluate(e) => ControlView::Evaluate(e@),
            Control::Return(v) => ControlView::Return(v@),
            Control::Await(a, p) => ControlView::Await(a@, p@),
        }
    }
}

/// What is left to do once the current statement or expression is done.
#[derive(Debug)]
pub enum Frame {
    /// The rest of a block, in its own scope.
    Block { rest: Vec<Stmt> },
    /// A loop whose body is being executed.
    Loop { condition: Expr, body: Stmt },
    /// An expression statement: the value is dropped.
    Discard,
    /// A `print`: the value is written.
    Print,
    /// A declaration: the value is that of the variable.
    Define { name: Token },
    /// An `if`: the value chooses the branch.
    Branch { then_branch: Stmt, else_branch: Option<Stmt> },
    /// A loop whose condition is being evaluated.
    Test { condition: Expr, body: Stmt },
    /// A binary operator whose left operand is being evaluated.
    Left { operator: Token, right: Expr },
    /// A binary operator whose right operand is being evaluated.
    Right { operator: Token, left: Value },
    /// A unary operator.
    Unary { operator: Token },
    /// An assignment: the value is written to the variable.
    Assign { name: Token },
    /// `and` or `or` whose left operand is being evaluated.
    Short { operator: Token, right: Expr },
}

/// The mathematical model of a [`Frame`].
pub enum FrameView {
    Block { rest: Seq<StmtView> },
    Loop { condition: ExprView, body: StmtView },
    Discard,
    Print,
    Define { name: TokenView },
    Branch { then_branch: StmtView, else_branch: Option<StmtView> },
    Test { condition: ExprView, body: StmtView },
    Left { operator: TokenView, right: ExprView },
    Right { operator: TokenView, left: ValueView },
    Unary { operator: TokenView },
    Assign { name: TokenView },
    Short { operator: TokenView, right: ExprView },
}

impl View for Frame {
    type V = FrameView;

    open spec fn view(&self) -> FrameView {
        match self {
            Frame::Block { rest } => FrameView::Block { rest: stmt_views(rest@) },
            Frame::Loop { condition, body } => FrameView::Loop {
                condition: condition@,
                body: body@,
            },
            Frame::Discard => FrameView::Discard,
            Frame::Print => FrameView::Print,
            Frame::Define { name } => FrameView::Define { name: name@ },
            Frame::Branch { then_branch, else_branch } => FrameView::Branch {
                then_branch: then_branch@,
                else_branch: match else_branch {
                    Some(s) => Some(s@),
                    None => None,
                },
            },
            Frame::Test { condition, body } => FrameView::Test {
                condition: condition@,
                body: body@,
            },
            Frame::Left { operator, right } => FrameView::Left {
                operator: operator@,
                right: right@,
            },
            Frame::Right { operator, left } => FrameView::Right { operator: operator@, left: left@ },
            Frame::Unary { operator } => FrameView::Unary { operator: operator@ },
            Frame::Assign { name } => FrameView::Assign { name: name@ },
            Frame::Short { operator, right } => FrameView::Short {
                operator: operator@,
                right: right@,
            },
        }
    }
}

/// The models of a sequence of frames.
pub open spec fn frame_views(frames: Seq<Frame>) -> Seq<FrameView> {
    Seq::new(frames.len(), |i: int| frames[i]@)
}

/// The evaluator: the sink, the environment, the statements of the
/// program that are still to be executed, what is left to do of the
/// statement under execution (innermost last), and what to do next.
#[derive(Debug)]
pub struct Interpreter {
    pub instance: Lox,
    pub environment: Environment,
    pub program: Vec<Stmt>,
    pub frames: Vec<Frame>,
    pub control: Control,
}

/// The mathematical model of an [`Interpreter`].
pub struct InterpreterView {
    pub instance: LoxView,
    pub environment: EnvironmentView,
    pub program: Seq<StmtView>,
    pub frames: Seq<FrameView>,
    pub control: ControlView,
}

impl View for Interpreter {
    type V = InterpreterView;

    open spec fn view(&self) -> InterpreterView {
        InterpreterView {
            instance: self.instance@,
            environment: self.environment@,
            program: stmt_views(self.program@),
            frames: frame_views(self.frames@),
            control: self.control@,
        }
    }
}

/// The text that fills the gap of a pending text: the host's text, without
/// a final ".0" where the style is `Display`.
pub open spec fn filling(action: ActionView, text: Seq<char>) -> Seq<char> {
    match action {
        ActionView::Format(Style::Display, _) => without_point_zero(text),
        _ => text,
    }
}

impl InterpreterView {
    /// The evaluator before a program is loaded.
    pub open spec fn fresh(instance: LoxView) -> InterpreterView {
        InterpreterView {
            instance,
            environment: EnvironmentView::global(),
            program: Seq::empty(),
            frames: Seq::empty(),
            control: ControlView::Next,
        }
    }

    /// The evaluator with `statements` as the program to execute. Whatever
    /// was under execution is dropped, with its scopes; the sink and the
    /// global scope stay.
    pub open spec fn load(self, statements: Seq<StmtView>) -> InterpreterView {
        InterpreterView {
            instance: self.instance,
            environment: self.environment.root(),
            program: statements,
            frames: Seq::empty(),
            control: ControlView::Next,
        }
    }

    /// Whether the program has ended.
    pub open spec fn finished(self) -> bool {
        self.control is Next && self.frames.len() == 0 && self.program.len() == 0
    }

    /// Going on with `control`, with nothing for the host to do.
    pub open spec fn go(self, control: ControlView) -> (InterpreterView, ActionView) {
        (InterpreterView { control, ..self }, ActionView::Continue)
    }

    /// Going on with `control` under one more frame.
    pub open spec fn push(self, frame: FrameView, control: ControlView) -> (
        InterpreterView,
        ActionView,
    ) {
        (
            InterpreterView { frames: self.frames.push(frame), control, ..self },
            ActionView::Continue,
        )
    }

    /// Asking the host for `action` and waiting for the answer.
    pub open spec fn request(self, action: ActionView, pending: PendingView) -> (
        InterpreterView,
        ActionView,
    ) {
        (InterpreterView { control: ControlView::Await(action, pending), ..self }, action)
    }

    /// A runtime error at `token`: the sink records it, the statement of
    /// the program under execution is abandoned with all its scopes, and
    /// the host is to write the line.
    pub open spec fn fail(self, token: TokenView, message: Seq<char>) -> (
        InterpreterView,
        ActionView,
    ) {
        let sink = self.instance.interpreter_error(token, message);
        (
            InterpreterView {
                instance: sink,
                environment: self.environment.root(),
                program: self.program,
                frames: Seq::empty(),
                control: ControlView::Next,
            },
            ActionView::Report(sink.reports.last()),
        )
    }

    /// What follows the application of the operator `operator`.
    pub open spec fn settle(self, operator: TokenView, outcome: OutcomeView) -> (
        InterpreterView,
        ActionView,
    ) {
        match outcome {
            OutcomeView::Value(v) => self.go(ControlView::Return(v)),
            OutcomeView::Arithmetic(op, a, b) => self.request(
                ActionView::Arithmetic(op, a, b),
                PendingView::Number,
            ),
            OutcomeView::Concatenation { before, number, after } => self.request(
                ActionView::Format(Style::Display, number),
                PendingView::Text { before, after, purpose: PurposeView::Concatenation },
            ),
            OutcomeView::Complaint { before, number, after } => self.request(
                ActionView::Format(Style::Debug, number),
                PendingView::Text { before, after, purpose: PurposeView::Complaint(operator) },
            ),
            OutcomeView::Failure(message) => self.fail(operator, message),
        }
    }

    /// Taking the next statement: of the innermost block if one is open,
    /// of the program otherwise. A block that has no statement left is
    /// closed and its scope left; a loop whose body is done evaluates its
    /// condition again. The program ends where nothing is left.
    pub open spec fn next(self) -> (InterpreterView, ActionView) {
        if self.frames.len() == 0 {
            if self.program.len() == 0 {
                (self, ActionView::Done)
            } else {
                (
                    InterpreterView {
                        program: self.program.drop_first(),
                        control: ControlView::Execute(self.program[0]),
                        ..self
                    },
                    ActionView::Continue,
                )
            }
        } else {
            let outer = InterpreterView { frames: self.frames.drop_last(), ..self };
            match self.frames.last() {
                FrameView::Block { rest } => if rest.len() == 0 {
                    (
                        InterpreterView { environment: self.environment.leave(), ..outer },
                        ActionView::Continue,
                    )
                } else {
                    outer.push(
                        FrameView::Block { rest: rest.drop_first() },
                        ControlView::Execute(rest[0]),
                    )
                },
                FrameView::Loop { condition, body } => outer.push(
                    FrameView::Test { condition, body },
                    ControlView::Evaluate(condition),
                ),
                _ => outer.go(ControlView::Next),
            }
        }
    }

    /// Starting a statement.
    pub open spec fn execute(self, stmt: StmtView) -> (InterpreterView, ActionView) {
        match stmt {
            StmtView::Expression { expression } => self.push(
                FrameView::Discard,
                ControlView::Evaluate(expression),
            ),
            StmtView::Print { expression } => self.push(
                FrameView::Print,
                ControlView::Evaluate(expression),
            ),
            StmtView::Var { name, right } => match right {
                Some(e) => self.push(FrameView::Define { name }, ControlView::Evaluate(e)),
                None => (
                    InterpreterView {
                        environment: self.environment.define(name.lexeme, ValueView::Nill),
                        control: ControlView::Next,
                        ..self
                    },
                    ActionView::Continue,
                ),
            },
            StmtView::Block { statements } => (
                InterpreterView {
                    environment: self.environment.child(),
                    frames: self.frames.push(FrameView::Block { rest: statements }),
                    control: ControlView::Next,
                    ..self
                },
                ActionView::Continue,
            ),
            StmtView::If { condition, then_branch, else_branch } => self.push(
                FrameView::Branch {
                    then_branch: *then_branch,
                    else_branch: match else_branch {
                        Some(e) => Some(*e),
                        None => None,
                    },
                },
                ControlView::Evaluate(condition),
            ),
            StmtView::While { condition, body } => self.push(
                FrameView::Test { condition, body: *body },
                ControlView::Evaluate(condition),
            ),
        }
    }

    /// Starting the evaluation of an expression.
    pub open spec fn evaluate(self, expr: ExprView) -> (InterpreterView, ActionView) {
        match expr {
            ExprView::Binary { left, operator, right } => self.push(
                FrameView::Left { operator, right: *right },
                ControlView::Evaluate(*left),
            ),
            ExprView::Grouping { expression } => self.go(ControlView::Evaluate(*expression)),
            ExprView::Literal { value } => match value {
                LiteralView::Str(s) => self.go(ControlView::Return(ValueView::Str(s))),
                LiteralView::Num(numeral) => self.request(
                    ActionView::Parse(numeral),
                    PendingView::Number,
                ),
                LiteralView::False => self.go(ControlView::Return(ValueView::False)),
                LiteralView::True => self.go(ControlView::Return(ValueView::True)),
                LiteralView::Nill => self.go(ControlView::Return(ValueView::Nill)),
            },
            ExprView::Unary { operator, right } => self.push(
                FrameView::Unary { operator },
                ControlView::Evaluate(*right),
            ),
            ExprView::Variable { token } => match self.environment.get(token.lexeme) {
                Some(v) => self.go(ControlView::Return(v)),
                None => self.fail(token, undefined(token.lexeme)),
            },
            ExprView::Assign { name, value } => self.push(
                FrameView::Assign { name },
                ControlView::Evaluate(*value),
            ),
            ExprView::Logical { left, operator, right } => self.push(
                FrameView::Short { operator, right: *right },
                ControlView::Evaluate(*left),
            ),
            ExprView::Call { callee, paren, arguments } => self.fail(
                paren,
                "Can only call functions."@,
            ),
        }
    }

    /// Handing a value to the innermost frame.
    pub open spec fn give(self, value: ValueView) -> (InterpreterView, ActionView) {
        if self.frames.len() == 0 {
            self.go(ControlView::Next)
        } else {
            let outer = InterpreterView { frames: self.frames.drop_last(), ..self };
            match self.frames.last() {
                FrameView::Block { rest } => self.go(ControlView::Next),
                FrameView::Loop { condition, body } => self.go(ControlView::Next),
                FrameView::Discard => outer.go(ControlView::Next),
                FrameView::Print => match value {
                    ValueView::Num(n) => outer.request(
                        ActionView::Format(Style::Display, n),
                        PendingView::Text {
                            before: Seq::empty(),
                            after: Seq::empty(),
                            purpose: PurposeView::Print,
                        },
                    ),
                    _ => (
                        InterpreterView { control: ControlView::Next, ..outer },
                        ActionView::Print(value.canonical(Seq::empty())),
                    ),
                },
                FrameView::Define { name } => (
                    InterpreterView {
                        environment: self.environment.define(name.lexeme, value),
                        control: ControlView::Next,
                        ..outer
                    },
                    ActionView::Continue,
                ),
                FrameView::Branch { then_branch, else_branch } => if value.truthy() {
                    outer.go(ControlView::Execute(then_branch))
                } else {
                    match else_branch {
                        Some(s) => outer.go(ControlView::Execute(s)),
                        None => outer.go(ControlView::Next),
                    }
                },
                FrameView::Test { condition, body } => if value.truthy() {
                    outer.push(FrameView::Loop { condition, body }, ControlView::Execute(body))
                } else {
                    outer.go(ControlView::Next)
                },
                FrameView::Left { operator, right } => outer.push(
                    FrameView::Right { operator, left: value },
                    ControlView::Evaluate(right),
                ),
                FrameView::Right { operator, left } => outer.settle(
                    operator,
                    binary_outcome(operator.token_type, left, value),
                ),
                FrameView::Unary { operator } => outer.settle(
                    operator,
                    unary_outcome(operator.token_type, value),
                ),
                FrameView::Assign { name } => match self.environment.assign(name.lexeme, value) {
                    Some(environment) => (
                        InterpreterView {
                            environment,
                            control: ControlView::Return(value),
                            ..outer
                        },
                        ActionView::Continue,
                    ),
                    None => outer.fail(name, undefined(name.lexeme)),
                },
                FrameView::Short { operator, right } => if (operator.token_type == TokenType::Or)
                    == value.truthy() {
                    outer.go(ControlView::Return(value))
                } else {
                    outer.go(ControlView::Evaluate(right))
                },
            }
        }
    }

    /// Taking the host's answer to `action`. An answer of the wrong kind
    /// changes nothing, and the action is asked for again.
    pub open spec fn resume(self, action: ActionView, pending: PendingView, event: EventView) -> (
        InterpreterView,
        ActionView,
    ) {
        match (pending, event) {
            (PendingView::Number, EventView::Number(n)) => self.go(
                ControlView::Return(ValueView::Num(n)),
            ),
            (PendingView::Text { before, after, purpose }, EventView::Text(text)) => {
                let whole = before + filling(action, text) + after;
                match purpose {
                    PurposeView::Print => (
                        InterpreterView { control: ControlView::Next, ..self },
                        ActionView::Print(whole),
                    ),
                    PurposeView::Concatenation => self.go(
                        ControlView::Return(ValueView::Str(whole)),
                    ),
                    PurposeView::Complaint(token) => self.fail(token, whole),
                }
            },
            _ => (InterpreterView { control: ControlView::Await(action, pending), ..self }, action),
        }
    }

    /// One step of the evaluator.
    pub open spec fn step(self, event: EventView) -> (InterpreterView, ActionView) {
        let base = InterpreterView { control: ControlView::Next, ..self };
        match self.control {
            ControlView::Next => base.next(),
            ControlView::Execute(stmt) => base.execute(stmt),
            ControlView::Evaluate(expr) => base.evaluate(expr),
            ControlView::Return(value) => base.give(value),
            ControlView::Await(action, pending) => base.resume(action, pending, event),
        }
    }
}

/// The frames under one more frame.
pub proof fn frames_pushed(frames: Seq<Frame>, frame: Frame)
    ensures
        frame_views(frames.push(frame)) == frame_views(frames).push(frame@),
{
    assert(frame_views(frames.push(frame)) =~= frame_views(frames).push(frame@));
}

/// The frames without the innermost.
pub proof fn frames_popped(frames: Seq<Frame>)
    requires
        frames.len() > 0,
    ensures
        frame_views(frames.subrange(0, frames.len() - 1)) == frame_views(frames).drop_last(),
        frame_views(frames).last() == frames.last()@,
{
    assert(frame_views(frames.subrange(0, frames.len() - 1)) =~= frame_views(frames).drop_last());
}

/// The statements without the first.
pub proof fn statements_taken(statements: Seq<Stmt>)
    requires
        statements.len() > 0,
    ensures
        stmt_views(statements.remove(0)) == stmt_views(statements).drop_first(),
        stmt_views(statements)[0] == statements[0]@,
{
    assert(stmt_views(statements.remove(0)) =~= stmt_views(statements).drop_first());
}

impl Interpreter {
    /// No scope of the environment holds a name twice.
    pub open spec fn well_formed(&self) -> bool {
        self.environment.well_formed()
    }

    /// An evaluator with an empty global scope and no program.
    pub fn build_interpreter(instance: Lox) -> (r: Interpreter)
        ensures
            r.well_formed(),
            r@ == InterpreterView::fresh(instance@),
    {
        let r = Interpreter {
            instance: instance,
            environment: Environment::default(),
            program: Vec::new(),
            frames: Vec::new(),
            control: Control::Next,
        };
        assert(r@.program =~= Seq::empty());
        assert(r@.frames =~= Seq::empty());
        r
    }

    /// Loads `statements` as the program to execute. Whatever was under
    /// execution is dropped, with its scopes; the sink and the global
    /// scope stay.
    pub fn interpret(&mut self, statements: Vec<Stmt>)
        requires
            old(self).well_formed(),
        ensures
            final(self).well_formed(),
            final(self)@ == old(self)@.load(stmt_views(statements@)),
    {
        self.program = statements;
        self.frames = Vec::new();
        let mut inner = Environment::default();
        core::mem::swap(&mut self.environment, &mut inner);
        self.environment = inner.unwind();
        self.control = Control::Next;
        assert(final(self)@.frames =~= Seq::empty());
    }

    /// Whether the program has ended.
    pub fn is_finished(&self) -> (r: bool)
        ensures
            r == self@.finished(),
    {
        let next = match &self.control {
            Control::Next => true,
            _ => false,
        };
        next && self.frames.len() == 0 && self.program.len() == 0
    }

    /// One step of the evaluator: takes the host's answer to the last
    /// action and returns the next action.
    pub fn step(&mut self, event: Event) -> (r: Action)
        requires
            old(self).well_formed(),
        ensures
            final(self).well_formed(),
            (final(self)@, r@) == old(self)@.step(event@),
    {
        let control = self.take_control();
        match control {
            Control::Next => self.next(),
            Control::Execute(stmt) => self.execute(stmt),
            Control::Evaluate(expr) => self.visit(expr),
            Control::Return(value) => self.give(value),
            Control::Await(action, pending) => self.resume(action, pending, event),
        }
    }

    fn take_control(&mut self) -> (r: Control)
        ensures
            r == old(self).control,
            *final(self) == (Interpreter { control: Control::Next, ..*old(self) }),
    {
        let mut control = Control::Next;
        core::mem::swap(&mut self.control, &mut control);
        control
    }

    fn push_frame(&mut self, frame: Frame)
        ensures
            final(self)@ == (InterpreterView {
                frames: old(self)@.frames.push(frame@),
                ..old(self)@
            }),
            final(self).environment == old(self).environment,
    {
        proof {
            frames_pushed(self.frames@, frame);
        }
        self.frames.push(frame);
    }

    fn pop_frame(&mut self) -> (r: Frame)
        requires
            old(self).frames.len() > 0,
        ensures
            r@ == old(self)@.frames.last(),
            final(self)@ == (InterpreterView {
                frames: old(self)@.frames.drop_last(),
                ..old(self)@
            }),
            final(self).environment == old(self).environment,
    {
        proof {
            frames_popped(self.frames@);
        }
        self.frames.pop().unwrap()
    }

    fn enter_scope(&mut self)
        requires
            old(self).well_formed(),
        ensures
            final(self).well_formed(),
            final(self)@ == (InterpreterView {
                environment: old(self)@.environment.child(),
                ..old(self)@
            }),
    {
        let mut outer = Environment::default();
        core::mem::swap(&mut self.environment, &mut outer);
        self.environment = Environment::build_environment(Box::new(outer));
    }

    fn leave_scope(&mut self)
        requires
            old(self).well_formed(),
        ensures
            final(self).well_formed(),
            final(self)@ == (InterpreterView {
                environment: old(self)@.environment.leave(),
                ..old(self)@
            }),
    {
        let mut inner = Environment::default();
        core::mem::swap(&mut self.environment, &mut inner);
        self.environment = inner.leave();
    }

    /// Records a runtime error at `token` and abandons the statement of
    /// the program under execution.
    fn fail(&mut self, token: Token, message: &str) -> (r: Action)
        requires
            old(self).well_formed(),
        ensures
            final(self).well_formed(),
            (final(self)@, r@) == old(self)@.fail(token@, message@),
    {
        self.instance.interpreter_error(token, message);
        self.frames = Vec::new();
        let mut inner = Environment::default();
        core::mem::swap(&mut self.environment, &mut inner);
        self.environment = inner.unwind();
        self.control = Control::Next;
        assert(final(self)@.frames =~= Seq::empty());
        assert(self.instance@.reports.len() == self.instance.reports.len());
        assert(self.instance@.reports.len() > 0);
        let line = self.instance.reports[self.instance.reports.len() - 1].clone();
        Action::Report(line)
    }

    /// Asks the host for `action` and waits for the answer.
    fn request(&mut self, action: Action, pending: Pending) -> (r: Action)
        ensures
            (final(self)@, r@) == old(self)@.request(action@, pending@),
            final(self).environment == old(self).environment,
    {
        let asked = action.clone();
        self.control = Control::Await(action, pending);
        asked
    }

    /// What follows the application of the operator `operator`.
    fn settle(&mut self, operator: Token, outcome: Outcome) -> (r: Action)
        requires
            old(self).well_formed(),
        ensures
            final(self).well_formed(),
            (final(self)@, r@) == old(self)@.settle(operator@, outcome@),
    {
        match outcome {
            Outcome::Value(v) => {
                self.control = Control::Return(v);
                Action::Continue
            },
            Outcome::Arithmetic(op, a, b) => self.request(
                Action::Arithmetic(op, a, b),
                Pending::Number,
            ),
            Outcome::Concatenation { before, number, after } => self.request(
                Action::Format(Style::Display, number),
                Pending::Text { before: before, after: after, purpose: Purpose::Concatenation },
            ),
            Outcome::Complaint { before, number, after } => self.request(
                Action::Format(Style::Debug, number),
                Pending::Text {
                    before: before,
                    after: after,
                    purpose: Purpose::Complaint(operator),
                },
            ),
            Outcome::Failure(message) => self.fail(operator, message.as_str()),
        }
    }

    /// Takes the next statement.
    fn next(&mut self) -> (r: Action)
        requires
            old(self).well_formed(),
            old(self).control is Next,
        ensures
            final(self).well_formed(),
            (final(self)@, r@) == old(self)@.next(),
    {
        if self.frames.len() == 0 {
            if self.program.len() == 0 {
                return Action::Done;
            }
            proof {
                statements_taken(self.program@);
            }
            let stmt = self.program.remove(0);
            self.control = Control::Execute(stmt);
            return Action::Continue;
        }
        let frame = self.pop_frame();
        match frame {
            Frame::Block { rest } => {
                let mut rest = rest;
                if rest.len() == 0 {
                    self.leave_scope();
                } else {
                    proof {
                        statements_taken(rest@);
                    }
                    let stmt = rest.remove(0);
                    self.push_frame(Frame::Block { rest: rest });
                    self.control = Control::Execute(stmt);
                }
                Action::Continue
            },
            Frame::Loop { condition, body } => {
                let again = condition.clone();
                self.push_frame(Frame::Test { condition: condition, body: body });
                self.control = Control::Evaluate(again);
                Action::Continue
            },
            _ => Action::Continue,
        }
    }

    /// Starts a statement.
    fn execute(&mut self, stmt: Stmt) -> (r: Action)
        requires
            old(self).well_formed(),
            old(self).control is Next,
        ensures
            final(self).well_formed(),
            (final(self)@, r@) == old(self)@.execute(stmt@),
    {
        match stmt {
            Stmt::Expression { expression } => self.visit_expression(expression),
            Stmt::Print { expression } => {
                self.push_frame(Frame::Print);
                self.control = Control::Evaluate(expression);
                Action::Continue
            },
            Stmt::Var { name, right } => match right {
                Some(e) => {
                    self.push_frame(Frame::Define { name: name });
                    self.control = Control::Evaluate(e);
                    Action::Continue
                },
                None => self.visit_var(name, Value::Nill),
            },
            Stmt::Block { statements } => {
                proof {
                    crate::stmt::block_model(statements);
                }
                self.enter_scope();
                self.push_frame(Frame::Block { rest: statements });
                Action::Continue
            },
            Stmt::If { condition, then_branch, else_branch } => {
                let other: Option<Stmt> = match else_branch {
                    Some(e) => Some(*e),
                    None => None,
                };
                self.push_frame(Frame::Branch { then_branch: *then_branch, else_branch: other });
                self.control = Control::Evaluate(condition);
                Action::Continue
            },
            Stmt::While { condition, body } => {
                let first = condition.clone();
                self.push_frame(Frame::Test { condition: condition, body: *body });
                self.control = Control::Evaluate(first);
                Action::Continue
            },
        }
    }

    /// Starts the evaluation of an expression.
    fn visit(&mut self, expr: Expr) -> (r: Action)
        requires
            old(self).well_formed(),
            old(self).control is Next,
        ensures
            final(self).well_formed(),
            (final(self)@, r@) == old(self)@.evaluate(expr@),
    {
        match expr {
            Expr::Binary { left, operator, right } => {
                self.push_frame(Frame::Left { operator: operator, right: *right });
                self.control = Control::Evaluate(*left);
                Action::Continue
            },
            Expr::Grouping { expression } => self.visit_grouping(expression),
            Expr::Literal { value } => self.visit_literal(value),
            Expr::Unary { operator, right } => {
                self.push_frame(Frame::Unary { operator: operator });
                self.control = Control::Evaluate(*right);
                Action::Continue
            },
            Expr::Variable { token } => self.visit_variable(token),
            Expr::Assign { name, value } => {
                self.push_frame(Frame::Assign { name: name });
                self.control = Control::Evaluate(*value);
                Action::Continue
            },
            Expr::Logical { left, operator, right } => {
                self.push_frame(Frame::Short { operator: operator, right: *right });
                self.control = Control::Evaluate(*left);
                Action::Continue
            },
            Expr::Call { callee, paren, arguments } => self.fail(paren, "Can only call functions."),
        }
    }

    /// Hands a value to the innermost frame.
    fn give(&mut self, value: Value) -> (r: Action)
        requires
            old(self).well_formed(),
            old(self).control is Next,
        ensures
            final(self).well_formed(),
            (final(self)@, r@) == old(self)@.give(value@),
    {
        if self.frames.len() == 0 {
            return Action::Continue;
        }
        let statement = match &self.frames[self.frames.len() - 1] {
            Frame::Block { .. } => true,
            Frame::Loop { .. } => true,
            _ => false,
        };
        if statement {
            return Action::Continue;
        }
        let frame = self.pop_frame();
        match frame {
            Frame::Discard => Action::Continue,
            Frame::Print => self.visit_print(value),
            Frame::Define { name } => self.visit_var(name, value),
            Frame::Branch { then_branch, else_branch } => {
                if Self::is_truthy(&value) {
                    self.control = Control::Execute(then_branch);
                } else {
                    match else_branch {
                        Some(s) => {
                            self.control = Control::Execute(s);
                        },
                        None => {},
                    }
                }
                Action::Continue
            },
            Frame::Test { condition, body } => {
                if Self::is_truthy(&value) {
                    let once = body.clone();
                    self.push_frame(Frame::Loop { condition: condition, body: body });
                    self.control = Control::Execute(once);
                }
                Action::Continue
            },
            Frame::Left { operator, right } => {
                self.push_frame(Frame::Right { operator: operator, left: value });
                self.control = Control::Evaluate(right);
                Action::Continue
            },
            Frame::Right { operator, left } => {
                let outcome = Self::visit_binary(operator.token_type, left, value);
                self.settle(operator, outcome)
            },
            Frame::Unary { operator } => {
                let outcome = Self::visit_unary(operator.token_type, value);
                self.settle(operator, outcome)
            },
            Frame::Assign { name } => self.visit_assignment(name, value),
            Frame::Short { operator, right } => {
                if (operator.token_type == TokenType::Or) == Self::is_truthy(&value) {
                    self.control = Control::Return(value);
                } else {
                    self.control = Control::Evaluate(right);
                }
                Action::Continue
            },
            _ => Action::Continue,
        }
    }

    /// Takes the host's answer to `action`.
    fn resume(&mut self, action: Action, pending: Pending, event: Event) -> (r: Action)
        requires
            old(self).well_formed(),
            old(self).control is Next,
        ensures
            final(self).well_formed(),
            (final(self)@, r@) == old(self)@.resume(action@, pending@, event@),
    {
        match pending {
            Pending::Number => match event {
                Event::Number(n) => {
                    self.control = Control::Return(Value::Num(n));
                    Action::Continue
                },
                _ => self.request(action, Pending::Number),
            },
            Pending::Text { before, after, purpose } => match event {
                Event::Text(text) => {
                    let middle: String = match action {
                        Action::Format(Style::Display, _) => crate::text::strip_point_zero(
                            text.as_str(),
                        ),
                        _ => text,
                    };
                    let whole = crate::text::join3(before.as_str(), middle.as_str(), after.as_str());
                    match purpose {
                        Purpose::Print => Action::Print(whole),
                        Purpose::Concatenation => {
                            self.control = Control::Return(Value::Str(whole));
                            Action::Continue
                        },
                        Purpose::Complaint(token) => self.fail(token, whole.as_str()),
                    }
                },
                _ => self.request(
                    action,
                    Pending::Text { before: before, after: after, purpose: purpose },
                ),
            },
        }
    }

    /// An expression statement: the expression is evaluated and its value
    /// dropped.
    fn visit_expression(&mut self, expression: Expr) -> (r: Action)
        ensures
            (final(self)@, r@) == old(self)@.push(
                FrameView::Discard,
                ControlView::Evaluate(expression@),
            ),
            final(self).environment == old(self).environment,
    {
        self.push_frame(Frame::Discard);
        self.control = Control::Evaluate(expression);
        Action::Continue
    }

    /// The value of a `print` statement has arrived: it is written in its
    /// canonical form. The text of a number is asked of the host first.
    fn visit_print(&mut self, value: Value) -> (r: Action)
        requires
            old(self).control is Next,
        ensures
            (final(self)@, r@) == (match value@ {
                ValueView::Num(n) => old(self)@.request(
                    ActionView::Format(Style::Display, n),
                    PendingView::Text {
                        before: Seq::empty(),
                        after: Seq::empty(),
                        purpose: PurposeView::Print,
                    },
                ),
                _ => (old(self)@, ActionView::Print(value@.canonical(Seq::empty()))),
            }),
            final(self).environment == old(self).environment,
    {
        match value {
            Value::Num(n) => self.request(
                Action::Format(Style::Display, n),
                Pending::Text {
                    before: String::new(),
                    after: String::new(),
                    purpose: Purpose::Print,
                },
            ),
            _ => {
                let text = Self::stringify(&value, "");
                Action::Print(text)
            },
        }
    }

    /// The value of a declared variable is known: the variable is
    /// declared in the current scope.
    fn visit_var(&mut self, name: Token, value: Value) -> (r: Action)
        requires
            old(self).well_formed(),
            old(self).control is Next,
        ensures
            final(self).well_formed(),
            r@ == ActionView::Continue,
            final(self)@ == (InterpreterView {
                environment: old(self)@.environment.define(name@.lexeme, value@),
                ..old(self)@
            }),
    {
        self.environment.define(name.lexeme, value);
        Action::Continue
    }

    /// A grouping has the value of the expression that it encloses.
    fn visit_grouping(&mut self, expression: Box<Expr>) -> (r: Action)
        ensures
            (final(self)@, r@) == old(self)@.go(ControlView::Evaluate(expression@)),
            final(self).environment == old(self).environment,
    {
        self.control = Control::Evaluate(*expression);
        Action::Continue
    }

    /// A literal has the value that it writes. The double of a numeral is
    /// asked of the host.
    fn visit_literal(&mut self, value: Literal) -> (r: Action)
        ensures
            (final(self)@, r@) == old(self)@.evaluate(ExprView::Literal { value: value@ }),
            final(self).environment == old(self).environment,
    {
        match value {
            Literal::Str(s) => {
                self.control = Control::Return(Value::Str(s));
                Action::Continue
            },
            Literal::Num(numeral) => self.request(Action::Parse(numeral), Pending::Number),
            Literal::False => {
                self.control = Control::Return(Value::False);
                Action::Continue
            },
            Literal::True => {
                self.control = Control::Return(Value::True);
                Action::Continue
            },
            Literal::Nill => {
                self.control = Control::Return(Value::Nill);
                Action::Continue
            },
        }
    }

    /// A variable has the value that the environment holds for it; a name
    /// that no scope holds is a runtime error.
    fn visit_variable(&mut self, token: Token) -> (r: Action)
        requires
            old(self).well_formed(),
            old(self).control is Next,
        ensures
            final(self).well_formed(),
            (final(self)@, r@) == old(self)@.evaluate(ExprView::Variable { token: token@ }),
    {
        match self.environment.get(token.clone()) {
            Ok(a) => {
                self.control = Control::Return(a);
                Action::Continue
            },
            Err(a) => self.fail(token, a.as_str()),
        }
    }

    /// The value of the right side of an assignment has arrived: it is
    /// written to the variable and is the value of the assignment. A name
    /// that no scope holds is a runtime error.
    fn visit_assignment(&mut self, name: Token, value: Value) -> (r: Action)
        requires
            old(self).well_formed(),
            old(self).control is Next,
        ensures
            final(self).well_formed(),
            (final(self)@, r@) == (match old(self)@.environment.assign(name@.lexeme, value@) {
                Some(environment) => (
                    InterpreterView {
                        environment,
                        control: ControlView::Return(value@),
                        ..old(self)@
                    },
                    ActionView::Continue,
                ),
                None => old(self)@.fail(name@, undefined(name@.lexeme)),
            }),
    {
        match self.environment.assign(name.clone(), value.clone()) {
            Ok(_) => {
                self.control = Control::Return(value);
                Action::Continue
            },
            Err(a) => self.fail(name, a.as_str()),
        }
    }

    /// Truthiness: `Nill` and `False` are false, every other value is true.
    pub fn is_truthy(value: &Value) -> (r: bool)
        ensures
            r == value@.truthy(),
    {
        match value {
            Value::Nill => false,
            Value::False => false,
            Value::True => true,
            _ => true,
        }
    }

    /// Equality of two values.
    pub fn is_equal(left: &Value, right: &Value) -> (r: bool)
        ensures
            r == left@.equals(right@),
    {
        match (left, right) {
            (Value::Nill, Value::Nill) => true,
            (Value::True, Value::True) => true,
            (Value::False, Value::False) => true,
            (Value::Str(a), Value::Str(b)) => *a == *b,
            (Value::Num(a), Value::Num(b)) => crate::number::equal(*a, *b),
            _ => false,
        }
    }

    /// The canonical text of a value, as `print` writes it. For a number,
    /// `number_text` is the `Display` text that the host gave for it; for
    /// any other value it is not read.
    pub fn stringify(value: &Value, number_text: &str) -> (r: String)
        ensures
            r@ == value@.canonical(number_text@),
    {
        match value {
            Value::Nill => String::from_str("nill"),
            Value::Num(_) => crate::text::strip_point_zero(number_text),
            Value::Str(s) => s.clone(),
            Value::True => String::from_str("true"),
            Value::False => String::from_str("false"),
        }
    }

    /// The error for two operands of which at least one has the wrong
    /// kind.
    pub fn binary_error(left: &Value, right: &Value, tagged: bool, tail: &str) -> (r: Outcome)
        ensures
            r@ == operand_error(left@, right@, tagged, tail@),
    {
        match (left, right) {
            (Value::Num(n), _) => {
                let mut after = Value::number_closing(tagged);
                after.append(" and ");
                let shown = right.shown(tagged);
                after.append(shown.as_str());
                after.append(tail);
                Outcome::Complaint { before: Value::number_opening(tagged), number: *n, after }
            },
            (_, Value::Num(n)) => {
                let mut before = left.shown(tagged);
                before.append(" and ");
                let opening = Value::number_opening(tagged);
                before.append(opening.as_str());
                let mut after = Value::number_closing(tagged);
                after.append(tail);
                Outcome::Complaint { before, number: *n, after }
            },
            _ => {
                let mut message = left.shown(tagged);
                message.append(" and ");
                let shown = right.shown(tagged);
                message.append(shown.as_str());
                message.append(tail);
                Outcome::Failure(message)
            },
        }
    }

    /// Applies a binary operator to the values of its operands.
    pub fn visit_binary(operator: TokenType, left: Value, right: Value) -> (r: Outcome)
        ensures
            r@ == binary_outcome(operator, left@, right@),
    {
        match operator {
            // Subtraction
            TokenType::Minus => {
                if let (Value::Num(a), Value::Num(b)) = (&left, &right) {
                    Outcome::Arithmetic(Operation::Subtract, *a, *b)
                } else {
                    Self::binary_error(&left, &right, true, " must both be numbers")
                }
            },
            // Addition
            TokenType::Plus => {
                match (&left, &right) {
                    // String concatenation, with and without numbers
                    (Value::Num(a), Value::Str(b)) => Outcome::Concatenation {
                        before: String::new(),
                        number: *a,
                        after: b.clone(),
                    },
                    (Value::Str(a), Value::Num(b)) => Outcome::Concatenation {
                        before: a.clone(),
                        number: *b,
                        after: String::new(),
                    },
                    (Value::Str(a), Value::Str(b)) => {
                        let mut text = a.clone();
                        text.append(b.as_str());
                        Outcome::Value(Value::Str(text))
                    },
                    // Actual addition
                    (Value::Num(a), Value::Num(b)) => Outcome::Arithmetic(Operation::Add, *a, *b),
                    _ => Self::binary_error(
                        &left,
                        &right,
                        false,
                        " must be either a String or a Num",
                    ),
                }
            },
            // Division
            TokenType::Slash => {
                if let (Value::Num(a), Value::Num(b)) = (&left, &right) {
                    if crate::number::is_zero(*b) {
                        Outcome::Failure(String::from_str("Can't divide by 0"))
                    } else {
                        Outcome::Arithmetic(Operation::Divide, *a, *b)
                    }
                } else {
                    Self::binary_error(&left, &right, true, " must both be numbers")
                }
            },
            // Multiplication
            TokenType::Star => {
                if let (Value::Num(a), Value::Num(b)) = (&left, &right) {
                    Outcome::Arithmetic(Operation::Multiply, *a, *b)
                } else {
                    Self::binary_error(&left, &right, true, " must both be numbers")
                }
            },
            TokenType::Greater => {
                if let (Value::Num(a), Value::Num(b)) = (&left, &right) {
                    Outcome::Value(Value::of_bool(crate::number::less(*b, *a)))
                } else {
                    Self::binary_error(&left, &right, true, " must both be numbers")
                }
            },
            TokenType::GreaterEqual => {
                if let (Value::Num(a), Value::Num(b)) = (&left, &right) {
                    Outcome::Value(Value::of_bool(crate::number::less_equal(*b, *a)))
                } else {
                    Self::binary_error(&left, &right, true, " must both be numbers")
                }
            },
            TokenType::Less => {
                if let (Value::Num(a), Value::Num(b)) = (&left, &right) {
                    Outcome::Value(Value::of_bool(crate::number::less(*a, *b)))
                } else {
                    Self::binary_error(&left, &right, true, " must both be numbers")
                }
            },
            TokenType::LessEqual => {
                if let (Value::Num(a), Value::Num(b)) = (&left, &right) {
                    Outcome::Value(Value::of_bool(crate::number::less_equal(*a, *b)))
                } else {
                    Self::binary_error(&left, &right, true, " must both be numbers")
                }
            },
            TokenType::BangEqual => Outcome::Value(
                Value::of_bool(!Self::is_equal(&left, &right)),
            ),
            TokenType::EqualEqual => Outcome::Value(Value::of_bool(Self::is_equal(&left, &right))),
            _ => Outcome::Value(Value::Nill),
        }
    }

    /// Applies a unary operator to the value of its operand.
    pub fn visit_unary(operator: TokenType, right: Value) -> (r: Outcome)
        ensures
            r@ == unary_outcome(operator, right@),
    {
        match operator {
            TokenType::Minus => {
                match right {
                    Value::Num(n) => Outcome::Value(Value::Num(crate::number::negate(n))),
                    _ => {
                        let mut message = right.shown(true);
                        message.append(" Must be a number...");
                        Outcome::Failure(message)
                    },
                }
            },
            TokenType::Bang => Outcome::Value(Value::of_bool(!Self::is_truthy(&right))),
            _ => Outcome::Value(Value::Nill),
        }
    }
}

/// An assignment, followed at once by a use of the variable: the
/// assignment writes the value and has it as its own value, and the
/// variable then reads as that value, in the same scope.
pub proof fn assignment_then_use(
    machine: InterpreterView,
    name: TokenView,
    usage: TokenView,
    value: ValueView,
)
    requires
        machine.frames.len() > 0,
        machine.frames.last() == (FrameView::Assign { name }),
        machine.environment.get(name.lexeme) is Some,
        usage.lexeme == name.lexeme,
    ensures
        ({
            let written = machine.give(value);
            let read = written.0.evaluate(ExprView::Variable { token: usage });
            &&& written.1 == ActionView::Continue
            &&& written.0.control == ControlView::Return(value)
            &&& written.0.frames == machine.frames.drop_last()
            &&& read.1 == ActionView::Continue
            &&& read.0.control == ControlView::Return(value)
            &&& read.0.environment == written.0.environment
        }),
{
    crate::environment::write_then_read(machine.environment, name.lexeme, value);
}

/// A declaration, followed at once by a use of the variable, reads the
/// value declared.
pub proof fn declaration_then_use(
    machine: InterpreterView,
    name: TokenView,
    usage: TokenView,
    value: ValueView,
)
    requires
        machine.frames.len() > 0,
        machine.frames.last() == (FrameView::Define { name }),
        usage.lexeme == name.lexeme,
    ensures
        ({
            let declared = machine.give(value);
            let read = declared.0.evaluate(ExprView::Variable { token: usage });
            &&& declared.1 == ActionView::Continue
            &&& declared.0.control == ControlView::Next
            &&& read.0.control == ControlView::Return(value)
        }),
{
    crate::environment::write_then_read(machine.environment, name.lexeme, value);
}

/// The number of blocks that are open: the block frames among `frames`.
pub open spec fn open_blocks(frames: Seq<FrameView>) -> nat
    decreases frames.len(),
{
    if frames.len() == 0 {
        0
    } else {
        open_blocks(frames.drop_last()) + if frames.last() is Block {
            1nat
        } else {
            0nat
        }
    }
}

impl InterpreterView {
    /// Whether block entries and exits are balanced: the environment has
    /// one scope inside the global scope for each block that is open.
    pub open spec fn balanced(self) -> bool {
        self.environment.depth() == open_blocks(self.frames)
    }
}

/// One more frame opens one more block where it is a block frame, and
/// none otherwise.
pub proof fn open_blocks_pushed(frames: Seq<FrameView>, frame: FrameView)
    ensures
        open_blocks(frames.push(frame)) == open_blocks(frames) + if frame is Block {
            1nat
        } else {
            0nat
        },
{
    assert(frames.push(frame).drop_last() =~= frames);
}

/// Block entry and exit are balanced in every state that the evaluator
/// reaches. A fresh evaluator is balanced, loading a program keeps it so
/// while no block is open, and so does every step, whatever the host
/// answers: entering a block opens one scope, leaving it closes one, and
/// a runtime error closes them all.
pub proof fn steps_keep_the_balance(machine: InterpreterView, event: EventView)
    requires
        machine.balanced(),
    ensures
        machine.step(event).0.balanced(),
{
    let base = InterpreterView { control: ControlView::Next, ..machine };
    let after = machine.step(event).0;
    crate::environment::root_is_global(machine.environment);
    assert(open_blocks(Seq::<FrameView>::empty()) == 0);
    assert(machine.environment.root().depth() == 0);
    if machine.frames.len() > 0 {
        let outer = machine.frames.drop_last();
        let top = machine.frames.last();
        open_blocks_pushed(outer, FrameView::Discard);
        match machine.control {
            ControlView::Next => {
                match top {
                    FrameView::Block { rest } => {
                        open_blocks_pushed(outer, FrameView::Block { rest: rest.drop_first() });
                    },
                    FrameView::Loop { condition, body } => {
                        open_blocks_pushed(outer, FrameView::Test { condition, body });
                    },
                    _ => {},
                }
            },
            ControlView::Return(value) => {
                match top {
                    FrameView::Test { condition, body } => {
                        open_blocks_pushed(outer, FrameView::Loop { condition, body });
                    },
                    FrameView::Left { operator, right } => {
                        open_blocks_pushed(outer, FrameView::Right { operator, left: value });
                    },
                    FrameView::Assign { name } => {
                        crate::environment::assign_keeps_the_chain(
                            machine.environment,
                            name.lexeme,
                            value,
                        );
                    },
                    _ => {},
                }
            },
            _ => {},
        }
    }
    match machine.control {
        ControlView::Execute(stmt) => {
            match stmt {
                StmtView::Expression { expression } => {
                    open_blocks_pushed(machine.frames, FrameView::Discard);
                },
                StmtView::Print { expression } => {
                    open_blocks_pushed(machine.frames, FrameView::Print);
                },
                StmtView::Var { name, right } => {
                    open_blocks_pushed(machine.frames, FrameView::Define { name });
                },
                StmtView::Block { statements } => {
                    open_blocks_pushed(machine.frames, FrameView::Block { rest: statements });
                },
                StmtView::If { condition, then_branch, else_branch } => {
                    open_blocks_pushed(
                        machine.frames,
                        FrameView::Branch {
                            then_branch: *then_branch,
                            else_branch: match else_branch {
                                Some(e) => Some(*e),
                                None => None,
                            },
                        },
                    );
                },
                StmtView::While { condition, body } => {
                    open_blocks_pushed(machine.frames, FrameView::Test { condition, body: *body });
                },
            }
        },
        ControlView::Evaluate(expr) => {
            match expr {
                ExprView::Binary { left, operator, right } => {
                    open_blocks_pushed(machine.frames, FrameView::Left { operator, right: *right });
                },
                ExprView::Unary { operator, right } => {
                    open_blocks_pushed(machine.frames, FrameView::Unary { operator });
                },
                ExprView::Assign { name, value } => {
                    open_blocks_pushed(machine.frames, FrameView::Assign { name });
                },
                ExprView::Logical { left, operator, right } => {
                    open_blocks_pushed(machine.frames, FrameView::Short { operator, right: *right });
                },
                _ => {},
            }
        },
        _ => {},
    }
}

/// A fresh evaluator is balanced, and so is every evaluator into which a
/// program was loaded: no block is open, and the environment is the
/// global scope. Into a fresh evaluator, loading puts the program and
/// nothing else.
pub proof fn loading_gives_a_balance(
    machine: InterpreterView,
    sink: LoxView,
    statements: Seq<StmtView>,
)
    ensures
        InterpreterView::fresh(sink).balanced(),
        machine.load(statements).balanced(),
        InterpreterView::fresh(sink).load(statements) == (InterpreterView {
            program: statements,
            ..InterpreterView::fresh(sink)
        }),
{
    assert(open_blocks(Seq::<FrameView>::empty()) == 0);
    crate::environment::root_is_global(machine.environment);
    crate::environment::root_is_global(EnvironmentView::global());
}

/// A runtime error leaves no scope open: whatever blocks were entered,
/// the environment after the error is the global scope, no frame is left,
/// and the runtime flag is set. The rest of the program stays.
pub proof fn runtime_error_closes_every_scope(
    machine: InterpreterView,
    token: TokenView,
    message: Seq<char>,
)
    ensures
        ({
            let after = machine.fail(token, message).0;
            &&& after.environment == machine.environment.root()
            &&& after.environment.enclosing is None
            &&& after.frames.len() == 0
            &&& after.program == machine.program
            &&& after.instance.had_runtime_error
            &&& after.instance.had_error == machine.instance.had_error
            &&& after.instance.exit_code() != 0
        }),
{
    crate::environment::root_is_global(machine.environment);
}

/// Truthiness is total, and negating twice keeps it: the value of `!!x` is
/// true exactly when `x` is truthy.
pub proof fn double_negation_keeps_truthiness(x: ValueView)
    ensures
        x.truthy() || !x.truthy(),
        unary_outcome(TokenType::Bang, x) is Value,
        unary_outcome(TokenType::Bang, unary_outcome(TokenType::Bang, x)->Value_0)
            == OutcomeView::Value(ValueView::of_bool(x.truthy())),
        ValueView::of_bool(x.truthy()).truthy() == x.truthy(),
{
}

/// Equality is reflexive on strings, on truth values, on `Nill` and on
/// every number but those that are not a number, and `==` says so.
pub proof fn equality_is_reflexive(x: ValueView)
    requires
        x matches ValueView::Num(n) ==> !crate::number::ieee_nan(n),
    ensures
        x.equals(x),
        binary_outcome(TokenType::EqualEqual, x, x) == OutcomeView::Value(ValueView::True),
        binary_outcome(TokenType::BangEqual, x, x) == OutcomeView::Value(ValueView::False),
{
}

/// Equality is symmetric, and what is not a number equals nothing, not even
/// itself.
pub proof fn equality_is_symmetric(x: ValueView, y: ValueView)
    ensures
        x.equals(y) == y.equals(x),
        x matches ValueView::Num(n) && crate::number::ieee_nan(n) ==> !x.equals(y),
{
}

} // verus!
