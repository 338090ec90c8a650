//! What an expression evaluates to, by recursion on its structure, and
//! the proof that the evaluator computes it: driven by a host, the machine
//! that starts on an expression arrives, after a number of steps that the
//! expression determines, at the value of the expression or at its runtime
//! error.

use vstd::prelude::*;

use crate::environment::undefined;
use crate::environment::EnvironmentView;
use crate::expression::ExprView;
use crate::interpreter::binary_outcome;
use crate::interpreter::unary_outcome;
use crate::interpreter::ActionView;
use crate::interpreter::ControlView;
use crate::interpreter::EventView;
use crate::interpreter::FrameView;
use crate::interpreter::InterpreterView;
use crate::interpreter::Operation;
use crate::interpreter::OutcomeView;
use crate::interpreter::Style;
use crate::stmt::StmtView;
use crate::text::without_point_zero;
use crate::token::LiteralView;
use crate::token::TokenType;
use crate::token::TokenView;
use crate::LoxView;
use crate::value::ValueView;

verus! {

/// A host, as the answers that it gives: the double of a numeral, the
/// result of an operation on two doubles, and the text of a double.
pub struct Host {
    pub parse: spec_fn(Seq<char>) -> u64,
    pub compute: spec_fn(Operation, u64, u64) -> u64,
    pub format: spec_fn(Style, u64) -> Seq<char>,
}

/// What the evaluation of an expression comes to, with the environment
/// that it leaves: a value, or a runtime error at a token.
pub enum Evaluated {
    Value { value: ValueView, environment: EnvironmentView },
    Error { token: TokenView, message: Seq<char>, environment: EnvironmentView },
}

impl Evaluated {
    /// The environment that the evaluation leaves.
    pub open spec fn environment(self) -> EnvironmentView {
        match self {
            Evaluated::Value { value, environment } => environment,
            Evaluated::Error { token, message, environment } => environment,
        }
    }
}

/// What an operator comes to, once the host has done its part.
pub open spec fn finish(
    outcome: OutcomeView,
    operator: TokenView,
    environment: EnvironmentView,
    host: Host,
) -> Evaluated {
    match outcome {
        OutcomeView::Value(value) => Evaluated::Value { value, environment },
        OutcomeView::Arithmetic(op, a, b) => Evaluated::Value {
            value: ValueView::Num((host.compute)(op, a, b)),
            environment,
        },
        OutcomeView::Concatenation { before, number, after } => Evaluated::Value {
            value: ValueView::Str(
                before + without_point_zero((host.format)(Style::Display, number)) + after,
            ),
            environment,
        },
        OutcomeView::Complaint { before, number, after } => Evaluated::Error {
            token: operator,
            message: before + (host.format)(Style::Debug, number) + after,
            environment,
        },
        OutcomeView::Failure(message) => Evaluated::Error { token: operator, message, environment },
    }
}

/// The number of steps that an operator takes once its operands are
/// known: one, and one more where the host has a part.
pub open spec fn finish_cost(outcome: OutcomeView) -> nat {
    match outcome {
        OutcomeView::Value(_) => 1nat,
        OutcomeView::Failure(_) => 1nat,
        _ => 2nat,
    }
}

/// Whether the value of the left operand decides a logical operator: a
/// truthy value decides `or`, a falsy one decides `and`.
pub open spec fn decides(operator: TokenView, value: ValueView) -> bool {
    (operator.token_type == TokenType::Or) == value.truthy()
}

/// What an expression evaluates to in an environment.
///
/// A literal is its value, a grouping that of its expression, a variable
/// what the environment holds for it. The operands of an operator are
/// evaluated from left to right, each in the environment that the one
/// before left; the first error ends the evaluation. A logical operator
/// evaluates its right operand only where the left does not decide. An
/// assignment writes the value of its right side and has that value.
pub open spec fn eval(e: ExprView, environment: EnvironmentView, host: Host) -> Evaluated
    decreases e,
{
    match e {
        ExprView::Literal { value } => Evaluated::Value {
            value: match value {
                LiteralView::Str(s) => ValueView::Str(s),
                LiteralView::Num(numeral) => ValueView::Num((host.parse)(numeral)),
                LiteralView::False => ValueView::False,
                LiteralView::True => ValueView::True,
                LiteralView::Nill => ValueView::Nill,
            },
            environment,
        },
        ExprView::Grouping { expression } => eval(*expression, environment, host),
        ExprView::Variable { token } => match environment.get(token.lexeme) {
            Some(value) => Evaluated::Value { value, environment },
            None => Evaluated::Error { token, message: undefined(token.lexeme), environment },
        },
        ExprView::Unary { operator, right } => match eval(*right, environment, host) {
            Evaluated::Value { value, environment } => finish(
                unary_outcome(operator.token_type, value),
                operator,
                environment,
                host,
            ),
            error => error,
        },
        ExprView::Binary { left, operator, right } => match eval(*left, environment, host) {
            Evaluated::Value { value: first, environment } => match eval(
                *right,
                environment,
                host,
            ) {
                Evaluated::Value { value: second, environment } => finish(
                    binary_outcome(operator.token_type, first, second),
                    operator,
                    environment,
                    host,
                ),
                error => error,
            },
            error => error,
        },
        ExprView::Assign { name, value } => match eval(*value, environment, host) {
            Evaluated::Value { value, environment } => match environment.assign(
                name.lexeme,
                value,
            ) {
                Some(written) => Evaluated::Value { value, environment: written },
                None => Evaluated::Error {
                    token: name,
                    message: undefined(name.lexeme),
                    environment,
                },
            },
            error => error,
        },
        ExprView::Logical { left, operator, right } => match eval(*left, environment, host) {
            Evaluated::Value { value, environment } => if decides(operator, value) {
                Evaluated::Value { value, environment }
            } else {
                eval(*right, environment, host)
            },
            error => error,
        },
        ExprView::Call { callee, paren, arguments } => Evaluated::Error {
            token: paren,
            message: "Can only call functions."@,
            environment,
        },
    }
}

/// The number of steps that the evaluator takes on an expression.
pub open spec fn cost(e: ExprView, environment: EnvironmentView, host: Host) -> nat
    decreases e,
{
    match e {
        ExprView::Literal { value } => if value is Num {
            2nat
        } else {
            1nat
        },
        ExprView::Grouping { expression } => 1 + cost(*expression, environment, host),
        ExprView::Variable { token } => 1,
        ExprView::Unary { operator, right } => 1 + cost(*right, environment, host) + match eval(
            *right,
            environment,
            host,
        ) {
            Evaluated::Value { value, environment } => finish_cost(
                unary_outcome(operator.token_type, value),
            ),
            _ => 0nat,
        },
        ExprView::Binary { left, operator, right } => 1 + cost(*left, environment, host) + match eval(
            *left,
            environment,
            host,
        ) {
            Evaluated::Value { value: first, environment } => 1 + cost(*right, environment, host)
                + match eval(*right, environment, host) {
                Evaluated::Value { value: second, environment } => finish_cost(
                    binary_outcome(operator.token_type, first, second),
                ),
                _ => 0nat,
            },
            _ => 0nat,
        },
        ExprView::Assign { name, value } => 1 + cost(*value, environment, host) + match eval(
            *value,
            environment,
            host,
        ) {
            Evaluated::Value { value, environment } => 1nat,
            _ => 0nat,
        },
        ExprView::Logical { left, operator, right } => 1 + cost(*left, environment, host) + match eval(
            *left,
            environment,
            host,
        ) {
            Evaluated::Value { value, environment } => 1 + if decides(operator, value) {
                0nat
            } else {
                cost(*right, environment, host)
            },
            _ => 0nat,
        },
        ExprView::Call { callee, paren, arguments } => 1,
    }
}

/// What the host answers to an action.
pub open spec fn answer(action: ActionView, host: Host) -> EventView {
    match action {
        ActionView::Parse(numeral) => EventView::Number((host.parse)(numeral)),
        ActionView::Arithmetic(op, a, b) => EventView::Number((host.compute)(op, a, b)),
        ActionView::Format(style, n) => EventView::Text((host.format)(style, n)),
        _ => EventView::Nothing,
    }
}

/// An evaluator under the control of a host: the evaluator, and the
/// host's answer to its last action.
pub struct Running {
    pub machine: InterpreterView,
    pub event: EventView,
    pub output: Seq<Seq<char>>,
}

impl Running {
    /// One step, and the host's answer to it. A line that the step asks
    /// to print is written to the output.
    pub open spec fn advance(self, host: Host) -> Running {
        let (machine, action) = self.machine.step(self.event);
        Running {
            machine,
            event: answer(action, host),
            output: match action {
                ActionView::Print(line) => self.output.push(line),
                _ => self.output,
            },
        }
    }

    /// `n` steps.
    pub open spec fn run(self, host: Host, n: nat) -> Running
        decreases n,
    {
        if n == 0 {
            self
        } else {
            self.advance(host).run(host, (n - 1) as nat)
        }
    }
}

/// Where the evaluator arrives from `start` when the expression that it
/// started on comes to `result`: at the value, to be handed to the
/// innermost frame, or at the state that the runtime error leaves.
pub open spec fn arrival(start: InterpreterView, result: Evaluated) -> InterpreterView {
    match result {
        Evaluated::Value { value, environment } => InterpreterView {
            environment,
            control: ControlView::Return(value),
            ..start
        },
        Evaluated::Error { token, message, environment } => (InterpreterView {
            environment,
            ..start
        }).fail(token, message).0,
    }
}

/// Running `a + b` steps is running `a` steps and then `b` steps.
pub proof fn run_in_two(start: Running, host: Host, a: nat, b: nat)
    ensures
        start.run(host, a + b) == start.run(host, a).run(host, b),
    decreases a,
{
    if a > 0 {
        run_in_two(start.advance(host), host, (a - 1) as nat, b);
        assert(start.run(host, a + b) == start.advance(host).run(host, (a + b - 1) as nat));
    }
}

/// Running one step is advancing once.
pub proof fn run_once(start: Running, host: Host)
    ensures
        start.run(host, 1) == start.advance(host),
{
    reveal_with_fuel(Running::run, 2);
}

/// After an operator was applied, the evaluator arrives at what the
/// operator comes to, in as many steps as `finish_cost` says.
pub proof fn operator_finishes(
    start: Running,
    frames: Seq<FrameView>,
    operator: TokenView,
    operand: ValueView,
    outcome: OutcomeView,
    host: Host,
)
    requires
        start.machine.control == ControlView::Return(operand),
        start.machine.frames.len() > 0,
        start.machine.frames.drop_last() == frames,
        start.machine.step(start.event) == (InterpreterView {
            control: ControlView::Next,
            frames,
            ..start.machine
        }).settle(operator, outcome),
    ensures
        start.run(host, finish_cost(outcome)).machine == arrival(
            InterpreterView { frames, ..start.machine },
            finish(outcome, operator, start.machine.environment, host),
        ),
        start.run(host, finish_cost(outcome)).output == start.output,
{
    reveal_with_fuel(Running::run, 3);
    let first = start.advance(host);
    match outcome {
        OutcomeView::Value(_) => {},
        OutcomeView::Failure(_) => {},
        _ => {
            let second = first.advance(host);
            assert(start.run(host, 2) == second);
        },
    }
}

proof fn evaluates_grouping(start: Running, e: ExprView, host: Host)
    requires
        start.machine.control == ControlView::Evaluate(e),
        e is Grouping,
    ensures
        start.run(host, cost(e, start.machine.environment, host)).machine == arrival(
            start.machine,
            eval(e, start.machine.environment, host),
        ),
        start.run(host, cost(e, start.machine.environment, host)).output == start.output,
    decreases e, 0nat,
{
    let expression = *e->Grouping_expression;
    let first = start.advance(host);
    run_once(start, host);
    run_in_two(start, host, 1, cost(expression, start.machine.environment, host));
    machine_evaluates(first, expression, host);
}

proof fn evaluates_unary(start: Running, e: ExprView, host: Host)
    requires
        start.machine.control == ControlView::Evaluate(e),
        e is Unary,
    ensures
        start.run(host, cost(e, start.machine.environment, host)).machine == arrival(
            start.machine,
            eval(e, start.machine.environment, host),
        ),
        start.run(host, cost(e, start.machine.environment, host)).output == start.output,
    decreases e, 0nat,
{
    let operator = e->Unary_operator;
    let right = *e->Unary_right;
    let machine = start.machine;
    let env = machine.environment;
    let first = start.advance(host);
    run_once(start, host);
    let inner = cost(right, env, host);
    run_in_two(start, host, 1, inner);
    machine_evaluates(first, right, host);
    let second = first.run(host, inner);
    assert(first.machine.frames == machine.frames.push(FrameView::Unary { operator }));
    assert(first.machine.frames.drop_last() =~= machine.frames);
    match eval(right, env, host) {
        Evaluated::Value { value, environment } => {
            let outcome = unary_outcome(operator.token_type, value);
            run_in_two(start, host, 1 + inner, finish_cost(outcome));
            operator_finishes(second, machine.frames, operator, value, outcome, host);
        },
        _ => {},
    }
}

proof fn evaluates_binary(start: Running, e: ExprView, host: Host)
    requires
        start.machine.control == ControlView::Evaluate(e),
        e is Binary,
    ensures
        start.run(host, cost(e, start.machine.environment, host)).machine == arrival(
            start.machine,
            eval(e, start.machine.environment, host),
        ),
        start.run(host, cost(e, start.machine.environment, host)).output == start.output,
    decreases e, 0nat,
{
    let operator = e->Binary_operator;
    let left = *e->Binary_left;
    let right = *e->Binary_right;
    let machine = start.machine;
    let env = machine.environment;
    let first = start.advance(host);
    run_once(start, host);
    let inner = cost(left, env, host);
    run_in_two(start, host, 1, inner);
    machine_evaluates(first, left, host);
    let second = first.run(host, inner);
    assert(first.machine.frames == machine.frames.push(FrameView::Left { operator, right }));
    assert(first.machine.frames.drop_last() =~= machine.frames);
    match eval(left, env, host) {
        Evaluated::Value { value: lv, environment: env1 } => {
            let third = second.advance(host);
            run_once(second, host);
            run_in_two(start, host, 1 + inner, 1);
            assert(third.machine.control == ControlView::Evaluate(right));
            assert(third.machine.frames == machine.frames.push(
                FrameView::Right { operator, left: lv },
            ));
            assert(third.machine.frames.drop_last() =~= machine.frames);
            let more = cost(right, env1, host);
            run_in_two(start, host, 2 + inner, more);
            machine_evaluates(third, right, host);
            let fourth = third.run(host, more);
            match eval(right, env1, host) {
                Evaluated::Value { value: rv, environment: env2 } => {
                    let outcome = binary_outcome(operator.token_type, lv, rv);
                    run_in_two(start, host, 2 + inner + more, finish_cost(outcome));
                    operator_finishes(fourth, machine.frames, operator, rv, outcome, host);
                },
                _ => {},
            }
        },
        _ => {},
    }
}

proof fn evaluates_assign(start: Running, e: ExprView, host: Host)
    requires
        start.machine.control == ControlView::Evaluate(e),
        e is Assign,
    ensures
        start.run(host, cost(e, start.machine.environment, host)).machine == arrival(
            start.machine,
            eval(e, start.machine.environment, host),
        ),
        start.run(host, cost(e, start.machine.environment, host)).output == start.output,
    decreases e, 0nat,
{
    let name = e->Assign_name;
    let value = *e->Assign_value;
    let machine = start.machine;
    let env = machine.environment;
    let first = start.advance(host);
    run_once(start, host);
    let inner = cost(value, env, host);
    run_in_two(start, host, 1, inner);
    machine_evaluates(first, value, host);
    let second = first.run(host, inner);
    assert(first.machine.frames == machine.frames.push(FrameView::Assign { name }));
    assert(first.machine.frames.drop_last() =~= machine.frames);
    match eval(value, env, host) {
        Evaluated::Value { value: v, environment: env1 } => {
            run_once(second, host);
            run_in_two(start, host, 1 + inner, 1);
        },
        _ => {},
    }
}

proof fn evaluates_logical(start: Running, e: ExprView, host: Host)
    requires
        start.machine.control == ControlView::Evaluate(e),
        e is Logical,
    ensures
        start.run(host, cost(e, start.machine.environment, host)).machine == arrival(
            start.machine,
            eval(e, start.machine.environment, host),
        ),
        start.run(host, cost(e, start.machine.environment, host)).output == start.output,
    decreases e, 0nat,
{
    let operator = e->Logical_operator;
    let left = *e->Logical_left;
    let right = *e->Logical_right;
    let machine = start.machine;
    let env = machine.environment;
    let first = start.advance(host);
    run_once(start, host);
    let inner = cost(left, env, host);
    run_in_two(start, host, 1, inner);
    machine_evaluates(first, left, host);
    let second = first.run(host, inner);
    assert(first.machine.frames == machine.frames.push(FrameView::Short { operator, right }));
    assert(first.machine.frames.drop_last() =~= machine.frames);
    match eval(left, env, host) {
        Evaluated::Value { value: lv, environment: env1 } => {
            let third = second.advance(host);
            run_once(second, host);
            run_in_two(start, host, 1 + inner, 1);
            if !decides(operator, lv) {
                let more = cost(right, env1, host);
                run_in_two(start, host, 2 + inner, more);
                machine_evaluates(third, right, host);
            }
        },
        _ => {},
    }
}

/// The evaluator computes the value of an expression. From any state
/// that is about to evaluate `e`, and whatever is left to do after it,
/// `cost` steps under the control of a host lead to the state that hands
/// the value of `e` to the innermost frame, in the environment that the
/// evaluation leaves; or, where the evaluation fails, to the state after
/// its runtime error. Nothing else has changed, and nothing was printed.
pub proof fn machine_evaluates(start: Running, e: ExprView, host: Host)
    requires
        start.machine.control == ControlView::Evaluate(e),
    ensures
        start.run(host, cost(e, start.machine.environment, host)).machine == arrival(
            start.machine,
            eval(e, start.machine.environment, host),
        ),
        start.run(host, cost(e, start.machine.environment, host)).output == start.output,
    decreases e, 1nat,
{
    match e {
        ExprView::Literal { value } => {
            reveal_with_fuel(Running::run, 3);
        },
        ExprView::Grouping { expression } => {
            evaluates_grouping(start, e, host);
        },
        ExprView::Variable { token } => {
            run_once(start, host);
        },
        ExprView::Call { callee, paren, arguments } => {
            run_once(start, host);
        },
        ExprView::Unary { operator, right } => {
            evaluates_unary(start, e, host);
        },
        ExprView::Binary { left, operator, right } => {
            evaluates_binary(start, e, host);
        },
        ExprView::Assign { name, value } => {
            evaluates_assign(start, e, host);
        },
        ExprView::Logical { left, operator, right } => {
            evaluates_logical(start, e, host);
        },
    }
}

/// What the execution of a statement comes to: it is done, with the
/// environment that it leaves and all the lines printed so far; or it has
/// failed with a runtime error; or it has not ended within the number of
/// loop iterations allowed.
pub enum Executed {
    Done { environment: EnvironmentView, output: Seq<Seq<char>> },
    Failed {
        token: TokenView,
        message: Seq<char>,
        environment: EnvironmentView,
        output: Seq<Seq<char>>,
    },
    Unfinished,
}

/// The line that `print` writes for a value.
pub open spec fn line_of(value: ValueView, host: Host) -> Seq<char> {
    match value {
        ValueView::Num(n) => without_point_zero((host.format)(Style::Display, n)),
        _ => value.canonical(Seq::empty()),
    }
}

/// What a statement comes to in an environment, after the lines `output`
/// were printed. `fuel` bounds the iterations of each loop after its
/// first.
///
/// An expression statement evaluates its expression. `print` writes the
/// value. A declaration declares the variable in the current scope, as
/// `Nill` where it has no initializer. A block executes its statements in
/// a fresh scope and leaves the scope. `if` executes one of its branches,
/// `while` its body as long as the condition is truthy. A runtime error
/// ends the statement.
pub open spec fn exec(
    s: StmtView,
    environment: EnvironmentView,
    output: Seq<Seq<char>>,
    host: Host,
    fuel: nat,
) -> Executed
    decreases fuel, s, 0nat,
{
    match s {
        StmtView::Expression { expression } => match eval(expression, environment, host) {
            Evaluated::Value { value, environment } => Executed::Done { environment, output },
            Evaluated::Error { token, message, environment } => Executed::Failed {
                token,
                message,
                environment,
                output,
            },
        },
        StmtView::Print { expression } => match eval(expression, environment, host) {
            Evaluated::Value { value, environment } => Executed::Done {
                environment,
                output: output.push(line_of(value, host)),
            },
            Evaluated::Error { token, message, environment } => Executed::Failed {
                token,
                message,
                environment,
                output,
            },
        },
        StmtView::Var { name, right } => match right {
            Some(e) => match eval(e, environment, host) {
                Evaluated::Value { value, environment } => Executed::Done {
                    environment: environment.define(name.lexeme, value),
                    output,
                },
                Evaluated::Error { token, message, environment } => Executed::Failed {
                    token,
                    message,
                    environment,
                    output,
                },
            },
            None => Executed::Done {
                environment: environment.define(name.lexeme, ValueView::Nill),
                output,
            },
        },
        StmtView::Block { statements } => match exec_all(
            statements,
            0,
            environment.child(),
            output,
            host,
            fuel,
        ) {
            Executed::Done { environment, output } => Executed::Done {
                environment: environment.leave(),
                output,
            },
            other => other,
        },
        StmtView::If { condition, then_branch, else_branch } => match eval(
            condition,
            environment,
            host,
        ) {
            Evaluated::Value { value, environment } => if value.truthy() {
                exec(*then_branch, environment, output, host, fuel)
            } else {
                match else_branch {
                    Some(other) => exec(*other, environment, output, host, fuel),
                    None => Executed::Done { environment, output },
                }
            },
            Evaluated::Error { token, message, environment } => Executed::Failed {
                token,
                message,
                environment,
                output,
            },
        },
        StmtView::While { condition, body } => exec_while(
            condition,
            *body,
            environment,
            output,
            host,
            fuel,
        ),
    }
}

/// What the statements from the `from`-th on come to, one after the
/// other.
pub open spec fn exec_all(
    statements: Seq<StmtView>,
    from: int,
    environment: EnvironmentView,
    output: Seq<Seq<char>>,
    host: Host,
    fuel: nat,
) -> Executed
    decreases fuel, statements, statements.len() - from,
{
    if from < 0 || from >= statements.len() {
        Executed::Done { environment, output }
    } else {
        match exec(statements[from], environment, output, host, fuel) {
            Executed::Done { environment, output } => exec_all(
                statements,
                from + 1,
                environment,
                output,
                host,
                fuel,
            ),
            other => other,
        }
    }
}

/// What a loop comes to: nothing more where the condition is falsy, the
/// body and then the loop again where it is truthy.
pub open spec fn exec_while(
    condition: ExprView,
    body: StmtView,
    environment: EnvironmentView,
    output: Seq<Seq<char>>,
    host: Host,
    fuel: nat,
) -> Executed
    decreases fuel, body, 1nat,
{
    match eval(condition, environment, host) {
        Evaluated::Value { value, environment } => if !value.truthy() {
            Executed::Done { environment, output }
        } else {
            match exec(body, environment, output, host, fuel) {
                Executed::Done { environment, output } => if fuel == 0 {
                    Executed::Unfinished
                } else {
                    exec_while(condition, body, environment, output, host, (fuel - 1) as nat)
                },
                other => other,
            }
        },
        Evaluated::Error { token, message, environment } => Executed::Failed {
            token,
            message,
            environment,
            output,
        },
    }
}

/// The number of steps that the evaluator takes on a statement.
pub open spec fn exec_cost(
    s: StmtView,
    environment: EnvironmentView,
    output: Seq<Seq<char>>,
    host: Host,
    fuel: nat,
) -> nat
    decreases fuel, s, 0nat,
{
    match s {
        StmtView::Expression { expression } => 1 + cost(expression, environment, host) + match eval(
            expression,
            environment,
            host,
        ) {
            Evaluated::Value { value, environment } => 1nat,
            _ => 0nat,
        },
        StmtView::Print { expression } => 1 + cost(expression, environment, host) + match eval(
            expression,
            environment,
            host,
        ) {
            Evaluated::Value { value, environment } => if value is Num {
                2nat
            } else {
                1nat
            },
            _ => 0nat,
        },
        StmtView::Var { name, right } => match right {
            Some(e) => 1 + cost(e, environment, host) + match eval(e, environment, host) {
                Evaluated::Value { value, environment } => 1nat,
                _ => 0nat,
            },
            None => 1,
        },
        StmtView::Block { statements } => 1 + all_cost(
            statements,
            0,
            environment.child(),
            output,
            host,
            fuel,
        ),
        StmtView::If { condition, then_branch, else_branch } => 1 + cost(
            condition,
            environment,
            host,
        ) + match eval(condition, environment, host) {
            Evaluated::Value { value, environment } => 1 + if value.truthy() {
                exec_cost(*then_branch, environment, output, host, fuel)
            } else {
                match else_branch {
                    Some(other) => exec_cost(*other, environment, output, host, fuel),
                    None => 0nat,
                }
            },
            _ => 0nat,
        },
        StmtView::While { condition, body } => 1 + while_cost(
            condition,
            *body,
            environment,
            output,
            host,
            fuel,
        ),
    }
}

/// The number of steps that the evaluator takes on the statements of a
/// block from the `from`-th on, and on leaving the block.
pub open spec fn all_cost(
    statements: Seq<StmtView>,
    from: int,
    environment: EnvironmentView,
    output: Seq<Seq<char>>,
    host: Host,
    fuel: nat,
) -> nat
    decreases fuel, statements, statements.len() - from,
{
    if from < 0 || from >= statements.len() {
        1
    } else {
        1 + exec_cost(statements[from], environment, output, host, fuel) + match exec(
            statements[from],
            environment,
            output,
            host,
            fuel,
        ) {
            Executed::Done { environment, output } => all_cost(
                statements,
                from + 1,
                environment,
                output,
                host,
                fuel,
            ),
            _ => 0nat,
        }
    }
}

/// The number of steps that the evaluator takes on a loop, from the
/// evaluation of its condition on.
pub open spec fn while_cost(
    condition: ExprView,
    body: StmtView,
    environment: EnvironmentView,
    output: Seq<Seq<char>>,
    host: Host,
    fuel: nat,
) -> nat
    decreases fuel, body, 1nat,
{
    cost(condition, environment, host) + match eval(condition, environment, host) {
        Evaluated::Value { value, environment } => 1 + if !value.truthy() {
            0nat
        } else {
            exec_cost(body, environment, output, host, fuel) + match exec(
                body,
                environment,
                output,
                host,
                fuel,
            ) {
                Executed::Done { environment, output } => if fuel == 0 {
                    0nat
                } else {
                    1 + while_cost(condition, body, environment, output, host, (fuel - 1) as nat)
                },
                _ => 0nat,
            }
        },
        _ => 0nat,
    }
}

/// Whether `end` is where the evaluator arrives from `start` when what it
/// executes comes to `result`: in the state that takes the next
/// statement, under the frames `frames`; or in the state that the runtime
/// error leaves.
pub open spec fn settled(
    start: InterpreterView,
    frames: Seq<FrameView>,
    end: Running,
    result: Executed,
) -> bool {
    match result {
        Executed::Done { environment, output } => {
            &&& end.machine == (InterpreterView {
                environment,
                frames,
                control: ControlView::Next,
                ..start
            })
            &&& end.output == output
        },
        Executed::Failed { token, message, environment, output } => {
            &&& end.machine == (InterpreterView { environment, ..start }).fail(token, message).0
            &&& end.output == output
        },
        Executed::Unfinished => true,
    }
}

proof fn executes_expression(start: Running, s: StmtView, host: Host, fuel: nat)
    requires
        start.machine.control == ControlView::Execute(s),
        s is Expression,
    ensures
        settled(
            start.machine,
            start.machine.frames,
            start.run(
                host,
                exec_cost(s, start.machine.environment, start.output, host, fuel),
            ),
            exec(s, start.machine.environment, start.output, host, fuel),
        ),
{
    let e = s->Expression_expression;
    let machine = start.machine;
    let env = machine.environment;
    let first = start.advance(host);
    run_once(start, host);
    let inner = cost(e, env, host);
    run_in_two(start, host, 1, inner);
    machine_evaluates(first, e, host);
    let second = first.run(host, inner);
    assert(first.machine.frames == machine.frames.push(FrameView::Discard));
    assert(first.machine.frames.drop_last() =~= machine.frames);
    match eval(e, env, host) {
        Evaluated::Value { value, environment } => {
            run_once(second, host);
            run_in_two(start, host, 1 + inner, 1);
        },
        _ => {},
    }
}

proof fn executes_print(start: Running, s: StmtView, host: Host, fuel: nat)
    requires
        start.machine.control == ControlView::Execute(s),
        s is Print,
    ensures
        settled(
            start.machine,
            start.machine.frames,
            start.run(
                host,
                exec_cost(s, start.machine.environment, start.output, host, fuel),
            ),
            exec(s, start.machine.environment, start.output, host, fuel),
        ),
{
    let e = s->Print_expression;
    let machine = start.machine;
    let env = machine.environment;
    let first = start.advance(host);
    run_once(start, host);
    let inner = cost(e, env, host);
    run_in_two(start, host, 1, inner);
    machine_evaluates(first, e, host);
    let second = first.run(host, inner);
    assert(first.machine.frames == machine.frames.push(FrameView::Print));
    assert(first.machine.frames.drop_last() =~= machine.frames);
    match eval(e, env, host) {
        Evaluated::Value { value, environment } => {
            let third = second.advance(host);
            run_once(second, host);
            match value {
                ValueView::Num(n) => {
                    let text = (host.format)(Style::Display, n);
                    let fourth = third.advance(host);
                    run_once(third, host);
                    run_in_two(second, host, 1, 1);
                    run_in_two(start, host, 1 + inner, 2);
                    assert(Seq::<char>::empty() + without_point_zero(text) + Seq::<char>::empty()
                        =~= without_point_zero(text));
                },
                _ => {
                    run_in_two(start, host, 1 + inner, 1);
                },
            }
        },
        _ => {},
    }
}

proof fn executes_var(start: Running, s: StmtView, host: Host, fuel: nat)
    requires
        start.machine.control == ControlView::Execute(s),
        s is Var,
    ensures
        settled(
            start.machine,
            start.machine.frames,
            start.run(
                host,
                exec_cost(s, start.machine.environment, start.output, host, fuel),
            ),
            exec(s, start.machine.environment, start.output, host, fuel),
        ),
{
    let name = s->Var_name;
    let machine = start.machine;
    let env = machine.environment;
    let first = start.advance(host);
    run_once(start, host);
    match s->Var_right {
        Some(e) => {
            let inner = cost(e, env, host);
            run_in_two(start, host, 1, inner);
            machine_evaluates(first, e, host);
            let second = first.run(host, inner);
            assert(first.machine.frames == machine.frames.push(FrameView::Define { name }));
            assert(first.machine.frames.drop_last() =~= machine.frames);
            match eval(e, env, host) {
                Evaluated::Value { value, environment } => {
                    run_once(second, host);
                    run_in_two(start, host, 1 + inner, 1);
                },
                _ => {},
            }
        },
        None => {},
    }
}

proof fn executes_block(start: Running, s: StmtView, host: Host, fuel: nat)
    requires
        start.machine.control == ControlView::Execute(s),
        s is Block,
    ensures
        settled(
            start.machine,
            start.machine.frames,
            start.run(
                host,
                exec_cost(s, start.machine.environment, start.output, host, fuel),
            ),
            exec(s, start.machine.environment, start.output, host, fuel),
        ),
    decreases fuel, s, 0nat,
{
    let statements = s->Block_statements;
    let machine = start.machine;
    let env = machine.environment;
    let first = start.advance(host);
    run_once(start, host);
    let inner = all_cost(statements, 0, env.child(), start.output, host, fuel);
    run_in_two(start, host, 1, inner);
    assert(first.machine.frames == machine.frames.push(FrameView::Block { rest: statements }));
    assert(first.machine.frames.drop_last() =~= machine.frames);
    assert(statements.skip(0) =~= statements);
    machine_executes_all(first, statements, 0, host, fuel);
}

proof fn executes_if(start: Running, s: StmtView, host: Host, fuel: nat)
    requires
        start.machine.control == ControlView::Execute(s),
        s is If,
    ensures
        settled(
            start.machine,
            start.machine.frames,
            start.run(
                host,
                exec_cost(s, start.machine.environment, start.output, host, fuel),
            ),
            exec(s, start.machine.environment, start.output, host, fuel),
        ),
    decreases fuel, s, 0nat,
{
    let condition = s->If_condition;
    let then_branch = *s->If_then_branch;
    let else_branch = s->If_else_branch;
    let machine = start.machine;
    let env = machine.environment;
    let first = start.advance(host);
    run_once(start, host);
    let inner = cost(condition, env, host);
    run_in_two(start, host, 1, inner);
    machine_evaluates(first, condition, host);
    let second = first.run(host, inner);
    assert(first.machine.frames.len() > 0);
    assert(first.machine.frames.drop_last() =~= machine.frames);
    match eval(condition, env, host) {
        Evaluated::Value { value, environment } => {
            let third = second.advance(host);
            run_once(second, host);
            run_in_two(start, host, 1 + inner, 1);
            if value.truthy() {
                let more = exec_cost(then_branch, environment, start.output, host, fuel);
                run_in_two(start, host, 2 + inner, more);
                machine_executes(third, then_branch, host, fuel);
            } else {
                match else_branch {
                    Some(other) => {
                        let more = exec_cost(*other, environment, start.output, host, fuel);
                        run_in_two(start, host, 2 + inner, more);
                        machine_executes(third, *other, host, fuel);
                    },
                    None => {},
                }
            }
        },
        _ => {},
    }
}

proof fn executes_while(start: Running, s: StmtView, host: Host, fuel: nat)
    requires
        start.machine.control == ControlView::Execute(s),
        s is While,
    ensures
        settled(
            start.machine,
            start.machine.frames,
            start.run(
                host,
                exec_cost(s, start.machine.environment, start.output, host, fuel),
            ),
            exec(s, start.machine.environment, start.output, host, fuel),
        ),
    decreases fuel, s, 0nat,
{
    let condition = s->While_condition;
    let body = *s->While_body;
    let machine = start.machine;
    let env = machine.environment;
    let first = start.advance(host);
    run_once(start, host);
    let inner = while_cost(condition, body, env, start.output, host, fuel);
    run_in_two(start, host, 1, inner);
    assert(first.machine.frames == machine.frames.push(FrameView::Test { condition, body }));
    assert(first.machine.frames.drop_last() =~= machine.frames);
    machine_loops(first, condition, body, host, fuel);
}

/// The evaluator executes the statements of a block, and leaves the
/// block. From the state that takes the next statement of a block whose
/// statements from the `from`-th on are left, `all_cost` steps lead to
/// the state after the block, or to the state after a runtime error.
pub proof fn machine_executes_all(
    start: Running,
    statements: Seq<StmtView>,
    from: int,
    host: Host,
    fuel: nat,
)
    requires
        start.machine.control == ControlView::Next,
        start.machine.frames.len() > 0,
        start.machine.frames.last() == (FrameView::Block { rest: statements.skip(from) }),
        0 <= from <= statements.len(),
    ensures
        settled(
            start.machine,
            start.machine.frames.drop_last(),
            start.run(
                host,
                all_cost(statements, from, start.machine.environment, start.output, host, fuel),
            ),
            match exec_all(statements, from, start.machine.environment, start.output, host, fuel) {
                Executed::Done { environment, output } => Executed::Done {
                    environment: environment.leave(),
                    output,
                },
                other => other,
            },
        ),
    decreases fuel, statements, statements.len() - from,
{
    let machine = start.machine;
    let env = machine.environment;
    let outer = machine.frames.drop_last();
    let first = start.advance(host);
    run_once(start, host);
    if from < statements.len() {
        let rest = statements.skip(from);
        let s = statements[from];
        assert(rest.len() > 0);
        assert(rest[0] == s);
        assert(rest.drop_first() =~= statements.skip(from + 1));
        assert(first.machine.control == ControlView::Execute(s));
        assert(first.machine.frames == outer.push(
            FrameView::Block { rest: statements.skip(from + 1) },
        ));
        assert(first.machine.frames.drop_last() =~= outer);
        let inner = exec_cost(s, env, start.output, host, fuel);
        run_in_two(start, host, 1, inner);
        machine_executes(first, s, host, fuel);
        let second = first.run(host, inner);
        match exec(s, env, start.output, host, fuel) {
            Executed::Done { environment, output } => {
                let more = all_cost(statements, from + 1, environment, output, host, fuel);
                run_in_two(start, host, 1 + inner, more);
                machine_executes_all(second, statements, from + 1, host, fuel);
            },
            _ => {},
        }
    } else {
        assert(statements.skip(from).len() == 0);
    }
}

/// The evaluator executes a loop. From the state that evaluates the
/// condition of a loop, `while_cost` steps lead to the state after the
/// loop, or to the state after a runtime error.
pub proof fn machine_loops(
    start: Running,
    condition: ExprView,
    body: StmtView,
    host: Host,
    fuel: nat,
)
    requires
        start.machine.control == ControlView::Evaluate(condition),
        start.machine.frames.len() > 0,
        start.machine.frames.last() == (FrameView::Test { condition, body }),
    ensures
        settled(
            start.machine,
            start.machine.frames.drop_last(),
            start.run(
                host,
                while_cost(condition, body, start.machine.environment, start.output, host, fuel),
            ),
            exec_while(condition, body, start.machine.environment, start.output, host, fuel),
        ),
    decreases fuel, body, 2nat,
{
    let machine = start.machine;
    let env = machine.environment;
    let outer = machine.frames.drop_last();
    let inner = cost(condition, env, host);
    machine_evaluates(start, condition, host);
    let first = start.run(host, inner);
    match eval(condition, env, host) {
        Evaluated::Value { value, environment } => {
            let second = first.advance(host);
            run_once(first, host);
            run_in_two(start, host, inner, 1);
            if value.truthy() {
                assert(second.machine.control == ControlView::Execute(body));
                assert(second.machine.frames == outer.push(FrameView::Loop { condition, body }));
                assert(second.machine.frames.drop_last() =~= outer);
                let more = exec_cost(body, environment, start.output, host, fuel);
                run_in_two(start, host, inner + 1, more);
                machine_executes(second, body, host, fuel);
                let third = second.run(host, more);
                match exec(body, environment, start.output, host, fuel) {
                    Executed::Done { environment: env2, output } => {
                        if fuel > 0 {
                            let fourth = third.advance(host);
                            run_once(third, host);
                            run_in_two(start, host, inner + 1 + more, 1);
                            assert(fourth.machine.control == ControlView::Evaluate(condition));
                            assert(fourth.machine.frames == outer.push(
                                FrameView::Test { condition, body },
                            ));
                            assert(fourth.machine.frames.drop_last() =~= outer);
                            let last = while_cost(
                                condition,
                                body,
                                env2,
                                output,
                                host,
                                (fuel - 1) as nat,
                            );
                            run_in_two(start, host, inner + 2 + more, last);
                            machine_loops(fourth, condition, body, host, (fuel - 1) as nat);
                        }
                    },
                    _ => {},
                }
            }
        },
        _ => {},
    }
}

/// The evaluator executes a statement. From any state that is about to
/// execute `s`, and whatever is left to do after it, `exec_cost` steps
/// under the control of a host lead to the state that takes the next
/// statement, in the environment that the statement leaves and with its
/// lines printed; or, where the statement fails, to the state after its
/// runtime error, which has left every block. This holds of every
/// execution that ends within the loop iterations that `fuel` allows.
pub proof fn machine_executes(start: Running, s: StmtView, host: Host, fuel: nat)
    requires
        start.machine.control == ControlView::Execute(s),
    ensures
        settled(
            start.machine,
            start.machine.frames,
            start.run(
                host,
                exec_cost(s, start.machine.environment, start.output, host, fuel),
            ),
            exec(s, start.machine.environment, start.output, host, fuel),
        ),
    decreases fuel, s, 1nat,
{
    match s {
        StmtView::Expression { expression } => {
            executes_expression(start, s, host, fuel);
        },
        StmtView::Print { expression } => {
            executes_print(start, s, host, fuel);
        },
        StmtView::Var { name, right } => {
            executes_var(start, s, host, fuel);
        },
        StmtView::Block { statements } => {
            executes_block(start, s, host, fuel);
        },
        StmtView::If { condition, then_branch, else_branch } => {
            executes_if(start, s, host, fuel);
        },
        StmtView::While { condition, body } => {
            executes_while(start, s, host, fuel);
        },
    }
}

/// What the execution of a program comes to: it has ended, with the sink,
/// the environment and the lines printed; or it has not ended within the
/// loop iterations allowed.
pub enum Ran {
    Ended { sink: LoxView, environment: EnvironmentView, output: Seq<Seq<char>> },
    Unfinished,
}

/// What the statements of a program from the `from`-th on come to. A
/// statement that fails is recorded in the sink and abandoned with all
/// its scopes, and the program goes on with the next statement.
pub open spec fn exec_program(
    statements: Seq<StmtView>,
    from: int,
    sink: LoxView,
    environment: EnvironmentView,
    output: Seq<Seq<char>>,
    host: Host,
    fuel: nat,
) -> Ran
    decreases statements.len() - from,
{
    if from < 0 || from >= statements.len() {
        Ran::Ended { sink, environment, output }
    } else {
        match exec(statements[from], environment, output, host, fuel) {
            Executed::Done { environment, output } => exec_program(
                statements,
                from + 1,
                sink,
                environment,
                output,
                host,
                fuel,
            ),
            Executed::Failed { token, message, environment, output } => exec_program(
                statements,
                from + 1,
                sink.interpreter_error(token, message),
                environment.root(),
                output,
                host,
                fuel,
            ),
            Executed::Unfinished => Ran::Unfinished,
        }
    }
}

/// The number of steps that the evaluator takes on the statements of a
/// program from the `from`-th on.
pub open spec fn program_cost(
    statements: Seq<StmtView>,
    from: int,
    environment: EnvironmentView,
    output: Seq<Seq<char>>,
    host: Host,
    fuel: nat,
) -> nat
    decreases statements.len() - from,
{
    if from < 0 || from >= statements.len() {
        0
    } else {
        1 + exec_cost(statements[from], environment, output, host, fuel) + match exec(
            statements[from],
            environment,
            output,
            host,
            fuel,
        ) {
            Executed::Done { environment, output } => program_cost(
                statements,
                from + 1,
                environment,
                output,
                host,
                fuel,
            ),
            Executed::Failed { token, message, environment, output } => program_cost(
                statements,
                from + 1,
                environment.root(),
                output,
                host,
                fuel,
            ),
            Executed::Unfinished => 0nat,
        }
    }
}

/// The evaluator executes a program. From the state that takes the next
/// statement of the program, with no frame left, `program_cost` steps
/// under the control of a host lead to the state in which the program has
/// ended: the sink holds the runtime errors of the statements that
/// failed, and the lines of the others were printed, in order.
pub proof fn machine_runs(
    start: Running,
    statements: Seq<StmtView>,
    from: int,
    host: Host,
    fuel: nat,
)
    requires
        start.machine.control == ControlView::Next,
        start.machine.frames.len() == 0,
        start.machine.program == statements.skip(from),
        0 <= from <= statements.len(),
    ensures
        exec_program(
            statements,
            from,
            start.machine.instance,
            start.machine.environment,
            start.output,
            host,
            fuel,
        ) matches Ran::Ended { sink, environment, output } ==> {
            let end = start.run(
                host,
                program_cost(statements, from, start.machine.environment, start.output, host, fuel),
            );
            &&& end.machine.finished()
            &&& end.machine.instance == sink
            &&& end.machine.environment == environment
            &&& end.output == output
            &&& end.machine.step(end.event) == (end.machine, ActionView::Done)
        },
    decreases statements.len() - from,
{
    let machine = start.machine;
    let env = machine.environment;
    if from < statements.len() {
        let s = statements[from];
        let first = start.advance(host);
        run_once(start, host);
        assert(machine.program[0] == s);
        assert(machine.program.drop_first() =~= statements.skip(from + 1));
        let inner = exec_cost(s, env, start.output, host, fuel);
        run_in_two(start, host, 1, inner);
        machine_executes(first, s, host, fuel);
        let second = first.run(host, inner);
        match exec(s, env, start.output, host, fuel) {
            Executed::Done { environment, output } => {
                let more = program_cost(statements, from + 1, environment, output, host, fuel);
                run_in_two(start, host, 1 + inner, more);
                machine_runs(second, statements, from + 1, host, fuel);
            },
            Executed::Failed { token, message, environment, output } => {
                let more = program_cost(
                    statements,
                    from + 1,
                    environment.root(),
                    output,
                    host,
                    fuel,
                );
                run_in_two(start, host, 1 + inner, more);
                machine_runs(second, statements, from + 1, host, fuel);
            },
            Executed::Unfinished => {},
        }
    } else {
        assert(machine.program.len() == 0);
    }
}

/// What running a source comes to, from the text to the last line
/// printed: the source is scanned and parsed; where this records an error,
/// nothing is executed; otherwise the program is executed in the global
/// scope.
pub open spec fn run_source(sink: LoxView, source: Seq<char>, host: Host, fuel: nat) -> Ran {
    let loaded = sink.run(source);
    exec_program(
        loaded.program,
        0,
        loaded.instance,
        loaded.environment,
        Seq::empty(),
        host,
        fuel,
    )
}

/// The evaluator that `run` returns executes the source. Driven by a host
/// from its first step, it ends in the state that the execution of the
/// program comes to, with the lines of the program printed and its
/// runtime errors in the sink. After a lexical or syntax error it has
/// ended before its first step, and nothing is printed.
pub proof fn source_runs(sink: LoxView, source: Seq<char>, event: EventView, host: Host, fuel: nat)
    ensures
        run_source(sink, source, host, fuel) matches Ran::Ended {
            sink: last,
            environment,
            output,
        } ==> {
            let loaded = sink.run(source);
            let start = Running { machine: loaded, event, output: Seq::empty() };
            let end = start.run(
                host,
                program_cost(loaded.program, 0, loaded.environment, Seq::empty(), host, fuel),
            );
            &&& end.machine.finished()
            &&& end.machine.instance == last
            &&& end.output == output
            &&& last.exit_code() == end.machine.instance.exit_code()
        },
        sink.run(source).instance.had_error ==> run_source(sink, source, host, fuel) == (
        Ran::Ended {
            sink: sink.run(source).instance,
            environment: EnvironmentView::global(),
            output: Seq::empty(),
        }),
{
    let loaded = sink.run(source);
    let start = Running { machine: loaded, event, output: Seq::empty() };
    assert(loaded.program.skip(0) =~= loaded.program);
    crate::environment::root_is_global(EnvironmentView::global());
    machine_runs(start, loaded.program, 0, host, fuel);
}

/// The evaluation of an expression declares nothing: it leaves every
/// scope with the names that the scope held before. And a use that
/// follows an assignment at once reads the value that was written.
pub proof fn evaluation_keeps_the_names(e: ExprView, environment: EnvironmentView, host: Host)
    ensures
        eval(e, environment, host).environment().same_names(environment),
        e matches ExprView::Assign { name, value } ==> (eval(
            e,
            environment,
            host,
        ) matches Evaluated::Value { value: written, environment: after } ==> forall|
            usage: TokenView,
        |
            usage.lexeme == name.lexeme ==> #[trigger] eval(
                ExprView::Variable { token: usage },
                after,
                host,
            ) == (Evaluated::Value { value: written, environment: after })),
    decreases e,
{
    crate::environment::same_names_is_an_equivalence(environment, environment, environment);
    match e {
        ExprView::Grouping { expression } => {
            evaluation_keeps_the_names(*expression, environment, host);
        },
        ExprView::Unary { operator, right } => {
            evaluation_keeps_the_names(*right, environment, host);
        },
        ExprView::Binary { left, operator, right } => {
            evaluation_keeps_the_names(*left, environment, host);
            let first = eval(*left, environment, host).environment();
            evaluation_keeps_the_names(*right, first, host);
            let second = eval(*right, first, host).environment();
            crate::environment::same_names_is_an_equivalence(second, first, environment);
        },
        ExprView::Logical { left, operator, right } => {
            evaluation_keeps_the_names(*left, environment, host);
            let first = eval(*left, environment, host).environment();
            evaluation_keeps_the_names(*right, first, host);
            let second = eval(*right, first, host).environment();
            crate::environment::same_names_is_an_equivalence(second, first, environment);
        },
        ExprView::Assign { name, value } => {
            evaluation_keeps_the_names(*value, environment, host);
            let first = eval(*value, environment, host).environment();
            match eval(*value, environment, host) {
                Evaluated::Value { value: v, environment: env1 } => {
                    crate::environment::assign_keeps_the_names(env1, name.lexeme, v);
                    crate::environment::write_then_read(env1, name.lexeme, v);
                    match env1.assign(name.lexeme, v) {
                        Some(after) => {
                            crate::environment::same_names_is_an_equivalence(
                                after,
                                env1,
                                environment,
                            );
                        },
                        None => {},
                    }
                },
                _ => {},
            }
        },
        _ => {},
    }
}

/// A statement declares names in the current scope only: where it is
/// done, the current scope holds at least the names that it held before,
/// and every scope around it holds the same names as before.
pub proof fn execution_extends(
    s: StmtView,
    environment: EnvironmentView,
    output: Seq<Seq<char>>,
    host: Host,
    fuel: nat,
)
    ensures
        exec(s, environment, output, host, fuel) matches Executed::Done {
            environment: after,
            output: printed,
        } ==> after.extends(environment),
        s is Block ==> (exec(s, environment, output, host, fuel) matches Executed::Done {
            environment: after,
            output: printed,
        } ==> after.same_names(environment)),
    decreases fuel, s, 0nat,
{
    crate::environment::extension_is_an_order(environment, environment, environment);
    match s {
        StmtView::Expression { expression } => {
            evaluation_keeps_the_names(expression, environment, host);
            let after = eval(expression, environment, host).environment();
            crate::environment::extension_is_an_order(after, environment, environment);
        },
        StmtView::Print { expression } => {
            evaluation_keeps_the_names(expression, environment, host);
            let after = eval(expression, environment, host).environment();
            crate::environment::extension_is_an_order(after, environment, environment);
        },
        StmtView::Var { name, right } => {
            match right {
                Some(e) => {
                    evaluation_keeps_the_names(e, environment, host);
                    match eval(e, environment, host) {
                        Evaluated::Value { value, environment: first } => {
                            crate::environment::extension_is_an_order(
                                first,
                                environment,
                                environment,
                            );
                            let after = first.define(name.lexeme, value);
                            crate::environment::extension_is_an_order(first, first, first);
                            assert(after.extends(first));
                            crate::environment::extension_is_an_order(after, first, environment);
                        },
                        _ => {},
                    }
                },
                None => {
                    assert(environment.define(name.lexeme, ValueView::Nill).extends(environment));
                },
            }
        },
        StmtView::Block { statements } => {
            let inner = environment.child();
            all_extend(statements, 0, inner, output, host, fuel);
            match exec_all(statements, 0, inner, output, host, fuel) {
                Executed::Done { environment: last, output: printed } => {
                    assert(last.extends(inner));
                    let after = last.leave();
                    assert(after.same_names(environment));
                    crate::environment::extension_is_an_order(after, environment, environment);
                },
                _ => {},
            }
        },
        StmtView::If { condition, then_branch, else_branch } => {
            evaluation_keeps_the_names(condition, environment, host);
            match eval(condition, environment, host) {
                Evaluated::Value { value, environment: first } => {
                    crate::environment::extension_is_an_order(first, environment, environment);
                    if value.truthy() {
                        execution_extends(*then_branch, first, output, host, fuel);
                        match exec(*then_branch, first, output, host, fuel) {
                            Executed::Done { environment: after, output: printed } => {
                                crate::environment::extension_is_an_order(
                                    after,
                                    first,
                                    environment,
                                );
                            },
                            _ => {},
                        }
                    } else {
                        match else_branch {
                            Some(other) => {
                                execution_extends(*other, first, output, host, fuel);
                                match exec(*other, first, output, host, fuel) {
                                    Executed::Done { environment: after, output: printed } => {
                                        crate::environment::extension_is_an_order(
                                            after,
                                            first,
                                            environment,
                                        );
                                    },
                                    _ => {},
                                }
                            },
                            None => {},
                        }
                    }
                },
                _ => {},
            }
        },
        StmtView::While { condition, body } => {
            loop_extends(condition, *body, environment, output, host, fuel);
        },
    }
}

/// The statements of a block, one after the other, declare names in the
/// current scope only.
pub proof fn all_extend(
    statements: Seq<StmtView>,
    from: int,
    environment: EnvironmentView,
    output: Seq<Seq<char>>,
    host: Host,
    fuel: nat,
)
    ensures
        exec_all(statements, from, environment, output, host, fuel) matches Executed::Done {
            environment: after,
            output: printed,
        } ==> after.extends(environment),
    decreases fuel, statements, statements.len() - from,
{
    crate::environment::extension_is_an_order(environment, environment, environment);
    if 0 <= from < statements.len() {
        execution_extends(statements[from], environment, output, host, fuel);
        match exec(statements[from], environment, output, host, fuel) {
            Executed::Done { environment: first, output: printed } => {
                all_extend(statements, from + 1, first, printed, host, fuel);
                match exec_all(statements, from + 1, first, printed, host, fuel) {
                    Executed::Done { environment: after, output: last } => {
                        crate::environment::extension_is_an_order(after, first, environment);
                    },
                    _ => {},
                }
            },
            _ => {},
        }
    }
}

/// A loop declares names in the current scope only.
pub proof fn loop_extends(
    condition: ExprView,
    body: StmtView,
    environment: EnvironmentView,
    output: Seq<Seq<char>>,
    host: Host,
    fuel: nat,
)
    ensures
        exec_while(condition, body, environment, output, host, fuel) matches Executed::Done {
            environment: after,
            output: printed,
        } ==> after.extends(environment),
    decreases fuel, body, 1nat,
{
    crate::environment::extension_is_an_order(environment, environment, environment);
    evaluation_keeps_the_names(condition, environment, host);
    match eval(condition, environment, host) {
        Evaluated::Value { value, environment: first } => {
            crate::environment::extension_is_an_order(first, environment, environment);
            if value.truthy() {
                execution_extends(body, first, output, host, fuel);
                match exec(body, first, output, host, fuel) {
                    Executed::Done { environment: second, output: printed } => {
                        crate::environment::extension_is_an_order(second, first, environment);
                        if fuel > 0 {
                            loop_extends(condition, body, second, printed, host, (fuel - 1) as nat);
                            match exec_while(
                                condition,
                                body,
                                second,
                                printed,
                                host,
                                (fuel - 1) as nat,
                            ) {
                                Executed::Done { environment: after, output: last } => {
                                    crate::environment::extension_is_an_order(
                                        after,
                                        second,
                                        environment,
                                    );
                                },
                                _ => {},
                            }
                        }
                    },
                    _ => {},
                }
            }
        },
        _ => {},
    }
}

/// Block entry and exit are balanced: what a block declares is gone when
/// the block is left. After any block, in any environment, every scope
/// holds exactly the names that it held before the block, so that a name
/// which the block declared reads outside as it did before, or is
/// undefined as it was.
pub proof fn blocks_do_not_leak(
    statements: Seq<StmtView>,
    environment: EnvironmentView,
    output: Seq<Seq<char>>,
    host: Host,
    fuel: nat,
)
    ensures
        exec(
            StmtView::Block { statements },
            environment,
            output,
            host,
            fuel,
        ) matches Executed::Done { environment: after, output: printed } ==> {
            &&& after.same_names(environment)
            &&& forall|name: Seq<char>|
                #[trigger] after.get(name) is Some <==> environment.get(name) is Some
        },
{
    let block = StmtView::Block { statements };
    execution_extends(block, environment, output, host, fuel);
    match exec(block, environment, output, host, fuel) {
        Executed::Done { environment: after, output: printed } => {
            assert forall|name: Seq<char>| #[trigger]
                after.get(name) is Some <==> environment.get(name) is Some by {
                same_names_define_alike(after, environment, name);
            }
        },
        _ => {},
    }
}

/// Chains with the same names define the same names.
pub proof fn same_names_define_alike(a: EnvironmentView, b: EnvironmentView, name: Seq<char>)
    requires
        a.same_names(b),
    ensures
        a.get(name) is Some <==> b.get(name) is Some,
    decreases a,
{
    assert(a.values.contains_key(name) == b.values.contains_key(name)) by {
        assert(a.values.dom().contains(name) == b.values.dom().contains(name));
    }
    if !a.values.contains_key(name) {
        match (a.enclosing, b.enclosing) {
            (Some(x), Some(y)) => {
                same_names_define_alike(*x, *y, name);
            },
            _ => {},
        }
    }
}

} // verus!
