//! A printer for expressions, as tokens, and the proof that the parser
//! reads back what the printer writes: parsing the printed form of an
//! expression gives the expression itself. Evaluation is a function of the
//! tree, so an expression and its printed form evaluate alike.

use vstd::prelude::*;
use vstd::string::StringExecFns;

use crate::expression::Expr;
use crate::expression::ExprView;
use crate::parser::infix_node;
use crate::parser::infix_operator;
use crate::parser::ParserView;
use crate::scanner::keyword;
use crate::stmt::StmtView;
use crate::token::token_views;
use crate::token::tokens_pushed;
use crate::token::Literal;
use crate::token::LiteralView;
use crate::token::Token;
use crate::token::TokenType;
use crate::token::TokenView;
use crate::environment::EnvironmentView;
use crate::interpreter::InterpreterView;
use crate::semantics::eval;
use crate::semantics::exec_program;
use crate::semantics::line_of;
use crate::semantics::Evaluated;
use crate::semantics::Host;
use crate::semantics::run_source;
use crate::semantics::Ran;
use crate::spelling::all_scannable;
use crate::spelling::scannable;
use crate::spelling::spell;
use crate::LoxView;

verus! {

/// A token of kind `kind` with the text `lexeme` and no payload, on line 1.
pub open spec fn plain_token(kind: TokenType, lexeme: Seq<char>) -> TokenView {
    TokenView { token_type: kind, lexeme, literal: None, line: 1 }
}

/// The token that writes a literal.
pub open spec fn literal_token(value: LiteralView) -> TokenView {
    match value {
        LiteralView::Str(s) => TokenView {
            token_type: TokenType::String,
            lexeme: "\""@ + s + "\""@,
            literal: Some(value),
            line: 1,
        },
        LiteralView::Num(n) => TokenView {
            token_type: TokenType::Num,
            lexeme: n,
            literal: Some(value),
            line: 1,
        },
        LiteralView::False => plain_token(TokenType::False, "false"@),
        LiteralView::True => plain_token(TokenType::True, "true"@),
        LiteralView::Nill => plain_token(TokenType::Nil, "nil"@),
    }
}

/// Whether `token` writes the literal `value`.
pub open spec fn writes(token: TokenView, value: LiteralView) -> bool {
    match value {
        LiteralView::Str(_) => token.token_type == TokenType::String && token.literal == Some(
            value,
        ),
        LiteralView::Num(_) => token.token_type == TokenType::Num && token.literal == Some(value),
        LiteralView::False => token.token_type == TokenType::False,
        LiteralView::True => token.token_type == TokenType::True,
        LiteralView::Nill => token.token_type == TokenType::Nil,
    }
}

/// The printed form of an expression: its tokens, in the order of the
/// source. The tokens that the tree holds are written as they are; the
/// others are made.
pub open spec fn show(e: ExprView) -> Seq<TokenView>
    decreases e,
{
    match e {
        ExprView::Binary { left, operator, right } => show(*left).push(operator) + show(*right),
        ExprView::Grouping { expression } => seq![plain_token(TokenType::LParen, "("@)] + show(
            *expression,
        ).push(plain_token(TokenType::RParen, ")"@)),
        ExprView::Literal { value } => seq![literal_token(value)],
        ExprView::Unary { operator, right } => seq![operator] + show(*right),
        ExprView::Variable { token } => seq![token],
        ExprView::Assign { name, value } => seq![name, plain_token(TokenType::Equal, "="@)] + show(
            *value,
        ),
        ExprView::Logical { left, operator, right } => show(*left).push(operator) + show(*right),
        ExprView::Call { callee, paren, arguments } => show(*callee).push(paren),
    }
}

/// The number of tokens of the printed form.
pub open spec fn width(e: ExprView) -> nat
    decreases e,
{
    match e {
        ExprView::Binary { left, operator, right } => width(*left) + 1 + width(*right),
        ExprView::Grouping { expression } => width(*expression) + 2,
        ExprView::Literal { value } => 1,
        ExprView::Unary { operator, right } => 1 + width(*right),
        ExprView::Variable { token } => 1,
        ExprView::Assign { name, value } => 2 + width(*value),
        ExprView::Logical { left, operator, right } => width(*left) + 1 + width(*right),
        ExprView::Call { callee, paren, arguments } => width(*callee) + 1,
    }
}

/// Whether the tokens from `at` on spell the expression `e`: the tokens
/// that the tree holds stand at their places, between tokens of the kinds
/// that the grammar asks for.
pub open spec fn spelled(tokens: Seq<TokenView>, at: int, e: ExprView) -> bool
    decreases e,
{
    match e {
        ExprView::Binary { left, operator, right } => {
            &&& spelled(tokens, at, *left)
            &&& tokens[at + width(*left)] == operator
            &&& spelled(tokens, at + width(*left) + 1, *right)
        },
        ExprView::Grouping { expression } => {
            &&& tokens[at].token_type == TokenType::LParen
            &&& spelled(tokens, at + 1, *expression)
            &&& tokens[at + 1 + width(*expression)].token_type == TokenType::RParen
        },
        ExprView::Literal { value } => writes(tokens[at], value),
        ExprView::Unary { operator, right } => {
            &&& tokens[at] == operator
            &&& spelled(tokens, at + 1, *right)
        },
        ExprView::Variable { token } => tokens[at] == token,
        ExprView::Assign { name, value } => {
            &&& tokens[at] == name
            &&& tokens[at + 1].token_type == TokenType::Equal
            &&& spelled(tokens, at + 2, *value)
        },
        ExprView::Logical { left, operator, right } => {
            &&& spelled(tokens, at, *left)
            &&& tokens[at + width(*left)] == operator
            &&& spelled(tokens, at + width(*left) + 1, *right)
        },
        ExprView::Call { callee, paren, arguments } => {
            &&& spelled(tokens, at, *callee)
            &&& tokens[at + width(*callee)] == paren
        },
    }
}

/// Whether `e` is an infix expression of level `level`: a binary node, or
/// a logical node for `and` and `or`, with an operator of the level.
pub open spec fn infix_of(level: nat, e: ExprView) -> bool {
    match e {
        ExprView::Binary { left, operator, right } => level < 5 && infix_operator(
            level,
            operator.token_type,
        ),
        ExprView::Logical { left, operator, right } => 5 <= level && infix_operator(
            level,
            operator.token_type,
        ),
        _ => false,
    }
}

/// The left operand of an infix expression.
pub open spec fn left_of(e: ExprView) -> ExprView {
    match e {
        ExprView::Binary { left, operator, right } => *left,
        ExprView::Logical { left, operator, right } => *left,
        _ => e,
    }
}

/// The right operand of an infix expression.
pub open spec fn right_of(e: ExprView) -> ExprView {
    match e {
        ExprView::Binary { left, operator, right } => *right,
        ExprView::Logical { left, operator, right } => *right,
        _ => e,
    }
}

/// The operator of an infix expression.
pub open spec fn operator_of(e: ExprView) -> TokenView {
    match e {
        ExprView::Binary { left, operator, right } => operator,
        ExprView::Logical { left, operator, right } => operator,
        _ => plain_token(TokenType::Eof, Seq::empty()),
    }
}

/// Whether `e` has the shape of a primary expression: a literal, a
/// variable, or an expression in parentheses.
pub open spec fn fits_primary(e: ExprView) -> bool
    decreases e, 0nat,
{
    match e {
        ExprView::Literal { value } => true,
        ExprView::Variable { token } => token.token_type == TokenType::Id,
        ExprView::Grouping { expression } => fits_assignment(*expression),
        _ => false,
    }
}

/// Whether `e` has the shape of an operand of an infix expression of
/// level `level`.
pub open spec fn fits_operand(level: nat, e: ExprView) -> bool
    decreases e, 8 * level + 2,
{
    if level == 0 {
        fits_primary(e)
    } else if level == 1 {
        fits_unary(e)
    } else {
        fits_infix((level - 1) as nat, e)
    }
}

/// Whether `e` has the shape that the grammar gives to an infix
/// expression of level `level`: operators of the level associate to the
/// left, over operands of the level.
pub open spec fn fits_infix(level: nat, e: ExprView) -> bool
    decreases e, 8 * level + 6,
{
    ||| fits_operand(level, e)
    ||| {
        &&& infix_of(level, e)
        &&& fits_infix(level, left_of(e))
        &&& fits_operand(level, right_of(e))
    }
}

/// Whether `e` has the shape of a unary expression.
pub open spec fn fits_unary(e: ExprView) -> bool
    decreases e, 9nat,
{
    ||| fits_infix(0, e)
    ||| match e {
        ExprView::Unary { operator, right } => (operator.token_type == TokenType::Bang
            || operator.token_type == TokenType::Minus) && fits_unary(*right),
        _ => false,
    }
}

/// Whether `e` has the shape that the grammar gives to an expression:
/// each operand stands at a level that needs no parentheses around it.
pub open spec fn fits_assignment(e: ExprView) -> bool
    decreases e, 100nat,
{
    ||| fits_infix(6, e)
    ||| match e {
        ExprView::Assign { name, value } => name.token_type == TokenType::Id && fits_assignment(
            *value,
        ),
        _ => false,
    }
}

/// Whether a token of kind `t` ends every infix expression up to level
/// `level`: it is the operator of none of these levels.
pub open spec fn halts(level: nat, t: TokenType) -> bool {
    &&& !infix_operator(0, t)
    &&& level >= 1 ==> !infix_operator(1, t)
    &&& level >= 2 ==> !infix_operator(2, t)
    &&& level >= 3 ==> !infix_operator(3, t)
    &&& level >= 4 ==> !infix_operator(4, t)
    &&& level >= 5 ==> !infix_operator(5, t)
    &&& level >= 6 ==> !infix_operator(6, t)
}

impl ParserView {
    /// Whether the tokens from the next on spell `e`, and at least one
    /// token follows.
    pub open spec fn reads(self, e: ExprView) -> bool {
        &&& 0 <= self.current
        &&& self.current + width(e) < self.tokens.len()
        &&& spelled(self.tokens, self.current, e)
    }

    /// The kind of the token that follows the tokens of `e`.
    pub open spec fn follower(self, e: ExprView) -> TokenType {
        self.tokens[self.current + width(e)].token_type
    }

    /// The parser after the tokens of `e`.
    pub open spec fn past(self, e: ExprView) -> ParserView {
        ParserView { current: self.current + width(e), ..self }
    }
}

/// Every expression is printed with at least one token, and with as many
/// as `width` says.
pub proof fn width_of_show(e: ExprView)
    ensures
        width(e) >= 1,
        show(e).len() == width(e),
    decreases e,
{
    match e {
        ExprView::Binary { left, operator, right } => {
            width_of_show(*left);
            width_of_show(*right);
        },
        ExprView::Grouping { expression } => {
            width_of_show(*expression);
        },
        ExprView::Literal { value } => {},
        ExprView::Unary { operator, right } => {
            width_of_show(*right);
        },
        ExprView::Variable { token } => {},
        ExprView::Assign { name, value } => {
            width_of_show(*value);
        },
        ExprView::Logical { left, operator, right } => {
            width_of_show(*left);
            width_of_show(*right);
        },
        ExprView::Call { callee, paren, arguments } => {
            width_of_show(*callee);
        },
    }
}

/// A primary expression has the shape of an expression of every level.
pub proof fn primary_fits_every_level(e: ExprView, level: nat)
    requires
        fits_primary(e),
    ensures
        fits_operand(level, e),
        fits_infix(level, e),
        fits_unary(e),
    decreases level,
{
    if level >= 1 {
        primary_fits_every_level(e, (level - 1) as nat);
    }
    assert(fits_operand(0, e));
    assert(fits_infix(0, e));
    assert(fits_unary(e));
    assert(fits_operand(level, e));
}

/// A primary expression parses back.
pub proof fn primary_parses_back(p: ParserView, e: ExprView)
    requires
        fits_primary(e),
        p.reads(e),
    ensures
        p.primary() == p.past(e).done(e),
    decreases width(e), 0nat,
{
    reveal(ParserView::primary);
    reveal(ParserView::expression);
    width_of_show(e);
    match e {
        ExprView::Grouping { expression } => {
            let inner = p.advance();
            width_of_show(*expression);
            expression_parses_back(inner, *expression);
            let after = inner.past(*expression);
            assert(after.check(TokenType::RParen));
            assert(after.advance() == p.past(e));
        },
        _ => {},
    }
}

/// An operand of an infix expression parses back, where the token after
/// it ends the infix expressions of the levels below.
pub proof fn operand_parses_back(p: ParserView, level: nat, e: ExprView)
    requires
        level <= 6,
        fits_operand(level, e),
        p.reads(e),
        level >= 1 ==> halts((level - 1) as nat, p.follower(e)),
    ensures
        p.operand(level) == p.past(e).done(e),
    decreases width(e), 8 * level + 2,
{
    reveal(ParserView::operand);
    reveal(ParserView::primary);
    reveal(ParserView::unary);
    reveal(ParserView::infix);
    if level == 0 {
        primary_parses_back(p, e);
    } else if level == 1 {
        unary_parses_back(p, e);
    } else {
        infix_parses_back(p, (level - 1) as nat, e);
    }
}

/// An infix expression is read up to its end: after its tokens, the
/// parser stands in the loop of its level with the expression as the left
/// operand.
pub proof fn infix_arrives(p: ParserView, level: nat, e: ExprView)
    requires
        level <= 6,
        fits_infix(level, e),
        p.reads(e),
        level >= 1 ==> halts((level - 1) as nat, p.follower(e)),
    ensures
        p.infix(level) == p.past(e).infix_rest(level, e),
    decreases width(e), 8 * level + 6,
{
    reveal(ParserView::infix);
    reveal(ParserView::infix_rest);
    reveal(ParserView::operand);
    width_of_show(e);
    if !fits_operand(level, e) {
        let left = left_of(e);
        let right = right_of(e);
        let operator = operator_of(e);
        width_of_show(left);
        width_of_show(right);
        assert(p.reads(left));
        assert(p.follower(left) == operator.token_type);
        infix_arrives(p, level, left);
        let middle = p.past(left);
        assert(middle.peek() == operator);
        assert(!middle.is_end());
        let second = middle.advance();
        assert(second.reads(right));
        assert(second.follower(right) == p.follower(e));
        operand_parses_back(second, level, right);
        assert(second.past(right) == p.past(e));
        assert(p.past(e).inside(middle));
        assert(infix_node(level, left, operator, right) == e);
        assert(middle.infix_rest(level, left) == p.past(e).infix_rest(level, e));
    } else {
        operand_parses_back(p, level, e);
        assert(p.past(e).within(p));
    }
}

/// An infix expression parses back, where the token after it ends the
/// infix expressions up to its level.
pub proof fn infix_parses_back(p: ParserView, level: nat, e: ExprView)
    requires
        level <= 6,
        fits_infix(level, e),
        p.reads(e),
        halts(level, p.follower(e)),
    ensures
        p.infix(level) == p.past(e).done(e),
    decreases width(e), 8 * level + 8,
{
    reveal(ParserView::infix);
    reveal(ParserView::infix_rest);
    infix_arrives(p, level, e);
}

/// The kinds of token that a primary expression starts with.
pub open spec fn starts_primary(t: TokenType) -> bool {
    t == TokenType::False || t == TokenType::True || t == TokenType::Nil || t == TokenType::Num
        || t == TokenType::String || t == TokenType::Id || t == TokenType::LParen
}

/// A chain of primaries joined by commas starts with the first token of a
/// primary.
pub proof fn comma_chain_starts_with_a_primary(tokens: Seq<TokenView>, at: int, e: ExprView)
    requires
        fits_infix(0, e),
        spelled(tokens, at, e),
    ensures
        starts_primary(tokens[at].token_type),
    decreases width(e),
{
    if !fits_operand(0, e) {
        comma_chain_starts_with_a_primary(tokens, at, left_of(e));
    } else {
        assert(fits_primary(e));
    }
}

/// A unary expression parses back, where the token after it is no comma.
pub proof fn unary_parses_back(p: ParserView, e: ExprView)
    requires
        fits_unary(e),
        p.reads(e),
        halts(0, p.follower(e)),
    ensures
        p.unary() == p.past(e).done(e),
    decreases width(e), 9nat,
{
    reveal(ParserView::unary);
    reveal(ParserView::infix);
    width_of_show(e);
    if !fits_infix(0, e) {
        let operator = e->Unary_operator;
        let right = *e->Unary_right;
        width_of_show(right);
        assert(p.peek() == operator);
        assert(p.check(TokenType::Bang) || p.check(TokenType::Minus));
        let inner = p.advance();
        assert(inner.reads(right));
        assert(inner.follower(right) == p.follower(e));
        unary_parses_back(inner, right);
        assert(inner.past(right) == p.past(e));
    } else {
        infix_parses_back(p, 0, e);
        comma_chain_starts_with_a_primary(p.tokens, p.current, e);
    }
}

/// An expression parses back, where the token after it is neither an
/// infix operator nor `=`.
pub proof fn assignment_parses_back(p: ParserView, e: ExprView)
    requires
        fits_assignment(e),
        p.reads(e),
        halts(6, p.follower(e)),
        p.follower(e) != TokenType::Equal,
    ensures
        p.assignment() == p.past(e).done(e),
    decreases width(e), 100nat,
{
    reveal(ParserView::assignment);
    reveal(ParserView::infix);
    width_of_show(e);
    if !fits_infix(6, e) {
        let name = e->Assign_name;
        let value = *e->Assign_value;
        let target = ExprView::Variable { token: name };
        width_of_show(value);
        primary_fits_every_level(target, 6);
        assert(p.reads(target));
        infix_parses_back(p, 6, target);
        let middle = p.past(target);
        assert(middle.check(TokenType::Equal));
        let inner = middle.advance();
        assert(inner.reads(value));
        assert(inner.follower(value) == p.follower(e));
        assignment_parses_back(inner, value);
        assert(inner.past(value) == p.past(e));
    } else {
        infix_parses_back(p, 6, e);
    }
}

/// Parsing the printed form of an expression gives the expression back,
/// up to the token that follows it, and records no error. This holds of
/// every expression that has the shape which the grammar gives to
/// expressions, before every token that does not continue it.
pub proof fn expression_parses_back(p: ParserView, e: ExprView)
    requires
        fits_assignment(e),
        p.reads(e),
        halts(6, p.follower(e)),
        p.follower(e) != TokenType::Equal,
    ensures
        p.expression() == p.past(e).done(e),
    decreases width(e), 101nat,
{
    reveal(ParserView::expression);
    reveal(ParserView::assignment);
    assignment_parses_back(p, e);
}

/// The printed form of an expression spells the expression, wherever it
/// stands among other tokens.
pub proof fn show_is_spelled(tokens: Seq<TokenView>, at: int, e: ExprView)
    requires
        0 <= at,
        at + width(e) <= tokens.len(),
        tokens.subrange(at, at + width(e)) == show(e),
    ensures
        spelled(tokens, at, e),
    decreases e,
{
    width_of_show(e);
    let part = tokens.subrange(at, at + width(e));
    assert forall|i: int| 0 <= i < width(e) implies tokens[at + i] == #[trigger] show(e)[i] by {
        assert(part[i] == tokens[at + i]);
    }
    match e {
        ExprView::Binary { left, operator, right } => {
            width_of_show(*left);
            width_of_show(*right);
            let wl = width(*left) as int;
            assert(tokens.subrange(at, at + wl) =~= show(*left)) by {
                assert forall|i: int| 0 <= i < wl implies tokens[at + i] == show(*left)[i] by {
                    assert(show(e)[i] == show(*left)[i]);
                }
            }
            show_is_spelled(tokens, at, *left);
            assert(show(e)[wl] == operator);
            assert(tokens.subrange(at + wl + 1, at + wl + 1 + width(*right)) =~= show(*right)) by {
                assert forall|i: int| 0 <= i < width(*right) implies tokens[at + wl + 1 + i]
                    == show(*right)[i] by {
                    assert(show(e)[wl + 1 + i] == show(*right)[i]);
                }
            }
            show_is_spelled(tokens, at + wl + 1, *right);
        },
        ExprView::Logical { left, operator, right } => {
            width_of_show(*left);
            width_of_show(*right);
            let wl = width(*left) as int;
            assert(tokens.subrange(at, at + wl) =~= show(*left)) by {
                assert forall|i: int| 0 <= i < wl implies tokens[at + i] == show(*left)[i] by {
                    assert(show(e)[i] == show(*left)[i]);
                }
            }
            show_is_spelled(tokens, at, *left);
            assert(show(e)[wl] == operator);
            assert(tokens.subrange(at + wl + 1, at + wl + 1 + width(*right)) =~= show(*right)) by {
                assert forall|i: int| 0 <= i < width(*right) implies tokens[at + wl + 1 + i]
                    == show(*right)[i] by {
                    assert(show(e)[wl + 1 + i] == show(*right)[i]);
                }
            }
            show_is_spelled(tokens, at + wl + 1, *right);
        },
        ExprView::Grouping { expression } => {
            width_of_show(*expression);
            let w = width(*expression) as int;
            assert(show(e)[0] == plain_token(TokenType::LParen, "("@));
            assert(show(e)[w + 1] == plain_token(TokenType::RParen, ")"@));
            assert(tokens.subrange(at + 1, at + 1 + w) =~= show(*expression)) by {
                assert forall|i: int| 0 <= i < w implies tokens[at + 1 + i] == show(
                    *expression,
                )[i] by {
                    assert(show(e)[1 + i] == show(*expression)[i]);
                }
            }
            show_is_spelled(tokens, at + 1, *expression);
        },
        ExprView::Literal { value } => {
            assert(show(e)[0] == literal_token(value));
        },
        ExprView::Unary { operator, right } => {
            width_of_show(*right);
            assert(show(e)[0] == operator);
            assert(tokens.subrange(at + 1, at + 1 + width(*right)) =~= show(*right)) by {
                assert forall|i: int| 0 <= i < width(*right) implies tokens[at + 1 + i] == show(
                    *right,
                )[i] by {
                    assert(show(e)[1 + i] == show(*right)[i]);
                }
            }
            show_is_spelled(tokens, at + 1, *right);
        },
        ExprView::Variable { token } => {
            assert(show(e)[0] == token);
        },
        ExprView::Assign { name, value } => {
            width_of_show(*value);
            assert(show(e)[0] == name);
            assert(show(e)[1] == plain_token(TokenType::Equal, "="@));
            assert(tokens.subrange(at + 2, at + 2 + width(*value)) =~= show(*value)) by {
                assert forall|i: int| 0 <= i < width(*value) implies tokens[at + 2 + i] == show(
                    *value,
                )[i] by {
                    assert(show(e)[2 + i] == show(*value)[i]);
                }
            }
            show_is_spelled(tokens, at + 2, *value);
        },
        ExprView::Call { callee, paren, arguments } => {
            width_of_show(*callee);
            let w = width(*callee) as int;
            assert(tokens.subrange(at, at + w) =~= show(*callee)) by {
                assert forall|i: int| 0 <= i < w implies tokens[at + i] == show(*callee)[i] by {
                    assert(show(e)[i] == show(*callee)[i]);
                }
            }
            show_is_spelled(tokens, at, *callee);
            assert(show(e)[w] == paren);
        },
    }
}

/// The kinds of token that an expression starts with.
pub open spec fn starts_expression(t: TokenType) -> bool {
    starts_primary(t) || t == TokenType::Bang || t == TokenType::Minus
}

/// A unary expression starts with a token that starts an expression.
pub proof fn unary_starts_an_expression(tokens: Seq<TokenView>, at: int, e: ExprView)
    requires
        fits_unary(e),
        spelled(tokens, at, e),
    ensures
        starts_expression(tokens[at].token_type),
{
    if fits_infix(0, e) {
        comma_chain_starts_with_a_primary(tokens, at, e);
    }
}

/// An infix expression starts with a token that starts an expression.
pub proof fn infix_starts_an_expression(
    tokens: Seq<TokenView>,
    at: int,
    level: nat,
    e: ExprView,
)
    requires
        level <= 6,
        fits_infix(level, e),
        spelled(tokens, at, e),
    ensures
        starts_expression(tokens[at].token_type),
    decreases width(e), level,
{
    if !fits_operand(level, e) {
        infix_starts_an_expression(tokens, at, level, left_of(e));
    } else {
        if level == 0 {
            comma_chain_starts_with_a_primary(tokens, at, e);
        } else if level == 1 {
            unary_starts_an_expression(tokens, at, e);
        } else {
            infix_starts_an_expression(tokens, at, (level - 1) as nat, e);
        }
    }
}

/// The statement made of the expression `e`: `print e;` or `e;`.
pub open spec fn statement_of(e: ExprView, print: bool) -> StmtView {
    if print {
        StmtView::Print { expression: e }
    } else {
        StmtView::Expression { expression: e }
    }
}

/// The printed form of the program that consists of the one statement
/// `print e;` or `e;`: `print` where it is asked for, the printed form of
/// `e`, a ";" and the end marker.
pub open spec fn show_statement(e: ExprView, print: bool) -> Seq<TokenView> {
    let start = if print {
        seq![plain_token(TokenType::Print, "print"@)]
    } else {
        Seq::empty()
    };
    (start + show(e)).push(plain_token(TokenType::Semicolon, ";"@)).push(
        plain_token(TokenType::Eof, Seq::empty()),
    )
}

/// Parsing the printed form of a statement records no error and gives the
/// statement back. This holds of every expression that has the shape
/// which the grammar gives to expressions.
pub proof fn statement_parses_back(e: ExprView, print: bool, sink: LoxView)
    requires
        fits_assignment(e),
        !sink.had_error,
    ensures
        ({
            let parser = ParserView { tokens: show_statement(e, print), current: 0, sink };
            &&& parser.parse().node == Some(seq![statement_of(e, print)])
            &&& parser.parse().parser.sink == sink
            &&& parser.parse().parser.is_end()
            &&& sink.run_tokens(show_statement(e, print)) == InterpreterView::fresh(sink).load(
                seq![statement_of(e, print)],
            )
        }),
{
    reveal(ParserView::program);
    reveal(ParserView::declaration);
    reveal(ParserView::statement);
    reveal(ParserView::expression_statement);
    reveal(ParserView::print_statement);
    reveal(ParserView::expression);
    let tokens = show_statement(e, print);
    let parser = ParserView { tokens, current: 0, sink };
    let statement = statement_of(e, print);
    width_of_show(e);
    let w = width(e) as int;
    let at: int = if print {
        1
    } else {
        0
    };
    assert(tokens.subrange(at, at + w) =~= show(e));
    show_is_spelled(tokens, at, e);
    assert(tokens[at + w] == plain_token(TokenType::Semicolon, ";"@));
    assert(tokens[at + w + 1] == plain_token(TokenType::Eof, Seq::empty()));
    let inner = ParserView { current: at, ..parser };
    assert(inner.reads(e));
    expression_parses_back(inner, e);
    assert(starts_expression(tokens[at].token_type)) by {
        if fits_infix(6, e) {
            infix_starts_an_expression(tokens, at, 6, e);
        }
    }
    if print {
        assert(tokens[0] == plain_token(TokenType::Print, "print"@));
        assert(parser.check(TokenType::Print));
        assert(parser.advance() == inner);
    }
    let after = inner.past(e);
    assert(after.check(TokenType::Semicolon));
    let end = after.advance();
    assert(end.is_end());
    assert(inner.expression_statement() == end.done(
        StmtView::Expression { expression: e },
    ));
    assert(inner.print_statement() == end.done(StmtView::Print { expression: e }));
    assert(parser.statement() == end.done(statement));
    assert(parser.declaration() == end.done(statement));
    assert(end.inside(parser));
    assert(end.program(Seq::<StmtView>::empty().push(statement)) == (
        Seq::<StmtView>::empty().push(statement),
        end,
    ));
    assert(Seq::<StmtView>::empty().push(statement) =~= seq![statement]);
}

/// An expression and its printed form evaluate alike: the program that
/// prints the printed form of `e` writes the line of the value of `e`, in
/// every environment and with every host; and where the evaluation of `e`
/// fails, the program fails with the same error. This holds of every
/// expression that has the shape which the grammar gives to expressions.
pub proof fn printed_expression_evaluates_alike(
    e: ExprView,
    sink: LoxView,
    host: Host,
    fuel: nat,
)
    requires
        fits_assignment(e),
        !sink.had_error,
    ensures
        ({
            let loaded = sink.run_tokens(show_statement(e, true));
            let global = EnvironmentView::global();
            &&& loaded == InterpreterView::fresh(sink).load(seq![statement_of(e, true)])
            &&& exec_program(loaded.program, 0, sink, global, Seq::empty(), host, fuel)
                == (match eval(e, global, host) {
                Evaluated::Value { value, environment } => Ran::Ended {
                    sink,
                    environment,
                    output: seq![line_of(value, host)],
                },
                Evaluated::Error { token, message, environment } => Ran::Ended {
                    sink: sink.interpreter_error(token, message),
                    environment: environment.root(),
                    output: Seq::empty(),
                },
            })
        }),
{
    statement_parses_back(e, true, sink);
    let program = seq![statement_of(e, true)];
    let global = EnvironmentView::global();
    crate::environment::root_is_global(global);
    reveal_with_fuel(exec_program, 3);
    match eval(e, global, host) {
        Evaluated::Value { value, environment } => {
            assert(Seq::<Seq<char>>::empty().push(line_of(value, host)) =~= seq![
                line_of(value, host),
            ]);
        },
        _ => {},
    }
}

/// The printed form of the program `print e;` as text: the text of each
/// token, followed by a blank.
pub open spec fn show_source(e: ExprView) -> Seq<char> {
    spell(show_statement(e, true).drop_last())
}

/// Whether the scanner can read the printed form of `e`: each token that
/// `e` holds is scannable, a numeral is written as the scanner reads
/// numerals, and the text of a string holds neither a double quote nor a
/// line break.
pub open spec fn printable(e: ExprView) -> bool {
    all_scannable(show(e))
}

/// The tokens that the printer makes are scannable.
pub proof fn made_tokens_are_scannable()
    ensures
        scannable(plain_token(TokenType::LParen, "("@)),
        scannable(plain_token(TokenType::RParen, ")"@)),
        scannable(plain_token(TokenType::Equal, "="@)),
        scannable(plain_token(TokenType::Semicolon, ";"@)),
        scannable(plain_token(TokenType::Print, "print"@)),
        scannable(literal_token(LiteralView::False)),
        scannable(literal_token(LiteralView::True)),
        scannable(literal_token(LiteralView::Nill)),
        forall|n: Seq<char>|
            crate::spelling::numeral(n) ==> scannable(#[trigger] literal_token(LiteralView::Num(n))),
        forall|s: Seq<char>|
            (forall|i: int| 0 <= i < s.len() ==> (#[trigger] s[i]) != '"' && s[i] != '\n')
                ==> scannable(#[trigger] literal_token(LiteralView::Str(s))),
{
    reveal_strlit("(");
    reveal_strlit(")");
    reveal_strlit("=");
    reveal_strlit(";");
    reveal_strlit("\"");
    reveal_strlit("and");
    reveal_strlit("class");
    reveal_strlit("else");
    reveal_strlit("false");
    reveal_strlit("for");
    reveal_strlit("fun");
    reveal_strlit("if");
    reveal_strlit("nil");
    reveal_strlit("or");
    reveal_strlit("print");
    reveal_strlit("return");
    reveal_strlit("super");
    reveal_strlit("this");
    reveal_strlit("true");
    reveal_strlit("var");
    reveal_strlit("while");
    assert("true"@[1] != "this"@[1]);
    assert("true"@[0] != "else"@[0]);
    assert(keyword("true"@) == Some(TokenType::True));
    assert forall|s: Seq<char>|
        (forall|i: int| 0 <= i < s.len() ==> (#[trigger] s[i]) != '"' && s[i] != '\n')
        implies scannable(#[trigger] literal_token(LiteralView::Str(s))) by {
        let text = "\""@ + s + "\""@;
        assert(text.subrange(1, text.len() - 1) =~= s);
        assert forall|i: int| 1 <= i < text.len() - 1 implies (#[trigger] text[i]) != '"'
            && text[i] != '\n' by {
            assert(text[i] == s[i - 1]);
        }
    }
}

/// An expression and its printed form evaluate alike, from the text on.
/// Running the text `print e;`, as the printer writes it, is running the
/// statement `print e;` itself: the scanner and the parser give the
/// expression back and record no error, so that the program writes the
/// line of the value of `e`, or fails as the evaluation of `e` fails.
/// This holds of every expression that has the shape which the grammar
/// gives to expressions and whose tokens the scanner can read.
pub proof fn printed_source_runs_alike(e: ExprView, sink: LoxView, host: Host, fuel: nat)
    requires
        fits_assignment(e),
        printable(e),
        !sink.had_error,
    ensures
        sink.run(show_source(e)) == InterpreterView::fresh(sink).load(
            seq![statement_of(e, true)],
        ),
        run_source(sink, show_source(e), host, fuel) == (match eval(
            e,
            EnvironmentView::global(),
            host,
        ) {
            Evaluated::Value { value, environment } => Ran::Ended {
                sink,
                environment,
                output: seq![line_of(value, host)],
            },
            Evaluated::Error { token, message, environment } => Ran::Ended {
                sink: sink.interpreter_error(token, message),
                environment: environment.root(),
                output: Seq::empty(),
            },
        }),
{
    let all = show_statement(e, true);
    let tokens = all.drop_last();
    let source = spell(tokens);
    made_tokens_are_scannable();
    width_of_show(e);
    assert(all_scannable(tokens)) by {
        assert forall|i: int| 0 <= i < tokens.len() implies scannable(#[trigger] tokens[i]) by {
            if 1 <= i <= width(e) {
                assert(tokens[i] == show(e)[i - 1]);
            }
        }
    }
    assert(source.subrange(0, source.len() as int) =~= source);
    crate::spelling::spelling_scans(source, 0, tokens, Seq::empty(), sink);
    assert((Seq::<TokenView>::empty() + tokens).push(crate::scanner::eof_token(1)) =~= all);
    statement_parses_back(e, true, sink);
    printed_expression_evaluates_alike(e, sink, host, fuel);
    crate::environment::root_is_global(EnvironmentView::global());
}

fn plain(kind: TokenType, lexeme: &str) -> (r: Token)
    ensures
        r@ == plain_token(kind, lexeme@),
{
    Token { token_type: kind, lexeme: String::from_str(lexeme), literal: None, line: 1 }
}

fn literal(value: &Literal) -> (r: Token)
    ensures
        r@ == literal_token(value@),
{
    match value {
        Literal::Str(s) => Token {
            token_type: TokenType::String,
            lexeme: crate::text::join3("\"", s.as_str(), "\""),
            literal: Some(value.clone()),
            line: 1,
        },
        Literal::Num(n) => Token {
            token_type: TokenType::Num,
            lexeme: n.clone(),
            literal: Some(value.clone()),
            line: 1,
        },
        Literal::False => plain(TokenType::False, "false"),
        Literal::True => plain(TokenType::True, "true"),
        Literal::Nill => plain(TokenType::Nil, "nil"),
    }
}

fn put(out: &mut Vec<Token>, token: Token)
    ensures
        token_views(final(out)@) == token_views(old(out)@).push(token@),
{
    proof {
        tokens_pushed(out@, token);
    }
    out.push(token);
}

/// Appends the printed form of `e` to `out`.
pub fn write_expression(e: &Expr, out: &mut Vec<Token>)
    ensures
        token_views(final(out)@) == token_views(old(out)@) + show(e@),
    decreases e,
{
    let ghost before = token_views(out@);
    match e {
        Expr::Binary { left, operator, right } => {
            write_expression(left, out);
            put(out, operator.clone());
            write_expression(right, out);
            assert(token_views(out@) =~= before + show(e@));
        },
        Expr::Grouping { expression } => {
            put(out, plain(TokenType::LParen, "("));
            write_expression(expression, out);
            put(out, plain(TokenType::RParen, ")"));
            assert(token_views(out@) =~= before + show(e@));
        },
        Expr::Literal { value } => {
            put(out, literal(value));
            assert(token_views(out@) =~= before + show(e@));
        },
        Expr::Unary { operator, right } => {
            put(out, operator.clone());
            write_expression(right, out);
            assert(token_views(out@) =~= before + show(e@));
        },
        Expr::Variable { token } => {
            put(out, token.clone());
            assert(token_views(out@) =~= before + show(e@));
        },
        Expr::Assign { name, value } => {
            put(out, name.clone());
            put(out, plain(TokenType::Equal, "="));
            write_expression(value, out);
            assert(token_views(out@) =~= before + show(e@));
        },
        Expr::Logical { left, operator, right } => {
            write_expression(left, out);
            put(out, operator.clone());
            write_expression(right, out);
            assert(token_views(out@) =~= before + show(e@));
        },
        Expr::Call { callee, paren, arguments } => {
            write_expression(callee, out);
            put(out, paren.clone());
            assert(token_views(out@) =~= before + show(e@));
        },
    }
}

/// The printed form of `e`.
pub fn printed(e: &Expr) -> (r: Vec<Token>)
    ensures
        token_views(r@) == show(e@),
{
    let mut r: Vec<Token> = Vec::new();
    assert(token_views(r@) =~= Seq::empty());
    write_expression(e, &mut r);
    assert(token_views(r@) =~= show(e@));
    r
}

/// The tokens of the program that consists of the one statement
/// `print e;` or `e;`.
pub fn printed_statement(e: &Expr, print: bool) -> (r: Vec<Token>)
    ensures
        token_views(r@) == show_statement(e@, print),
{
    let mut r: Vec<Token> = Vec::new();
    assert(token_views(r@) =~= Seq::empty());
    if print {
        put(&mut r, plain(TokenType::Print, "print"));
    }
    let ghost start = token_views(r@);
    assert(start =~= if print {
        seq![plain_token(TokenType::Print, "print"@)]
    } else {
        Seq::empty()
    });
    write_expression(e, &mut r);
    put(&mut r, plain(TokenType::Semicolon, ";"));
    let end = Token { token_type: TokenType::Eof, lexeme: String::new(), literal: None, line: 1 };
    put(&mut r, end);
    r
}

/// The printed form of the program `print e;` as text.
pub fn printed_source(e: &Expr) -> (r: String)
    ensures
        r@ == show_source(e@),
{
    let mut tokens = printed_statement(e, true);
    let ghost all = token_views(tokens@);
    tokens.pop();
    assert(token_views(tokens@) =~= all.drop_last());
    crate::spelling::spell_tokens(&tokens)
}

} // verus!
