//! The parser: recursive descent with one token of lookahead. A syntax
//! error is recorded in the sink and ends the declaration it stands in;
//! the parser then skips to the next likely start of a statement.

use vstd::prelude::*;

use crate::expression::Expr;
use crate::expression::ExprView;
use crate::printer::fits_assignment;
use crate::printer::fits_infix;
use crate::printer::fits_operand;
use crate::printer::fits_primary;
use crate::printer::fits_unary;
use crate::stmt::sound;
use crate::stmt::stmt_views;
use crate::stmt::Stmt;
use crate::stmt::StmtView;
use crate::token::token_views;
use crate::token::view_of;
use crate::token::Literal;
use crate::token::LiteralView;
use crate::token::Token;
use crate::token::TokenType;
use crate::token::TokenView;
use crate::Lox;
use crate::LoxView;

verus! {

/// The mathematical model of a [`Parser`]: the tokens, the index of the
/// next token, and the sink.
pub struct ParserView {
    pub tokens: Seq<TokenView>,
    pub current: int,
    pub sink: LoxView,
}

/// What parsing one construct yields: the construct, or nothing where a
/// syntax error ended it, and the parser after it.
pub struct Parse<T> {
    pub node: Option<T>,
    pub parser: ParserView,
}

/// The operators of each level of left-associative infix expressions,
/// from the tightest (the comma, level 0) to the loosest (`or`, level 6).
pub open spec fn infix_operator(level: nat, t: TokenType) -> bool {
    if level == 0 {
        t == TokenType::Comma
    } else if level == 1 {
        t == TokenType::Slash || t == TokenType::Star
    } else if level == 2 {
        t == TokenType::Minus || t == TokenType::Plus
    } else if level == 3 {
        t == TokenType::Greater || t == TokenType::GreaterEqual || t == TokenType::Less || t
            == TokenType::LessEqual
    } else if level == 4 {
        t == TokenType::BangEqual || t == TokenType::EqualEqual
    } else if level == 5 {
        t == TokenType::And
    } else if level == 6 {
        t == TokenType::Or
    } else {
        false
    }
}

/// The node of an infix expression: a logical node for `and` and `or`, a
/// binary node for the other operators.
pub open spec fn infix_node(
    level: nat,
    left: ExprView,
    operator: TokenView,
    right: ExprView,
) -> ExprView {
    if level >= 5 {
        ExprView::Logical { left: Box::new(left), operator, right: Box::new(right) }
    } else {
        ExprView::Binary { left: Box::new(left), operator, right: Box::new(right) }
    }
}

/// The kinds of token at which a statement is likely to start.
pub open spec fn starts_statement(t: TokenType) -> bool {
    t == TokenType::Class || t == TokenType::Fun || t == TokenType::Var || t == TokenType::For || t
        == TokenType::If || t == TokenType::While || t == TokenType::Print || t
        == TokenType::Return
}

/// The loop that a `for` statement stands for: the body, followed by the
/// increment if there is one, repeated while the condition holds, after
/// the initializer if there is one.
pub open spec fn for_loop(
    initializer: Option<StmtView>,
    condition: ExprView,
    increment: Option<ExprView>,
    body: StmtView,
) -> StmtView {
    let body = match increment {
        Some(i) => StmtView::Block { statements: seq![body, StmtView::Expression { expression: i }] },
        None => body,
    };
    let body = StmtView::While { condition, body: Box::new(body) };
    match initializer {
        Some(i) => StmtView::Block { statements: seq![i, body] },
        None => body,
    }
}

impl ParserView {
    /// The number of tokens not yet consumed.
    pub open spec fn remaining(self) -> nat {
        if 0 <= self.current < self.tokens.len() {
            (self.tokens.len() - self.current) as nat
        } else {
            0
        }
    }

    /// The next token.
    pub open spec fn peek(self) -> TokenView {
        self.tokens[self.current]
    }

    /// The token consumed last.
    pub open spec fn previous(self) -> TokenView {
        self.tokens[self.current - 1]
    }

    /// Whether the next token is the end marker.
    pub open spec fn is_end(self) -> bool {
        self.remaining() == 0 || self.peek().token_type == TokenType::Eof
    }

    /// Whether the next token is of kind `t`. The end marker is never
    /// matched.
    pub open spec fn check(self, t: TokenType) -> bool {
        !self.is_end() && self.peek().token_type == t
    }

    /// The parser after the next token was consumed. The end marker is
    /// never consumed.
    pub open spec fn advance(self) -> ParserView {
        if self.is_end() {
            self
        } else {
            ParserView { current: self.current + 1, ..self }
        }
    }

    /// The parser after a syntax error at `token`.
    pub open spec fn error(self, token: TokenView, message: Seq<char>) -> ParserView {
        ParserView { sink: self.sink.parser_error(token, message), ..self }
    }

    /// A construct that ends in a syntax error at the next token.
    pub open spec fn fail<T>(self, message: Seq<char>) -> Parse<T> {
        Parse { node: None, parser: self.error(self.peek(), message) }
    }

    /// A construct that ended in a syntax error recorded before.
    pub open spec fn failed<T>(self) -> Parse<T> {
        Parse { node: None, parser: self }
    }

    /// A construct that was parsed.
    pub open spec fn done<T>(self, node: T) -> Parse<T> {
        Parse { node: Some(node), parser: self }
    }

    /// Consumes the next token if it is of kind `t`; records `message` at
    /// it otherwise, and does not move.
    pub open spec fn consume(self, t: TokenType, message: Seq<char>) -> Parse<TokenView> {
        if self.check(t) {
            self.advance().done(self.peek())
        } else {
            self.fail(message)
        }
    }

    /// Whether this parser has consumed at least what `origin` has.
    pub open spec fn within(self, origin: ParserView) -> bool {
        self.remaining() <= origin.remaining()
    }

    /// Whether this parser has consumed more than `origin` has.
    pub open spec fn inside(self, origin: ParserView) -> bool {
        self.remaining() < origin.remaining()
    }

    /// primary → NUMBER | STRING | "true" | "false" | "nil" | IDENT
    ///         | "(" expression ")"
    #[verifier::opaque]
    pub open spec fn primary(self) -> Parse<ExprView>
        decreases self.remaining(), 0nat,
    {
        let t = self.peek();
        if self.check(TokenType::False) {
            self.advance().done(ExprView::Literal { value: LiteralView::False })
        } else if self.check(TokenType::True) {
            self.advance().done(ExprView::Literal { value: LiteralView::True })
        } else if self.check(TokenType::Nil) {
            self.advance().done(ExprView::Literal { value: LiteralView::Nill })
        } else if self.check(TokenType::Num) || self.check(TokenType::String) {
            self.advance().done(ExprView::Literal { value: t.literal->0 })
        } else if self.check(TokenType::Id) {
            self.advance().done(ExprView::Variable { token: t })
        } else if self.check(TokenType::LParen) {
            let inner = self.advance().expression();
            match inner.node {
                Some(e) => {
                    let close = inner.parser.consume(
                        TokenType::RParen,
                        "Expect ')' after expression."@,
                    );
                    match close.node {
                        Some(_) => close.parser.done(ExprView::Grouping { expression: Box::new(e) }),
                        None => close.parser.failed(),
                    }
                },
                None => inner.parser.failed(),
            }
        } else {
            self.fail("Expect expression."@)
        }
    }

    /// The operand of an infix expression of level `level`: a primary for
    /// the comma, a unary expression for `/` and `*`, an infix expression
    /// of the level below for the others.
    #[verifier::opaque]
    pub open spec fn operand(self, level: nat) -> Parse<ExprView>
        decreases self.remaining(), 4 * level + 1,
    {
        if level == 0 {
            self.primary()
        } else if level == 1 {
            self.unary()
        } else {
            self.infix((level - 1) as nat)
        }
    }

    /// What follows the first operand of an infix expression: any number
    /// of operators of the level, each with its right operand.
    #[verifier::opaque]
    pub open spec fn infix_rest(self, level: nat, left: ExprView) -> Parse<ExprView>
        decreases self.remaining(), 4 * level + 2,
    {
        if !self.is_end() && infix_operator(level, self.peek().token_type) {
            let right = self.advance().operand(level);
            match right.node {
                Some(r) => if right.parser.inside(self) {
                    right.parser.infix_rest(level, infix_node(level, left, self.peek(), r))
                } else {
                    right.parser.failed()
                },
                None => right.parser.failed(),
            }
        } else {
            self.done(left)
        }
    }

    /// An infix expression of level `level`:
    /// comma → primary ( "," primary )*,
    /// factor → unary ( ("/"|"*") unary )*,
    /// term → factor ( ("-"|"+") factor )*,
    /// comparison → term ( (">"|">="|"<"|"<=") term )*,
    /// equality → comparison ( ("!="|"==") comparison )*,
    /// logic_and → equality ( "and" equality )*,
    /// logic_or → logic_and ( "or" logic_and )*.
    #[verifier::opaque]
    pub open spec fn infix(self, level: nat) -> Parse<ExprView>
        decreases self.remaining(), 4 * level + 3,
    {
        let left = self.operand(level);
        match left.node {
            Some(l) => if left.parser.within(self) {
                left.parser.infix_rest(level, l)
            } else {
                left.parser.failed()
            },
            None => left.parser.failed(),
        }
    }

    /// unary → ("!"|"-") unary | comma
    #[verifier::opaque]
    pub open spec fn unary(self) -> Parse<ExprView>
        decreases self.remaining(), 4nat,
    {
        if self.check(TokenType::Bang) || self.check(TokenType::Minus) {
            let right = self.advance().unary();
            match right.node {
                Some(r) => right.parser.done(
                    ExprView::Unary { operator: self.peek(), right: Box::new(r) },
                ),
                None => right.parser.failed(),
            }
        } else {
            self.infix(0)
        }
    }

    /// assignment → IDENT "=" assignment | logic_or
    ///
    /// The left side is parsed as an expression. Where `=` follows, the
    /// right side is parsed; a left side that is no variable is an error
    /// at the `=`, which does not end the declaration.
    #[verifier::opaque]
    pub open spec fn assignment(self) -> Parse<ExprView>
        decreases self.remaining(), 28nat,
    {
        let left = self.infix(6);
        match left.node {
            Some(target) => if left.parser.check(TokenType::Equal) && left.parser.within(self) {
                let value = left.parser.advance().assignment();
                match value.node {
                    Some(v) => match target {
                        ExprView::Variable { token } => value.parser.done(
                            ExprView::Assign { name: token, value: Box::new(v) },
                        ),
                        _ => value.parser.error(
                            left.parser.peek(),
                            "Invalid assignment target."@,
                        ).done(target),
                    },
                    None => value.parser.failed(),
                }
            } else {
                left.parser.done(target)
            },
            None => left.parser.failed(),
        }
    }

    /// expression → assignment
    #[verifier::opaque]
    pub open spec fn expression(self) -> Parse<ExprView>
        decreases self.remaining(), 29nat,
    {
        self.assignment()
    }

    /// exprStmt → expression ";"
    #[verifier::opaque]
    pub open spec fn expression_statement(self) -> Parse<StmtView>
        decreases self.remaining(), 30nat,
    {
        let value = self.expression();
        match value.node {
            Some(e) => {
                let end = value.parser.consume(TokenType::Semicolon, "Expect ';' after value."@);
                match end.node {
                    Some(_) => end.parser.done(StmtView::Expression { expression: e }),
                    None => end.parser.failed(),
                }
            },
            None => value.parser.failed(),
        }
    }

    /// printStmt → "print" expression ";", after the `print`.
    #[verifier::opaque]
    pub open spec fn print_statement(self) -> Parse<StmtView>
        decreases self.remaining(), 30nat,
    {
        let value = self.expression();
        match value.node {
            Some(e) => {
                let end = value.parser.consume(TokenType::Semicolon, "Expect ';' after value."@);
                match end.node {
                    Some(_) => end.parser.done(StmtView::Print { expression: e }),
                    None => end.parser.failed(),
                }
            },
            None => value.parser.failed(),
        }
    }

    /// The end of a variable declaration: the ";".
    pub open spec fn variable_end(self, name: TokenView, right: Option<ExprView>) -> Parse<
        StmtView,
    > {
        let end = self.consume(TokenType::Semicolon, "Expect ';' after variable declaration."@);
        match end.node {
            Some(_) => end.parser.done(StmtView::Var { name, right }),
            None => end.parser.failed(),
        }
    }

    /// varDecl → "var" IDENT ( "=" expression )? ";", after the `var`.
    #[verifier::opaque]
    pub open spec fn var_declaration(self) -> Parse<StmtView>
        decreases self.remaining(), 30nat,
    {
        let name = self.consume(TokenType::Id, "Expect variable name."@);
        match name.node {
            Some(n) => if name.parser.check(TokenType::Equal) {
                let value = name.parser.advance().expression();
                match value.node {
                    Some(e) => value.parser.variable_end(n, Some(e)),
                    None => value.parser.failed(),
                }
            } else {
                name.parser.variable_end(n, None)
            },
            None => name.parser.failed(),
        }
    }

    /// The statement that a condition in parentheses governs, with the
    /// condition: what `if` and `while` share. The two messages are for a
    /// missing "(" and a missing ")".
    #[verifier::opaque]
    pub open spec fn governed(self, open: Seq<char>, close: Seq<char>) -> Parse<
        (ExprView, StmtView),
    >
        decreases self.remaining(), 50nat,
    {
        let left = self.consume(TokenType::LParen, open);
        match left.node {
            Some(_) => {
                let condition = left.parser.expression();
                match condition.node {
                    Some(c) => {
                        let right = condition.parser.consume(TokenType::RParen, close);
                        match right.node {
                            Some(_) => if right.parser.within(self) {
                                let body = right.parser.statement();
                                match body.node {
                                    Some(b) => body.parser.done((c, b)),
                                    None => body.parser.failed(),
                                }
                            } else {
                                right.parser.failed()
                            },
                            None => right.parser.failed(),
                        }
                    },
                    None => condition.parser.failed(),
                }
            },
            None => left.parser.failed(),
        }
    }

    /// whileStmt → "while" "(" expression ")" statement, after the `while`.
    #[verifier::opaque]
    pub open spec fn while_statement(self) -> Parse<StmtView>
        decreases self.remaining(), 51nat,
    {
        let parts = self.governed("Expect '(' after 'while'."@, "Expect ')' after 'while'."@);
        match parts.node {
            Some(p) => parts.parser.done(StmtView::While { condition: p.0, body: Box::new(p.1) }),
            None => parts.parser.failed(),
        }
    }

    /// ifStmt → "if" "(" expression ")" statement ( "else" statement )?,
    /// after the `if`.
    #[verifier::opaque]
    pub open spec fn if_statement(self) -> Parse<StmtView>
        decreases self.remaining(), 51nat,
    {
        let parts = self.governed("Expect '(' after 'if'."@, "Expect ')' after if condition"@);
        match parts.node {
            Some(p) => if parts.parser.check(TokenType::Else) && parts.parser.within(self) {
                let other = parts.parser.advance().statement();
                match other.node {
                    Some(e) => other.parser.done(
                        StmtView::If {
                            condition: p.0,
                            then_branch: Box::new(p.1),
                            else_branch: Some(Box::new(e)),
                        },
                    ),
                    None => other.parser.failed(),
                }
            } else {
                parts.parser.done(
                    StmtView::If { condition: p.0, then_branch: Box::new(p.1), else_branch: None },
                )
            },
            None => parts.parser.failed(),
        }
    }

    /// The first clause of a `for`: nothing but a ";", a variable
    /// declaration, or an expression statement.
    #[verifier::opaque]
    pub open spec fn for_initializer(self) -> Parse<Option<StmtView>>
        decreases self.remaining(), 50nat,
    {
        if self.check(TokenType::Semicolon) {
            self.advance().done(None)
        } else {
            let first = if self.check(TokenType::Var) {
                self.advance().var_declaration()
            } else {
                self.expression_statement()
            };
            match first.node {
                Some(s) => first.parser.done(Some(s)),
                None => first.parser.failed(),
            }
        }
    }

    /// The second clause of a `for`: the condition, which is `true` where
    /// none is written, and the ";" after it.
    #[verifier::opaque]
    pub open spec fn for_condition(self) -> Parse<ExprView>
        decreases self.remaining(), 50nat,
    {
        let condition = if !self.check(TokenType::Semicolon) {
            self.expression()
        } else {
            self.done(ExprView::Literal { value: LiteralView::True })
        };
        match condition.node {
            Some(c) => {
                let end = condition.parser.consume(
                    TokenType::Semicolon,
                    "Expect ';' after loop condition."@,
                );
                match end.node {
                    Some(_) => end.parser.done(c),
                    None => end.parser.failed(),
                }
            },
            None => condition.parser.failed(),
        }
    }

    /// The third clause of a `for`: the increment, if one is written, and
    /// the ")" after it.
    #[verifier::opaque]
    pub open spec fn for_increment(self) -> Parse<Option<ExprView>>
        decreases self.remaining(), 50nat,
    {
        let increment: Parse<Option<ExprView>> = if !self.check(TokenType::RParen) {
            let e = self.expression();
            match e.node {
                Some(i) => e.parser.done(Some(i)),
                None => e.parser.failed(),
            }
        } else {
            self.done(None)
        };
        match increment.node {
            Some(i) => {
                let end = increment.parser.consume(
                    TokenType::RParen,
                    "Expect ')' after for clauses."@,
                );
                match end.node {
                    Some(_) => end.parser.done(i),
                    None => end.parser.failed(),
                }
            },
            None => increment.parser.failed(),
        }
    }

    /// forStmt → "for" "(" ( varDecl | exprStmt | ";" ) expression? ";"
    /// expression? ")" statement, after the `for`. The result is the loop
    /// that the statement stands for.
    #[verifier::opaque]
    pub open spec fn for_statement(self) -> Parse<StmtView>
        decreases self.remaining(), 51nat,
    {
        let open = self.consume(TokenType::LParen, "Expect '(' after 'for'."@);
        match open.node {
            Some(_) => {
                let initializer = open.parser.for_initializer();
                match initializer.node {
                    Some(i) => if initializer.parser.within(self) {
                        let condition = initializer.parser.for_condition();
                        match condition.node {
                            Some(c) => if condition.parser.within(self) {
                                let increment = condition.parser.for_increment();
                                match increment.node {
                                    Some(n) => if increment.parser.within(self) {
                                        let body = increment.parser.statement();
                                        match body.node {
                                            Some(b) => body.parser.done(for_loop(i, c, n, b)),
                                            None => body.parser.failed(),
                                        }
                                    } else {
                                        increment.parser.failed()
                                    },
                                    None => increment.parser.failed(),
                                }
                            } else {
                                condition.parser.failed()
                            },
                            None => condition.parser.failed(),
                        }
                    } else {
                        initializer.parser.failed()
                    },
                    None => initializer.parser.failed(),
                }
            },
            None => open.parser.failed(),
        }
    }

    /// block → "{" declaration* "}", after the "{" and the declarations
    /// `before`.
    #[verifier::opaque]
    pub open spec fn block(self, before: Seq<StmtView>) -> Parse<Seq<StmtView>>
        decreases self.remaining(), 42nat,
    {
        if !self.check(TokenType::RBrace) && !self.is_end() {
            let next = self.declaration();
            if next.parser.inside(self) {
                next.parser.block(
                    match next.node {
                        Some(s) => before.push(s),
                        None => before,
                    },
                )
            } else {
                next.parser.failed()
            }
        } else {
            let close = self.consume(TokenType::RBrace, "Expect '}' after block."@);
            match close.node {
                Some(_) => close.parser.done(before),
                None => close.parser.failed(),
            }
        }
    }

    /// statement → printStmt | ifStmt | whileStmt | forStmt | block
    ///           | exprStmt
    #[verifier::opaque]
    pub open spec fn statement(self) -> Parse<StmtView>
        decreases self.remaining(), 40nat,
    {
        if self.check(TokenType::For) {
            self.advance().for_statement()
        } else if self.check(TokenType::If) {
            self.advance().if_statement()
        } else if self.check(TokenType::Print) {
            self.advance().print_statement()
        } else if self.check(TokenType::While) {
            self.advance().while_statement()
        } else if self.check(TokenType::LBrace) {
            let body = self.advance().block(Seq::empty());
            match body.node {
                Some(statements) => body.parser.done(StmtView::Block { statements }),
                None => body.parser.failed(),
            }
        } else {
            self.expression_statement()
        }
    }

    /// Skips tokens up to the end, to just after a ";", or to just before
    /// a token that starts a statement.
    #[verifier::opaque]
    pub open spec fn skip(self) -> ParserView
        decreases self.remaining(),
    {
        if self.is_end() || self.previous().token_type == TokenType::Semicolon
            || starts_statement(self.peek().token_type) {
            self
        } else {
            self.advance().skip()
        }
    }

    /// Recovery from a syntax error: consumes one token, then skips to the
    /// next likely start of a statement.
    pub open spec fn synchronize(self) -> ParserView {
        self.advance().skip()
    }

    /// declaration → varDecl | statement. A declaration that ends in a
    /// syntax error yields nothing, and the parser recovers.
    #[verifier::opaque]
    pub open spec fn declaration(self) -> Parse<StmtView>
        decreases self.remaining(), 41nat,
    {
        let parsed = if self.check(TokenType::Var) {
            self.advance().var_declaration()
        } else {
            self.statement()
        };
        match parsed.node {
            Some(_) => parsed,
            None => parsed.parser.synchronize().failed(),
        }
    }

    /// program → declaration* EOF, after the declarations `before`.
    #[verifier::opaque]
    pub open spec fn program(self, before: Seq<StmtView>) -> (Seq<StmtView>, ParserView)
        decreases self.remaining(), 60nat,
    {
        if !self.is_end() {
            let next = self.declaration();
            if next.parser.inside(self) {
                next.parser.program(
                    match next.node {
                        Some(s) => before.push(s),
                        None => before,
                    },
                )
            } else {
                (before, next.parser)
            }
        } else {
            (before, self)
        }
    }

    /// Parsing all tokens: the statements of the program, or nothing if the
    /// sink holds a lexical or syntax error at the end.
    pub open spec fn parse(self) -> Parse<Seq<StmtView>> {
        let (statements, parser) = self.program(Seq::empty());
        if !parser.sink.had_error {
            parser.done(statements)
        } else {
            parser.failed()
        }
    }
}

/// The parser's state: the tokens, the index of the next token, and the
/// sink.
pub struct Parser {
    pub tokens: Vec<Token>,
    pub current: usize,
    pub instance: Lox,
}

impl View for Parser {
    type V = ParserView;

    open spec fn view(&self) -> ParserView {
        ParserView {
            tokens: token_views(self.tokens@),
            current: self.current as int,
            sink: self.instance@,
        }
    }
}

/// The models of the statements that an option holds, if it holds any.
pub open spec fn views_of(o: Option<Vec<Stmt>>) -> Option<Seq<StmtView>> {
    match o {
        Some(v) => Some(stmt_views(v@)),
        None => None,
    }
}

/// Every statement of the sequence is well formed.
pub open spec fn all_well_formed(statements: Seq<StmtView>) -> bool {
    forall|i: int| 0 <= i < statements.len() ==> (#[trigger] statements[i]).well_formed()
}

impl Parser {
    /// The tokens end with the end marker, the next token is one of them,
    /// and every token carries the payload that its kind asks for.
    pub open spec fn well_formed(&self) -> bool {
        &&& self.tokens.len() > 0
        &&& self.current < self.tokens.len()
        &&& self.tokens@[self.tokens.len() - 1].token_type == TokenType::Eof
        &&& forall|i: int|
            0 <= i < self.tokens.len() ==> (#[trigger] self.tokens@[i])@.well_formed()
    }

    /// This parser works on the tokens of `before` and has consumed at
    /// least what `before` has; more, where `moved` says so.
    pub open spec fn follows(&self, before: &Parser, moved: bool) -> bool {
        &&& self.well_formed()
        &&& self.tokens == before.tokens
        &&& self.current >= before.current
        &&& moved ==> self.current > before.current
    }

    /// The token consumed last.
    fn previous(&self) -> (r: Token)
        requires
            self.well_formed(),
            self.current >= 1,
        ensures
            r@ == self@.previous(),
    {
        self.tokens[self.current - 1].clone()
    }

    /// The next token.
    fn peek(&self) -> (r: Token)
        requires
            self.well_formed(),
        ensures
            r@ == self@.peek(),
    {
        self.tokens[self.current].clone()
    }

    /// Whether the next token is the end marker.
    fn is_end(&self) -> (r: bool)
        requires
            self.well_formed(),
        ensures
            r == self@.is_end(),
    {
        self.tokens[self.current].token_type == TokenType::Eof
    }

    /// Consumes the next token, unless it is the end marker, and returns
    /// the token consumed last.
    fn advance(&mut self) -> (r: Token)
        requires
            old(self).well_formed(),
            !old(self)@.is_end() || old(self).current >= 1,
        ensures
            final(self).follows(old(self), !old(self)@.is_end()),
            final(self)@ == old(self)@.advance(),
            r@ == final(self)@.previous(),
    {
        if !self.is_end() {
            self.current += 1;
        }
        self.previous()
    }

    /// Whether the next token is of kind `token_type`.
    fn check(&self, token_type: TokenType) -> (r: bool)
        requires
            self.well_formed(),
        ensures
            r == self@.check(token_type),
    {
        if self.is_end() {
            false
        } else {
            self.tokens[self.current].token_type == token_type
        }
    }

    /// Consumes the next token if its kind is among `types`.
    fn match_type_vec(&mut self, types: Vec<TokenType>) -> (r: bool)
        requires
            old(self).well_formed(),
        ensures
            final(self).follows(old(self), r),
            r == (!old(self)@.is_end() && types@.contains(old(self)@.peek().token_type)),
            final(self)@ == (if r {
                old(self)@.advance()
            } else {
                old(self)@
            }),
    {
        let mut i: usize = 0;
        while i < types.len()
            invariant
                i <= types.len(),
                self.well_formed(),
                *self == *old(self),
                forall|j: int| 0 <= j < i ==> !self@.check(types@[j]),
            decreases types.len() - i,
        {
            if self.check(types[i]) {
                self.advance();
                return true;
            }
            i = i + 1;
        }
        false
    }

    /// Consumes the next token if it is of kind `token_type`.
    fn match_type(&mut self, token_type: TokenType) -> (r: bool)
        requires
            old(self).well_formed(),
        ensures
            final(self).follows(old(self), r),
            r == old(self)@.check(token_type),
            final(self)@ == (if r {
                old(self)@.advance()
            } else {
                old(self)@
            }),
    {
        if self.check(token_type) {
            self.advance();
            return true;
        }
        false
    }

    /// Records a syntax error at `token`.
    fn error(&mut self, token: Token, message: &str)
        requires
            old(self).well_formed(),
        ensures
            final(self).follows(old(self), false),
            final(self)@ == old(self)@.error(token@, message@),
    {
        self.instance.parser_error(token, message);
    }

    /// Consumes the next token if it is of kind `token_type`; records
    /// `message` at it otherwise, and does not move.
    fn consume(&mut self, token_type: TokenType, message: &str) -> (r: Option<Token>)
        requires
            old(self).well_formed(),
        ensures
            final(self).follows(old(self), r is Some),
            (Parse { node: view_of(r), parser: final(self)@ }) == old(self)@.consume(
                token_type,
                message@,
            ),
    {
        if self.check(token_type) {
            return Some(self.advance());
        }
        let token: Token = self.peek();
        self.error(token, message);
        None
    }

    fn primary(&mut self) -> (r: Option<Expr>)
        requires
            old(self).well_formed(),
        ensures
            final(self).follows(old(self), r is Some),
            (Parse { node: view_of(r), parser: final(self)@ }) == old(self)@.primary(),
            r matches Some(e) ==> e@.well_formed() && fits_primary(e@),
        decreases old(self)@.remaining(), 0nat,
    {
        reveal(ParserView::primary);
        reveal(ParserView::expression);
        if self.match_type(TokenType::False) {
            return Some(Expr::Literal { value: Literal::False });
        }
        if self.match_type(TokenType::True) {
            return Some(Expr::Literal { value: Literal::True });
        }
        if self.match_type(TokenType::Nil) {
            return Some(Expr::Literal { value: Literal::Nill });
        }
        if self.match_type(TokenType::Num) {
            return Some(Expr::Literal { value: self.previous().literal.unwrap() });
        }
        if self.match_type(TokenType::String) {
            return Some(Expr::Literal { value: self.previous().literal.unwrap() });
        }
        if self.match_type(TokenType::Id) {
            return Some(Expr::Variable { token: self.previous() });
        }
        if self.match_type(TokenType::LParen) {
            let expr: Expr = match self.expression() {
                Some(e) => e,
                None => {
                    return None;
                },
            };
            match self.consume(TokenType::RParen, "Expect ')' after expression.") {
                Some(_) => Some(Expr::Grouping { expression: Box::new(expr) }),
                None => None,
            }
        } else {
            let a: Token = self.peek();
            self.error(a, "Expect expression.");
            None
        }
    }

    /// The operators of a level of infix expressions.
    fn operators(level: usize) -> (r: Vec<TokenType>)
        requires
            level <= 6,
        ensures
            forall|t: TokenType| r@.contains(t) == infix_operator(level as nat, t),
    {
        let mut r: Vec<TokenType> = Vec::new();
        if level == 0 {
            r.push(TokenType::Comma);
        } else if level == 1 {
            r.push(TokenType::Slash);
            r.push(TokenType::Star);
        } else if level == 2 {
            r.push(TokenType::Minus);
            r.push(TokenType::Plus);
        } else if level == 3 {
            r.push(TokenType::Greater);
            r.push(TokenType::GreaterEqual);
            r.push(TokenType::Less);
            r.push(TokenType::LessEqual);
        } else if level == 4 {
            r.push(TokenType::BangEqual);
            r.push(TokenType::EqualEqual);
        } else if level == 5 {
            r.push(TokenType::And);
        } else {
            r.push(TokenType::Or);
        }
        assert forall|t: TokenType| r@.contains(t) == infix_operator(level as nat, t) by {
            if infix_operator(level as nat, t) {
                assert(exists|i: int| 0 <= i < r@.len() && r@[i] == t) by {
                    assert(r@[0] == t || (r@.len() >= 2 && r@[1] == t) || (r@.len() >= 4 && (r@[2]
                        == t || r@[3] == t)));
                }
            }
        }
        r
    }

    /// The two unary operators.
    fn unary_operators() -> (r: Vec<TokenType>)
        ensures
            forall|t: TokenType|
                r@.contains(t) == (t == TokenType::Bang || t == TokenType::Minus),
    {
        let mut r: Vec<TokenType> = Vec::new();
        r.push(TokenType::Bang);
        r.push(TokenType::Minus);
        assert forall|t: TokenType|
            r@.contains(t) == (t == TokenType::Bang || t == TokenType::Minus) by {
            if t == r@[0] || t == r@[1] {
                assert(r@.contains(t));
            }
        }
        r
    }

    /// The operand of an infix expression of level `level`.
    fn operand(&mut self, level: usize) -> (r: Option<Expr>)
        requires
            old(self).well_formed(),
            level <= 6,
        ensures
            final(self).follows(old(self), r is Some),
            (Parse { node: view_of(r), parser: final(self)@ }) == old(self)@.operand(level as nat),
            r matches Some(e) ==> e@.well_formed() && fits_operand(level as nat, e@),
        decreases old(self)@.remaining(), 8 * level + 2,
    {
        reveal(ParserView::operand);
        reveal(ParserView::primary);
        reveal(ParserView::unary);
        reveal(ParserView::infix);
        if level == 0 {
            self.primary()
        } else if level == 1 {
            self.unary()
        } else if level == 2 {
            self.factor()
        } else if level == 3 {
            self.term()
        } else if level == 4 {
            self.comparison()
        } else if level == 5 {
            self.equality()
        } else {
            self.logic_nd()
        }
    }

    /// An infix expression of level `level`: operands of the level,
    /// joined by operators of the level, which associate to the left.
    fn infix(&mut self, level: usize) -> (r: Option<Expr>)
        requires
            old(self).well_formed(),
            level <= 6,
        ensures
            final(self).follows(old(self), r is Some),
            (Parse { node: view_of(r), parser: final(self)@ }) == old(self)@.infix(level as nat),
            r matches Some(e) ==> e@.well_formed() && fits_infix(level as nat, e@),
        decreases old(self)@.remaining(), 8 * level + 6,
    {
        reveal(ParserView::infix);
        reveal(ParserView::infix_rest);
        reveal(ParserView::operand);
        let mut expr: Expr = match self.operand(level) {
            Some(e) => e,
            None => {
                return None;
            },
        };
        assert(fits_infix(level as nat, expr@));
        let ghost mut head = self@;
        while self.match_type_vec(Self::operators(level))
            invariant
                level <= 6,
                self.follows(old(self), true),
                expr@.well_formed(),
                fits_infix(level as nat, expr@),
                head == self@,
                self@.infix_rest(level as nat, expr@) == old(self)@.infix(level as nat),
            decreases self@.remaining(),
        {
            reveal(ParserView::infix);
            reveal(ParserView::infix_rest);
            reveal(ParserView::operand);
            assert(!head.is_end() && infix_operator(level as nat, head.peek().token_type));
            assert(self@ == head.advance());
            let ghost left = expr@;
            let ghost mid = self@;
            let operator: Token = self.previous();
            assert(operator@ == head.peek());
            let right: Expr = match self.operand(level) {
                Some(e) => e,
                None => {
                    assert(mid.operand(level as nat) == self@.failed::<ExprView>());
                    assert(head.infix_rest(level as nat, left) == self@.failed::<ExprView>());
                    return None;
                },
            };
            assert(mid.operand(level as nat) == self@.done(right@));
            assert(self@.inside(head));
            expr = if level >= 5 {
                Expr::Logical { left: Box::new(expr), operator: operator, right: Box::new(right) }
            } else {
                Expr::Binary { left: Box::new(expr), operator: operator, right: Box::new(right) }
            };
            assert(expr@ == infix_node(level as nat, left, head.peek(), right@));
            assert(crate::printer::infix_of(level as nat, expr@));
            assert(fits_infix(level as nat, expr@));
            assert(head.infix_rest(level as nat, left) == self@.infix_rest(level as nat, expr@));
            proof {
                head = self@;
            }
        }
        Some(expr)
    }

    // comma → primary ( "," primary )*
    fn comma(&mut self) -> (r: Option<Expr>)
        requires
            old(self).well_formed(),
        ensures
            final(self).follows(old(self), r is Some),
            (Parse { node: view_of(r), parser: final(self)@ }) == old(self)@.infix(0),
            r matches Some(e) ==> e@.well_formed() && fits_infix(0, e@),
        decreases old(self)@.remaining(), 7nat,
    {
        self.infix(0)
    }

    // unary → ( "!" | "-" ) unary | comma
    fn unary(&mut self) -> (r: Option<Expr>)
        requires
            old(self).well_formed(),
        ensures
            final(self).follows(old(self), r is Some),
            (Parse { node: view_of(r), parser: final(self)@ }) == old(self)@.unary(),
            r matches Some(e) ==> e@.well_formed() && fits_unary(e@),
        decreases old(self)@.remaining(), 9nat,
    {
        reveal(ParserView::unary);
        reveal(ParserView::infix);
        if self.match_type_vec(Self::unary_operators()) {
            let operator: Token = self.previous();
            return match self.unary() {
                Some(right) => Some(Expr::Unary { operator: operator, right: Box::new(right) }),
                None => None,
            };
        }
        self.comma()
    }

    // factor → unary ( ( "/" | "*" ) unary )*
    fn factor(&mut self) -> (r: Option<Expr>)
        requires
            old(self).well_formed(),
        ensures
            final(self).follows(old(self), r is Some),
            (Parse { node: view_of(r), parser: final(self)@ }) == old(self)@.infix(1),
            r matches Some(e) ==> e@.well_formed() && fits_infix(1, e@),
        decreases old(self)@.remaining(), 15nat,
    {
        self.infix(1)
    }

    // term → factor ( ( "-" | "+" ) factor )*
    fn term(&mut self) -> (r: Option<Expr>)
        requires
            old(self).well_formed(),
        ensures
            final(self).follows(old(self), r is Some),
            (Parse { node: view_of(r), parser: final(self)@ }) == old(self)@.infix(2),
            r matches Some(e) ==> e@.well_formed() && fits_infix(2, e@),
        decreases old(self)@.remaining(), 23nat,
    {
        self.infix(2)
    }

    // comparison → term ( ( ">" | ">=" | "<" | "<=" ) term )*
    fn comparison(&mut self) -> (r: Option<Expr>)
        requires
            old(self).well_formed(),
        ensures
            final(self).follows(old(self), r is Some),
            (Parse { node: view_of(r), parser: final(self)@ }) == old(self)@.infix(3),
            r matches Some(e) ==> e@.well_formed() && fits_infix(3, e@),
        decreases old(self)@.remaining(), 31nat,
    {
        self.infix(3)
    }

    // equality → comparison ( ( "!=" | "==" ) comparison )*
    fn equality(&mut self) -> (r: Option<Expr>)
        requires
            old(self).well_formed(),
        ensures
            final(self).follows(old(self), r is Some),
            (Parse { node: view_of(r), parser: final(self)@ }) == old(self)@.infix(4),
            r matches Some(e) ==> e@.well_formed() && fits_infix(4, e@),
        decreases old(self)@.remaining(), 39nat,
    {
        self.infix(4)
    }

    // logic_nd → equality ( "and" equality )*
    fn logic_nd(&mut self) -> (r: Option<Expr>)
        requires
            old(self).well_formed(),
        ensures
            final(self).follows(old(self), r is Some),
            (Parse { node: view_of(r), parser: final(self)@ }) == old(self)@.infix(5),
            r matches Some(e) ==> e@.well_formed() && fits_infix(5, e@),
        decreases old(self)@.remaining(), 47nat,
    {
        self.infix(5)
    }

    // logic_or → logic_nd ( "or" logic_nd )*
    fn logic_or(&mut self) -> (r: Option<Expr>)
        requires
            old(self).well_formed(),
        ensures
            final(self).follows(old(self), r is Some),
            (Parse { node: view_of(r), parser: final(self)@ }) == old(self)@.infix(6),
            r matches Some(e) ==> e@.well_formed() && fits_infix(6, e@),
        decreases old(self)@.remaining(), 55nat,
    {
        self.infix(6)
    }

    // assignment → IDENTIFIER "=" assignment | logic_or
    fn assignment(&mut self) -> (r: Option<Expr>)
        requires
            old(self).well_formed(),
        ensures
            final(self).follows(old(self), r is Some),
            (Parse { node: view_of(r), parser: final(self)@ }) == old(self)@.assignment(),
            r matches Some(e) ==> e@.well_formed() && fits_assignment(e@),
        decreases old(self)@.remaining(), 100nat,
    {
        reveal(ParserView::assignment);
        reveal(ParserView::infix);
        let expr: Expr = match self.logic_or() {
            Some(e) => e,
            None => {
                return None;
            },
        };
        if self.match_type(TokenType::Equal) {
            let equals: Token = self.previous();
            let value: Expr = match self.assignment() {
                Some(e) => e,
                None => {
                    return None;
                },
            };
            match expr {
                Expr::Variable { token } => {
                    return Some(Expr::Assign { name: token, value: Box::new(value) });
                },
                _ => {
                    self.error(equals, "Invalid assignment target.");
                    return Some(expr);
                },
            }
        }
        Some(expr)
    }

    // expression → assignment
    fn expression(&mut self) -> (r: Option<Expr>)
        requires
            old(self).well_formed(),
        ensures
            final(self).follows(old(self), r is Some),
            (Parse { node: view_of(r), parser: final(self)@ }) == old(self)@.expression(),
            r matches Some(e) ==> e@.well_formed() && fits_assignment(e@),
        decreases old(self)@.remaining(), 101nat,
    {
        reveal(ParserView::expression);
        reveal(ParserView::assignment);
        self.assignment()
    }

    fn expression_statement(&mut self) -> (r: Option<Stmt>)
        requires
            old(self).well_formed(),
        ensures
            final(self).follows(old(self), r is Some),
            (Parse { node: view_of(r), parser: final(self)@ }) == old(
                self,
            )@.expression_statement(),
            r matches Some(s) ==> s@.well_formed(),
        decreases old(self)@.remaining(), 110nat,
    {
        reveal(ParserView::expression_statement);
        reveal(ParserView::expression);
        let value: Expr = match self.expression() {
            Some(e) => e,
            None => {
                return None;
            },
        };
        match self.consume(TokenType::Semicolon, "Expect ';' after value.") {
            Some(_) => Some(Stmt::Expression { expression: value }),
            None => None,
        }
    }

    fn for_initializer(&mut self) -> (r: Option<Option<Stmt>>)
        requires
            old(self).well_formed(),
        ensures
            final(self).follows(old(self), r is Some),
            (Parse {
                node: match r {
                    Some(i) => Some(view_of(i)),
                    None => None,
                },
                parser: final(self)@,
            }) == old(self)@.for_initializer(),
            r matches Some(Some(s)) ==> s@.well_formed(),
        decreases old(self)@.remaining(), 150nat,
    {
        reveal(ParserView::for_initializer);
        reveal(ParserView::var_declaration);
        reveal(ParserView::expression_statement);
        if self.match_type(TokenType::Semicolon) {
            Some(None)
        } else if self.match_type(TokenType::Var) {
            match self.var_declaration() {
                Some(s) => Some(Some(s)),
                None => None,
            }
        } else {
            match self.expression_statement() {
                Some(s) => Some(Some(s)),
                None => None,
            }
        }
    }

    fn for_condition(&mut self) -> (r: Option<Expr>)
        requires
            old(self).well_formed(),
        ensures
            final(self).follows(old(self), r is Some),
            (Parse { node: view_of(r), parser: final(self)@ }) == old(self)@.for_condition(),
            r matches Some(e) ==> e@.well_formed() && fits_assignment(e@),
        decreases old(self)@.remaining(), 150nat,
    {
        reveal(ParserView::for_condition);
        reveal(ParserView::expression);
        let condition: Expr = if !self.check(TokenType::Semicolon) {
            match self.expression() {
                Some(e) => e,
                None => {
                    return None;
                },
            }
        } else {
            proof {
                crate::printer::primary_fits_every_level(
                    ExprView::Literal { value: LiteralView::True },
                    6,
                );
            }
            Expr::Literal { value: Literal::True }
        };
        match self.consume(TokenType::Semicolon, "Expect ';' after loop condition.") {
            Some(_) => Some(condition),
            None => None,
        }
    }

    fn for_increment(&mut self) -> (r: Option<Option<Expr>>)
        requires
            old(self).well_formed(),
        ensures
            final(self).follows(old(self), r is Some),
            (Parse {
                node: match r {
                    Some(i) => Some(view_of(i)),
                    None => None,
                },
                parser: final(self)@,
            }) == old(self)@.for_increment(),
            r matches Some(Some(e)) ==> sound(e@),
        decreases old(self)@.remaining(), 150nat,
    {
        reveal(ParserView::for_increment);
        reveal(ParserView::expression);
        let increment: Option<Expr> = if !self.check(TokenType::RParen) {
            match self.expression() {
                Some(e) => Some(e),
                None => {
                    return None;
                },
            }
        } else {
            None
        };
        match self.consume(TokenType::RParen, "Expect ')' after for clauses.") {
            Some(_) => Some(increment),
            None => None,
        }
    }

    fn for_statement(&mut self) -> (r: Option<Stmt>)
        requires
            old(self).well_formed(),
        ensures
            final(self).follows(old(self), r is Some),
            (Parse { node: view_of(r), parser: final(self)@ }) == old(self)@.for_statement(),
            r matches Some(s) ==> s@.well_formed(),
        decreases old(self)@.remaining(), 151nat,
    {
        reveal(ParserView::for_statement);
        reveal(ParserView::for_initializer);
        reveal(ParserView::for_condition);
        reveal(ParserView::for_increment);
        reveal(ParserView::statement);
        if self.consume(TokenType::LParen, "Expect '(' after 'for'.").is_none() {
            return None;
        }
        let initializer: Option<Stmt> = match self.for_initializer() {
            Some(i) => i,
            None => {
                return None;
            },
        };
        let condition: Expr = match self.for_condition() {
            Some(c) => c,
            None => {
                return None;
            },
        };
        let increment: Option<Expr> = match self.for_increment() {
            Some(i) => i,
            None => {
                return None;
            },
        };
        match self.statement() {
            Some(body) => Some(Self::for_loop(initializer, condition, increment, body)),
            None => None,
        }
    }

    /// The loop that a `for` statement stands for.
    fn for_loop(
        initializer: Option<Stmt>,
        condition: Expr,
        increment: Option<Expr>,
        body: Stmt,
    ) -> (r: Stmt)
        ensures
            r@ == for_loop(view_of(initializer), condition@, view_of(increment), body@),
            ({
                &&& sound(condition@)
                &&& body@.well_formed()
                &&& initializer matches Some(i) ==> i@.well_formed()
                &&& increment matches Some(i) ==> sound(i@)
            }) ==> r@.well_formed(),
    {
        reveal_with_fuel(StmtView::well_formed, 4);
        let mut body: Stmt = body;
        let ghost plain = body@;
        if let Some(step) = increment {
            let mut statements: Vec<Stmt> = Vec::new();
            statements.push(body);
            statements.push(Stmt::Expression { expression: step });
            proof {
                crate::stmt::block_model(statements);
                assert(stmt_views(statements@) =~= seq![
                    plain,
                    StmtView::Expression { expression: step@ },
                ]);
            }
            body = Stmt::Block { statements: statements };
        }
        body = Stmt::While { condition: condition, body: Box::new(body) };
        let ghost looped = body@;
        if let Some(first) = initializer {
            let mut statements: Vec<Stmt> = Vec::new();
            statements.push(first);
            statements.push(body);
            proof {
                crate::stmt::block_model(statements);
                assert(stmt_views(statements@) =~= seq![first@, looped]);
            }
            body = Stmt::Block { statements: statements };
        }
        body
    }

    /// The condition in parentheses and the statement that it governs.
    fn governed(&mut self, open: &str, close: &str) -> (r: Option<(Expr, Stmt)>)
        requires
            old(self).well_formed(),
        ensures
            final(self).follows(old(self), r is Some),
            (Parse {
                node: match r {
                    Some(p) => Some((p.0@, p.1@)),
                    None => None,
                },
                parser: final(self)@,
            }) == old(self)@.governed(open@, close@),
            r matches Some(p) ==> sound(p.0@) && p.1@.well_formed(),
        decreases old(self)@.remaining(), 150nat,
    {
        reveal(ParserView::governed);
        reveal(ParserView::expression);
        reveal(ParserView::statement);
        if self.consume(TokenType::LParen, open).is_none() {
            return None;
        }
        let condition: Expr = match self.expression() {
            Some(c) => c,
            None => {
                return None;
            },
        };
        if self.consume(TokenType::RParen, close).is_none() {
            return None;
        }
        match self.statement() {
            Some(body) => Some((condition, body)),
            None => None,
        }
    }

    fn while_statement(&mut self) -> (r: Option<Stmt>)
        requires
            old(self).well_formed(),
        ensures
            final(self).follows(old(self), r is Some),
            (Parse { node: view_of(r), parser: final(self)@ }) == old(self)@.while_statement(),
            r matches Some(s) ==> s@.well_formed(),
        decreases old(self)@.remaining(), 151nat,
    {
        reveal(ParserView::while_statement);
        reveal(ParserView::governed);
        match self.governed("Expect '(' after 'while'.", "Expect ')' after 'while'.") {
            Some((condition, body)) => Some(
                Stmt::While { condition: condition, body: Box::new(body) },
            ),
            None => None,
        }
    }

    fn if_statement(&mut self) -> (r: Option<Stmt>)
        requires
            old(self).well_formed(),
        ensures
            final(self).follows(old(self), r is Some),
            (Parse { node: view_of(r), parser: final(self)@ }) == old(self)@.if_statement(),
            r matches Some(s) ==> s@.well_formed(),
        decreases old(self)@.remaining(), 151nat,
    {
        reveal(ParserView::if_statement);
        reveal(ParserView::governed);
        reveal(ParserView::statement);
        let (condition, then_branch) = match self.governed(
            "Expect '(' after 'if'.",
            "Expect ')' after if condition",
        ) {
            Some(p) => p,
            None => {
                return None;
            },
        };
        let mut else_branch: Option<Box<Stmt>> = None;
        if self.match_type(TokenType::Else) {
            match self.statement() {
                Some(s) => {
                    else_branch = Some(Box::new(s));
                },
                None => {
                    return None;
                },
            }
        }
        Some(
            Stmt::If {
                condition: condition,
                then_branch: Box::new(then_branch),
                else_branch: else_branch,
            },
        )
    }

    fn print_statement(&mut self) -> (r: Option<Stmt>)
        requires
            old(self).well_formed(),
        ensures
            final(self).follows(old(self), r is Some),
            (Parse { node: view_of(r), parser: final(self)@ }) == old(self)@.print_statement(),
            r matches Some(s) ==> s@.well_formed(),
        decreases old(self)@.remaining(), 110nat,
    {
        reveal(ParserView::print_statement);
        reveal(ParserView::expression);
        let value: Expr = match self.expression() {
            Some(e) => e,
            None => {
                return None;
            },
        };
        match self.consume(TokenType::Semicolon, "Expect ';' after value.") {
            Some(_) => Some(Stmt::Print { expression: value }),
            None => None,
        }
    }

    fn block(&mut self) -> (r: Option<Vec<Stmt>>)
        requires
            old(self).well_formed(),
        ensures
            final(self).follows(old(self), r is Some),
            (Parse { node: views_of(r), parser: final(self)@ }) == old(self)@.block(Seq::empty()),
            r matches Some(v) ==> all_well_formed(stmt_views(v@)),
        decreases old(self)@.remaining(), 142nat,
    {
        reveal(ParserView::block);
        reveal(ParserView::declaration);
        let mut statements: Vec<Stmt> = Vec::new();
        assert(stmt_views(statements@) =~= Seq::empty());
        while !self.check(TokenType::RBrace) && !self.is_end()
            invariant
                self.follows(old(self), false),
                all_well_formed(stmt_views(statements@)),
                self@.block(stmt_views(statements@)) == old(self)@.block(Seq::empty()),
            decreases self@.remaining(),
        {
            reveal(ParserView::block);
            reveal(ParserView::declaration);
            let ghost before = stmt_views(statements@);
            if let Some(a) = self.declaration() {
                statements.push(a);
                assert(stmt_views(statements@) =~= before.push(a@));
            }
        }
        match self.consume(TokenType::RBrace, "Expect '}' after block.") {
            Some(_) => Some(statements),
            None => None,
        }
    }

    fn statement(&mut self) -> (r: Option<Stmt>)
        requires
            old(self).well_formed(),
        ensures
            final(self).follows(old(self), r is Some),
            (Parse { node: view_of(r), parser: final(self)@ }) == old(self)@.statement(),
            r matches Some(s) ==> s@.well_formed(),
        decreases old(self)@.remaining(), 140nat,
    {
        reveal(ParserView::statement);
        reveal(ParserView::for_statement);
        reveal(ParserView::if_statement);
        reveal(ParserView::print_statement);
        reveal(ParserView::while_statement);
        reveal(ParserView::block);
        reveal(ParserView::expression_statement);
        if self.match_type(TokenType::For) {
            return self.for_statement();
        }
        if self.match_type(TokenType::If) {
            return self.if_statement();
        }
        if self.match_type(TokenType::Print) {
            return self.print_statement();
        }
        if self.match_type(TokenType::While) {
            return self.while_statement();
        }
        if self.match_type(TokenType::LBrace) {
            return match self.block() {
                Some(statements) => {
                    proof {
                        crate::stmt::block_model(statements);
                    }
                    Some(Stmt::Block { statements: statements })
                },
                None => None,
            };
        }
        self.expression_statement()
    }

    /// Recovers from a syntax error: consumes one token, then skips to the
    /// next likely start of a statement.
    fn synchronize(&mut self)
        requires
            old(self).well_formed(),
        ensures
            final(self).follows(old(self), !old(self)@.is_end()),
            final(self)@ == old(self)@.synchronize(),
    {
        reveal(ParserView::skip);
        if !self.is_end() {
            self.advance();
        }
        while !self.is_end()
            invariant
                self.follows(old(self), !old(self)@.is_end()),
                self@.skip() == old(self)@.synchronize(),
                self.current >= 1 || self@.is_end(),
            decreases self@.remaining(),
        {
            reveal(ParserView::skip);
            if !(self.previous().token_type == TokenType::Semicolon) {
                match self.peek().token_type {
                    TokenType::Class
                    | TokenType::Fun
                    | TokenType::Var
                    | TokenType::For
                    | TokenType::If
                    | TokenType::While
                    | TokenType::Print
                    | TokenType::Return => {
                        return ;
                    },
                    _ => {},
                }
            } else {
                return ;
            }
            self.advance();
        }
    }

    fn variable_end(&mut self, name: Token, right: Option<Expr>) -> (r: Option<Stmt>)
        requires
            old(self).well_formed(),
        ensures
            final(self).follows(old(self), r is Some),
            (Parse { node: view_of(r), parser: final(self)@ }) == old(self)@.variable_end(
                name@,
                view_of(right),
            ),
            r matches Some(s) ==> s@ == (StmtView::Var { name: name@, right: view_of(right) }),
    {
        match self.consume(TokenType::Semicolon, "Expect ';' after variable declaration.") {
            Some(_) => Some(Stmt::Var { name: name, right: right }),
            None => None,
        }
    }

    fn var_declaration(&mut self) -> (r: Option<Stmt>)
        requires
            old(self).well_formed(),
        ensures
            final(self).follows(old(self), r is Some),
            (Parse { node: view_of(r), parser: final(self)@ }) == old(self)@.var_declaration(),
            r matches Some(s) ==> s@.well_formed(),
        decreases old(self)@.remaining(), 110nat,
    {
        reveal(ParserView::var_declaration);
        reveal(ParserView::expression);
        let name: Token = match self.consume(TokenType::Id, "Expect variable name.") {
            Some(a) => a,
            None => {
                return None;
            },
        };
        let mut initializer: Option<Expr> = None;
        if self.match_type(TokenType::Equal) {
            match self.expression() {
                Some(e) => {
                    initializer = Some(e);
                },
                None => {
                    return None;
                },
            }
        }
        self.variable_end(name, initializer)
    }

    fn declaration(&mut self) -> (r: Option<Stmt>)
        requires
            old(self).well_formed(),
        ensures
            final(self).follows(old(self), !old(self)@.is_end()),
            (Parse { node: view_of(r), parser: final(self)@ }) == old(self)@.declaration(),
            r matches Some(s) ==> s@.well_formed(),
        decreases old(self)@.remaining(), 141nat,
    {
        reveal(ParserView::declaration);
        reveal(ParserView::var_declaration);
        reveal(ParserView::statement);
        reveal(ParserView::skip);
        let parsed: Option<Stmt> = if self.match_type(TokenType::Var) {
            self.var_declaration()
        } else {
            self.statement()
        };
        match parsed {
            Some(a) => Some(a),
            None => {
                self.synchronize();
                None
            },
        }
    }

    /// Parses all tokens. Returns the statements of the program, or
    /// nothing if the sink holds a lexical or syntax error at the end.
    pub fn parse(&mut self) -> (r: Option<Vec<Stmt>>)
        requires
            old(self).well_formed(),
        ensures
            final(self).follows(old(self), false),
            final(self)@.is_end(),
            (Parse { node: views_of(r), parser: final(self)@ }) == old(self)@.parse(),
            r is Some <==> !final(self).instance.had_error,
            r matches Some(v) ==> all_well_formed(stmt_views(v@)),
    {
        reveal(ParserView::program);
        reveal(ParserView::declaration);
        let mut statements: Vec<Stmt> = Vec::new();
        assert(stmt_views(statements@) =~= Seq::empty());
        while !self.is_end()
            invariant
                self.follows(old(self), false),
                all_well_formed(stmt_views(statements@)),
                self@.program(stmt_views(statements@)) == old(self)@.program(Seq::empty()),
            decreases self@.remaining(),
        {
            reveal(ParserView::program);
            reveal(ParserView::declaration);
            let ghost before = stmt_views(statements@);
            match self.declaration() {
                Some(a) => {
                    statements.push(a);
                    assert(stmt_views(statements@) =~= before.push(a@));
                },
                None => {},
            }
        }
        if !self.instance.had_error {
            Some(statements)
        } else {
            None
        }
    }

    /// Makes a parser at the start of `tokens`.
    pub fn parser_builder(tokens: Vec<Token>, instance: Lox) -> (r: Parser)
        ensures
            r.tokens == tokens,
            r.current == 0,
            r.instance == instance,
    {
        Parser { tokens: tokens, current: 0, instance: instance }
    }
}

} // verus!
