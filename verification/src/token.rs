//! The token model: token kinds, literal payloads and the token record.

use vstd::prelude::*;

verus! {

/// The closed set of token kinds.
#[derive(Clone, Copy, Debug, PartialEq, Eq, Structural)]
pub enum TokenType {
    // Single character
    LParen,
    RParen,
    LBrace,
    RBrace,
    Comma,
    Dot,
    Minus,
    Plus,
    Semicolon,
    Slash,
    Star,
    Colon,
    Question,
    // Compare
    Bang,
    BangEqual,
    Equal,
    EqualEqual,
    Greater,
    GreaterEqual,
    Less,
    LessEqual,
    // Literals
    Id,
    String,
    Num,
    // Keywords
    And,
    Class,
    Else,
    False,
    Fun,
    For,
    If,
    Nil,
    Or,
    Print,
    Return,
    Super,
    This,
    True,
    Var,
    While,
    Eof,
}

/// A literal as it stands in the source. A number is kept as its numeral
/// (digits, optionally a point and more digits); it stands for the double
/// nearest to it, which is computed when the literal is evaluated.
#[derive(Debug)]
pub enum Literal {
    Str(String),
    Num(String),
    False,
    True,
    Nill,
}

/// The mathematical model of a [`Literal`].
pub enum LiteralView {
    Str(Seq<char>),
    Num(Seq<char>),
    False,
    True,
    Nill,
}

impl View for Literal {
    type V = LiteralView;

    open spec fn view(&self) -> LiteralView {
        match self {
            Literal::Str(s) => LiteralView::Str(s@),
            Literal::Num(s) => LiteralView::Num(s@),
            Literal::False => LiteralView::False,
            Literal::True => LiteralView::True,
            Literal::Nill => LiteralView::Nill,
        }
    }
}

impl Clone for Literal {
    fn clone(&self) -> (r: Self)
        ensures
            r@ == self@,
    {
        match self {
            Literal::Str(s) => Literal::Str(s.clone()),
            Literal::Num(s) => Literal::Num(s.clone()),
            Literal::False => Literal::False,
            Literal::True => Literal::True,
            Literal::Nill => Literal::Nill,
        }
    }
}

/// A token: its kind, the text it was scanned from, its literal payload if
/// it has one, and the line it stands on, counted from 1.
#[derive(Debug)]
pub struct Token {
    pub token_type: TokenType,
    pub lexeme: String,
    pub literal: Option<Literal>,
    pub line: u32,
}

/// The mathematical model of a [`Token`].
pub struct TokenView {
    pub token_type: TokenType,
    pub lexeme: Seq<char>,
    pub literal: Option<LiteralView>,
    pub line: int,
}

impl TokenView {
    /// What holds of every token that the scanner makes: its line is at
    /// least 1, a number carries its numeral, a string carries its body,
    /// and no other token carries a payload.
    pub open spec fn well_formed(self) -> bool {
        &&& self.line >= 1
        &&& match self.token_type {
            TokenType::Num => self.literal == Some(LiteralView::Num(self.lexeme)),
            TokenType::String => self.literal is Some && self.literal->0 is Str,
            _ => self.literal is None,
        }
    }
}

impl View for Token {
    type V = TokenView;

    open spec fn view(&self) -> TokenView {
        TokenView {
            token_type: self.token_type,
            lexeme: self.lexeme@,
            literal: match self.literal {
                Some(l) => Some(l@),
                None => None,
            },
            line: self.line as int,
        }
    }
}

impl Clone for Token {
    fn clone(&self) -> (r: Self)
        ensures
            r@ == self@,
    {
        Token {
            token_type: self.token_type,
            lexeme: self.lexeme.clone(),
            literal: match &self.literal {
                Some(l) => Some(l.clone()),
                None => None,
            },
            line: self.line,
        }
    }
}

/// The model of what an option holds, if it holds anything.
pub open spec fn view_of<T: View>(o: Option<T>) -> Option<T::V> {
    match o {
        Some(x) => Some(x@),
        None => None,
    }
}

/// The models of a sequence of tokens.
pub open spec fn token_views(tokens: Seq<Token>) -> Seq<TokenView> {
    Seq::new(tokens.len(), |i: int| tokens[i]@)
}

/// The models of a sequence of tokens with one more token.
pub proof fn tokens_pushed(tokens: Seq<Token>, token: Token)
    ensures
        token_views(tokens.push(token)) == token_views(tokens).push(token@),
{
    assert(token_views(tokens.push(token)) =~= token_views(tokens).push(token@));
}

} // verus!
