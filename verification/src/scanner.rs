//! The scanner: one pass over the characters of the source, from left to
//! right, that yields the tokens and records the lexical errors.

use vstd::prelude::*;

use crate::text::chars_of;
use crate::text::spells;
use crate::text::text_of;
use crate::token::token_views;
use crate::token::Literal;
use crate::token::LiteralView;
use crate::token::Token;
use crate::token::TokenType;
use crate::token::TokenView;
use crate::Lox;
use crate::LoxView;

verus! {

/// Whether Unicode counts `c` as numeric: a digit of any script, a letter
/// used as a number, or another numeric character.
pub uninterp spec fn unicode_numeric(c: char) -> bool;

/// `char::is_numeric` tells whether Unicode counts the character as
/// numeric. The contract gives the result its name and claims no more.
pub assume_specification[ char::is_numeric ](c: char) -> (r: bool)
    ensures
        r == unicode_numeric(c),
;

/// A decimal digit.
pub open spec fn digit(c: char) -> bool {
    '0' <= c <= '9'
}

/// A letter of the Latin alphabet, or an underscore.
pub open spec fn alpha(c: char) -> bool {
    ('a' <= c <= 'z') || ('A' <= c <= 'Z') || c == '_'
}

/// A character that may follow the first one of an identifier: a letter
/// of the Latin alphabet, an underscore, a decimal digit, or a character
/// beyond ASCII that Unicode counts as numeric.
pub open spec fn alpha_numeric(c: char) -> bool {
    alpha(c) || digit(c) || (c > '\x7f' && unicode_numeric(c))
}

/// The kind of the token that a punctuation character makes by itself.
pub open spec fn single(c: char) -> Option<TokenType> {
    if c == '(' {
        Some(TokenType::LParen)
    } else if c == ')' {
        Some(TokenType::RParen)
    } else if c == '{' {
        Some(TokenType::LBrace)
    } else if c == '}' {
        Some(TokenType::RBrace)
    } else if c == ',' {
        Some(TokenType::Comma)
    } else if c == '.' {
        Some(TokenType::Dot)
    } else if c == '-' {
        Some(TokenType::Minus)
    } else if c == '+' {
        Some(TokenType::Plus)
    } else if c == ':' {
        Some(TokenType::Colon)
    } else if c == ';' {
        Some(TokenType::Semicolon)
    } else if c == '*' {
        Some(TokenType::Star)
    } else if c == '?' {
        Some(TokenType::Question)
    } else {
        None
    }
}

/// For a character that `=` may follow: the kind of the token with the
/// `=`, and the kind without it.
pub open spec fn comparison(c: char) -> Option<(TokenType, TokenType)> {
    if c == '!' {
        Some((TokenType::BangEqual, TokenType::Bang))
    } else if c == '=' {
        Some((TokenType::EqualEqual, TokenType::Equal))
    } else if c == '<' {
        Some((TokenType::LessEqual, TokenType::Less))
    } else if c == '>' {
        Some((TokenType::GreaterEqual, TokenType::Greater))
    } else {
        None
    }
}

/// The keyword that `text` spells, if it spells one.
pub open spec fn keyword(text: Seq<char>) -> Option<TokenType> {
    if text == "and"@ {
        Some(TokenType::And)
    } else if text == "class"@ {
        Some(TokenType::Class)
    } else if text == "else"@ {
        Some(TokenType::Else)
    } else if text == "false"@ {
        Some(TokenType::False)
    } else if text == "for"@ {
        Some(TokenType::For)
    } else if text == "fun"@ {
        Some(TokenType::Fun)
    } else if text == "if"@ {
        Some(TokenType::If)
    } else if text == "nil"@ {
        Some(TokenType::Nil)
    } else if text == "or"@ {
        Some(TokenType::Or)
    } else if text == "print"@ {
        Some(TokenType::Print)
    } else if text == "return"@ {
        Some(TokenType::Return)
    } else if text == "super"@ {
        Some(TokenType::Super)
    } else if text == "this"@ {
        Some(TokenType::This)
    } else if text == "true"@ {
        Some(TokenType::True)
    } else if text == "var"@ {
        Some(TokenType::Var)
    } else if text == "while"@ {
        Some(TokenType::While)
    } else {
        None
    }
}

/// The kinds of characters that a run may consist of.
pub enum Run {
    /// Decimal digits.
    Digits,
    /// The characters of an identifier after its first.
    Word,
    /// Anything but a line break.
    Line,
    /// Anything but a double quote.
    Text,
}

impl Run {
    /// Whether `c` is of this kind.
    pub open spec fn has(self, c: char) -> bool {
        match self {
            Run::Digits => digit(c),
            Run::Word => alpha_numeric(c),
            Run::Line => c != '\n',
            Run::Text => c != '"',
        }
    }
}

/// The end of the longest run of characters of one kind that starts at
/// `pos`: the first position from `pos` on that holds no character of that
/// kind.
pub open spec fn run_end(src: Seq<char>, pos: int, kind: Run) -> int
    decreases src.len() - pos,
{
    if 0 <= pos < src.len() && kind.has(src[pos]) {
        run_end(src, pos + 1, kind)
    } else {
        pos
    }
}

/// The number of line breaks among the characters from `from` up to `to`.
pub open spec fn newlines(src: Seq<char>, from: int, to: int) -> int
    decreases to - from,
{
    if from >= to {
        0
    } else {
        newlines(src, from, to - 1) + if src[to - 1] == '\n' {
            1int
        } else {
            0int
        }
    }
}

/// Where the first `*/` from `pos` on begins, or the length of the source
/// if there is none.
pub open spec fn comment_close(src: Seq<char>, pos: int) -> int
    decreases src.len() - pos,
{
    if pos < 0 || pos >= src.len() {
        src.len() as int
    } else if src[pos] == '*' && pos + 1 < src.len() && src[pos + 1] == '/' {
        pos
    } else {
        comment_close(src, pos + 1)
    }
}

/// Where the number that starts at `start` ends: after its digits, and
/// after a point and more digits if the point is followed by a digit.
pub open spec fn number_end(src: Seq<char>, start: int) -> int {
    let whole = run_end(src, start + 1, Run::Digits);
    if whole + 1 < src.len() && src[whole] == '.' && digit(src[whole + 1]) {
        run_end(src, whole + 1, Run::Digits)
    } else {
        whole
    }
}

/// What scanning one lexeme yields: where the next lexeme starts, the line
/// reached, the token if one was made, and the message of the error if one
/// was found. An error is reported on the line reached.
pub struct Scanned {
    pub next: int,
    pub line: int,
    pub token: Option<TokenView>,
    pub error: Option<Seq<char>>,
}

/// The token of kind `kind` whose text runs from `start` up to `end`.
pub open spec fn lexeme_token(
    src: Seq<char>,
    kind: TokenType,
    start: int,
    end: int,
    line: int,
    literal: Option<LiteralView>,
) -> Scanned {
    Scanned {
        next: end,
        line,
        token: Some(
            TokenView { token_type: kind, lexeme: src.subrange(start, end), literal, line },
        ),
        error: None,
    }
}

/// Nothing but a move to `next`.
pub open spec fn skipped(next: int, line: int) -> Scanned {
    Scanned { next, line, token: None, error: None }
}

/// Scanning the lexeme that starts at `start`, on line `line`.
pub open spec fn scan_one(src: Seq<char>, start: int, line: int) -> Scanned
    recommends
        0 <= start < src.len(),
{
    let c = src[start];
    let followed_by = |d: char| start + 1 < src.len() && src[start + 1] == d;
    if single(c) is Some {
        lexeme_token(src, single(c)->0, start, start + 1, line, None)
    } else if comparison(c) is Some {
        if followed_by('=') {
            lexeme_token(src, (comparison(c)->0).0, start, start + 2, line, None)
        } else {
            lexeme_token(src, (comparison(c)->0).1, start, start + 1, line, None)
        }
    } else if c == '/' {
        if followed_by('/') {
            skipped(run_end(src, start + 2, Run::Line), line)
        } else if followed_by('*') {
            let close = comment_close(src, start + 2);
            if close < src.len() {
                skipped(close + 2, line + newlines(src, start + 2, close))
            } else {
                Scanned {
                    next: src.len() as int,
                    line: line + newlines(src, start + 2, src.len() as int),
                    token: None,
                    error: Some("Undetermined Block Comment"@),
                }
            }
        } else {
            lexeme_token(src, TokenType::Slash, start, start + 1, line, None)
        }
    } else if c == '"' {
        let close = run_end(src, start + 1, Run::Text);
        let reached = line + newlines(src, start + 1, close);
        if close < src.len() {
            lexeme_token(
                src,
                TokenType::String,
                start,
                close + 1,
                reached,
                Some(LiteralView::Str(src.subrange(start + 1, close))),
            )
        } else {
            Scanned {
                next: src.len() as int,
                line: reached,
                token: None,
                error: Some("Undetermined String"@),
            }
        }
    } else if c == ' ' || c == '\r' || c == '\t' {
        skipped(start + 1, line)
    } else if c == '\n' {
        skipped(start + 1, line + 1)
    } else if digit(c) {
        let end = number_end(src, start);
        lexeme_token(
            src,
            TokenType::Num,
            start,
            end,
            line,
            Some(LiteralView::Num(src.subrange(start, end))),
        )
    } else if alpha(c) {
        let end = run_end(src, start + 1, Run::Word);
        let kind = match keyword(src.subrange(start, end)) {
            Some(k) => k,
            None => TokenType::Id,
        };
        lexeme_token(src, kind, start, end, line, None)
    } else {
        Scanned { next: start + 1, line, token: None, error: Some("Unexpected character."@) }
    }
}

/// The token that ends every token sequence.
pub open spec fn eof_token(line: int) -> TokenView {
    TokenView { token_type: TokenType::Eof, lexeme: Seq::empty(), literal: None, line }
}

/// The tokens of a source, and the sink after its lexical errors.
pub struct Lexed {
    pub tokens: Seq<TokenView>,
    pub sink: LoxView,
}

/// Scanning from `pos` on line `line` to the end of the source, after the
/// tokens `tokens` were made and with `sink` as the sink so far.
pub open spec fn scan_from(
    src: Seq<char>,
    pos: int,
    line: int,
    tokens: Seq<TokenView>,
    sink: LoxView,
) -> Lexed
    decreases src.len() - pos,
{
    if pos < 0 || pos >= src.len() {
        Lexed { tokens: tokens.push(eof_token(line)), sink }
    } else {
        let one = scan_one(src, pos, line);
        let tokens = match one.token {
            Some(t) => tokens.push(t),
            None => tokens,
        };
        let sink = match one.error {
            Some(m) => sink.scanner_error(one.line, m),
            None => sink,
        };
        if pos < one.next <= src.len() {
            scan_from(src, one.next, one.line, tokens, sink)
        } else {
            Lexed { tokens, sink }
        }
    }
}

/// The tokens of `src`, and what `sink` becomes by its lexical errors.
pub open spec fn scan(src: Seq<char>, sink: LoxView) -> Lexed {
    scan_from(src, 0, 1, Seq::empty(), sink)
}

/// The number of lines of a source: one more than its line breaks.
pub open spec fn line_count(src: Seq<char>) -> int {
    1 + newlines(src, 0, src.len() as int)
}

/// A count of line breaks is never negative, and the count over a stretch
/// is the sum of the counts over its two parts.
pub proof fn newlines_add_up(src: Seq<char>, from: int, mid: int, to: int)
    requires
        from <= mid <= to,
    ensures
        newlines(src, from, to) == newlines(src, from, mid) + newlines(src, mid, to),
        newlines(src, from, mid) >= 0,
        newlines(src, mid, to) >= 0,
    decreases to - from,
{
    if mid < to {
        newlines_add_up(src, from, mid, to - 1);
    } else if from < mid {
        newlines_add_up(src, from, from, mid - 1);
    }
}

/// A run ends between where it starts and the end of the source.
pub proof fn run_end_is_within(src: Seq<char>, pos: int, kind: Run)
    requires
        0 <= pos <= src.len(),
    ensures
        pos <= run_end(src, pos, kind) <= src.len(),
    decreases src.len() - pos,
{
    if pos < src.len() && kind.has(src[pos]) {
        run_end_is_within(src, pos + 1, kind);
    }
}

/// A comment closes between where its body starts and the end of the
/// source, and where it closes, both characters of `*/` are there.
pub proof fn comment_close_is_within(src: Seq<char>, pos: int)
    requires
        0 <= pos <= src.len(),
    ensures
        pos <= comment_close(src, pos) <= src.len(),
        comment_close(src, pos) < src.len() ==> comment_close(src, pos) + 2 <= src.len(),
    decreases src.len() - pos,
{
    if pos < src.len() && !(src[pos] == '*' && pos + 1 < src.len() && src[pos + 1] == '/') {
        comment_close_is_within(src, pos + 1);
    }
}

/// Scanning one lexeme moves forward and stays within the source; the line
/// grows by no more than the line breaks passed; a token made is no end
/// marker, stands on the line reached and is well formed.
pub proof fn scan_one_advances(src: Seq<char>, start: int, line: int)
    requires
        0 <= start < src.len(),
        1 <= line,
    ensures
        start < scan_one(src, start, line).next <= src.len(),
        line <= scan_one(src, start, line).line <= line + newlines(
            src,
            start,
            scan_one(src, start, line).next,
        ),
        scan_one(src, start, line).token matches Some(t) ==> {
            &&& t.token_type != TokenType::Eof
            &&& t.line == scan_one(src, start, line).line
            &&& t.well_formed()
        },
{
    let one = scan_one(src, start, line);
    let c = src[start];
    run_end_is_within(src, start + 1, Run::Digits);
    run_end_is_within(src, start + 1, Run::Word);
    run_end_is_within(src, start + 1, Run::Text);
    if single(c) is Some || comparison(c) is Some {
    } else if c == '/' {
        if start + 1 < src.len() && src[start + 1] == '/' {
            run_end_is_within(src, start + 2, Run::Line);
        } else if start + 1 < src.len() && src[start + 1] == '*' {
            comment_close_is_within(src, start + 2);
            let close = comment_close(src, start + 2);
            newlines_add_up(src, start, start + 2, one.next);
            if close < src.len() {
                newlines_add_up(src, start + 2, close, one.next);
            }
        }
    } else if c == '"' {
        let close = run_end(src, start + 1, Run::Text);
        newlines_add_up(src, start, start + 1, one.next);
        newlines_add_up(src, start + 1, close, one.next);
    } else if c == '\n' {
        newlines_add_up(src, start, start + 1, one.next);
        assert(newlines(src, start, start) == 0);
        assert(newlines(src, start, start + 1) == 1);
    } else if digit(c) {
        let whole = run_end(src, start + 1, Run::Digits);
        if whole + 1 < src.len() {
            run_end_is_within(src, whole + 1, Run::Digits);
        }
    }
    newlines_add_up(src, start, start, one.next);
}

/// What holds of the tokens made so far while a source is scanned: none is
/// an end marker, each stands on a line of the source and is well formed.
pub open spec fn tokens_in_order(tokens: Seq<TokenView>, lines: int) -> bool {
    forall|i: int|
        0 <= i < tokens.len() ==> {
            &&& (#[trigger] tokens[i]).token_type != TokenType::Eof
            &&& 1 <= tokens[i].line <= lines
            &&& tokens[i].well_formed()
        }
}

/// Scanning the rest of a source adds tokens that stand on lines of the
/// source and are well formed, and ends with the one end marker.
pub proof fn scan_from_ends_with_one_eof(
    src: Seq<char>,
    pos: int,
    line: int,
    tokens: Seq<TokenView>,
    sink: LoxView,
)
    requires
        0 <= pos <= src.len(),
        1 <= line <= 1 + newlines(src, 0, pos),
        tokens_in_order(tokens, line_count(src)),
    ensures
        ({
            let all = scan_from(src, pos, line, tokens, sink).tokens;
            &&& all.len() >= 1
            &&& all.last().token_type == TokenType::Eof
            &&& all.last().well_formed()
            &&& 1 <= all.last().line <= line_count(src)
            &&& tokens_in_order(all.drop_last(), line_count(src))
        }),
    decreases src.len() - pos,
{
    newlines_add_up(src, 0, pos, src.len() as int);
    if pos >= src.len() {
        assert(tokens.push(eof_token(line)).drop_last() =~= tokens);
    } else {
        let one = scan_one(src, pos, line);
        scan_one_advances(src, pos, line);
        newlines_add_up(src, 0, pos, one.next);
        newlines_add_up(src, 0, one.next, src.len() as int);
        let next_tokens = match one.token {
            Some(t) => tokens.push(t),
            None => tokens,
        };
        let next_sink = match one.error {
            Some(m) => sink.scanner_error(one.line, m),
            None => sink,
        };
        assert(tokens_in_order(next_tokens, line_count(src)));
        scan_from_ends_with_one_eof(src, one.next, one.line, next_tokens, next_sink);
    }
}

/// The tokens of every source end with exactly one end marker, and each
/// token stands on a line between 1 and the number of lines of the source.
pub proof fn scan_ends_with_one_eof(src: Seq<char>, sink: LoxView)
    ensures
        ({
            let tokens = scan(src, sink).tokens;
            &&& tokens.len() >= 1
            &&& tokens.last().token_type == TokenType::Eof
            &&& forall|i: int|
                0 <= i < tokens.len() - 1 ==> (#[trigger] tokens[i]).token_type != TokenType::Eof
            &&& forall|i: int|
                0 <= i < tokens.len() ==> 1 <= (#[trigger] tokens[i]).line <= line_count(src)
            &&& forall|i: int| 0 <= i < tokens.len() ==> (#[trigger] tokens[i]).well_formed()
        }),
{
    scan_from_ends_with_one_eof(src, 0, 1, Seq::empty(), sink);
    let tokens = scan(src, sink).tokens;
    assert forall|i: int| 0 <= i < tokens.len() implies {
        &&& 1 <= (#[trigger] tokens[i]).line <= line_count(src)
        &&& tokens[i].well_formed()
        &&& i < tokens.len() - 1 ==> tokens[i].token_type != TokenType::Eof
    } by {
        if i < tokens.len() - 1 {
            assert(tokens[i] == tokens.drop_last()[i]);
        }
    }
}

/// The scanner's state: the sink, the source as text and as characters,
/// the tokens made so far, where the current lexeme starts, the next
/// character to read, and the current line.
pub struct Scanner {
    pub instance: Lox,
    pub source: String,
    pub source_chars: Vec<char>,
    pub tokens: Vec<Token>,
    pub start: usize,
    pub current: usize,
    pub line: u32,
}

/// The mathematical model of a [`Scanner`].
pub struct ScannerView {
    pub src: Seq<char>,
    pub tokens: Seq<TokenView>,
    pub sink: LoxView,
    pub start: int,
    pub current: int,
    pub line: int,
}

impl ScannerView {
    /// What scanning the rest of the source from this state gives.
    pub open spec fn rest(self) -> Lexed {
        scan_from(self.src, self.current, self.line, self.tokens, self.sink)
    }

    /// The state after the lexeme at `self.start` was scanned with the
    /// result `one`.
    pub open spec fn after(self, one: Scanned) -> ScannerView {
        ScannerView {
            src: self.src,
            tokens: match one.token {
                Some(t) => self.tokens.push(t),
                None => self.tokens,
            },
            sink: match one.error {
                Some(m) => self.sink.scanner_error(one.line, m),
                None => self.sink,
            },
            start: self.start,
            current: one.next,
            line: one.line,
        }
    }
}

impl View for Scanner {
    type V = ScannerView;

    open spec fn view(&self) -> ScannerView {
        ScannerView {
            src: self.source_chars@,
            tokens: token_views(self.tokens@),
            sink: self.instance@,
            start: self.start as int,
            current: self.current as int,
            line: self.line as int,
        }
    }
}

/// Makes a scanner at the start of `input`.
pub fn scanner_builder(instance: Lox, input: String) -> (scanner: Scanner)
    requires
        input@.len() < u32::MAX,
    ensures
        scanner.well_formed(),
        scanner@ == (ScannerView {
            src: input@,
            tokens: Seq::empty(),
            sink: instance@,
            start: 0,
            current: 0,
            line: 1,
        }),
{
    let chars = chars_of(input.as_str());
    let scanner = Scanner {
        instance: instance,
        source: input,
        source_chars: chars,
        tokens: Vec::new(),
        start: 0,
        current: 0,
        line: 1,
    };
    assert(scanner@.tokens =~= Seq::empty());
    scanner
}

fn clone_tokens(tokens: &Vec<Token>) -> (r: Vec<Token>)
    ensures
        token_views(r@) == token_views(tokens@),
{
    let mut r: Vec<Token> = Vec::new();
    let mut i: usize = 0;
    while i < tokens.len()
        invariant
            i <= tokens.len(),
            r.len() == i,
            forall|j: int| 0 <= j < i ==> r@[j]@ == tokens@[j]@,
        decreases tokens.len() - i,
    {
        r.push(tokens[i].clone());
        i = i + 1;
    }
    assert(token_views(r@) =~= token_views(tokens@));
    r
}

impl Scanner {
    /// The two forms of the source agree, the cursor lies within it, and
    /// the line counter cannot overflow.
    pub open spec fn well_formed(&self) -> bool {
        &&& self.source_chars@ == self.source@
        &&& self.source_chars.len() < u32::MAX
        &&& self.start <= self.current <= self.source_chars.len()
        &&& 1 <= self.line <= self.current + 1
    }

    /// Scans the rest of the source and returns all tokens made, the end
    /// marker last.
    pub fn scan_tokens(&mut self) -> (tokens: Vec<Token>)
        requires
            old(self).well_formed(),
        ensures
            final(self).well_formed(),
            final(self)@.src == old(self)@.src,
            final(self)@.current == final(self)@.src.len(),
            final(self)@.tokens == token_views(tokens@),
            token_views(tokens@) == old(self)@.rest().tokens,
            final(self)@.sink == old(self)@.rest().sink,
    {
        // While we aren't at the end of the source, scan the next lexeme.
        while !self.is_end()
            invariant
                self.well_formed(),
                self@.src == old(self)@.src,
                self@.rest() == old(self)@.rest(),
            decreases self.source_chars.len() - self.current,
        {
            self.start = self.current;
            self.scan_token();
        }
        // The token that marks the end of the source.
        self.tokens.push(
            Token {
                token_type: TokenType::Eof,
                lexeme: String::new(),
                literal: None::<Literal>,
                line: self.line,
            },
        );
        let tokens = clone_tokens(&self.tokens);
        proof {
            assert(token_views(self.tokens@) =~= old(self)@.rest().tokens);
        }
        tokens
    }

    fn scan_token(&mut self)
        requires
            old(self).well_formed(),
            old(self).start == old(self).current,
            old(self).current < old(self).source_chars.len(),
        ensures
            final(self).well_formed(),
            final(self)@ == old(self)@.after(
                scan_one(old(self)@.src, old(self)@.start, old(self)@.line),
            ),
            final(self).current > old(self).current,
    {
        let c: char = self.advance();
        match c {
            '(' => self.add_token(TokenType::LParen, None::<Literal>),
            ')' => self.add_token(TokenType::RParen, None::<Literal>),
            '{' => self.add_token(TokenType::LBrace, None::<Literal>),
            '}' => self.add_token(TokenType::RBrace, None::<Literal>),
            ',' => self.add_token(TokenType::Comma, None::<Literal>),
            '.' => self.add_token(TokenType::Dot, None::<Literal>),
            '-' => self.add_token(TokenType::Minus, None::<Literal>),
            '+' => self.add_token(TokenType::Plus, None::<Literal>),
            ':' => self.add_token(TokenType::Colon, None::<Literal>),
            ';' => self.add_token(TokenType::Semicolon, None::<Literal>),
            '*' => self.add_token(TokenType::Star, None::<Literal>),
            '?' => self.add_token(TokenType::Question, None::<Literal>),
            '!' => {
                if self.find_next('=') {
                    self.add_token(TokenType::BangEqual, None::<Literal>);
                } else {
                    self.add_token(TokenType::Bang, None::<Literal>);
                }
            },
            '=' => {
                if self.find_next('=') {
                    self.add_token(TokenType::EqualEqual, None::<Literal>);
                } else {
                    self.add_token(TokenType::Equal, None::<Literal>);
                }
            },
            '<' => {
                if self.find_next('=') {
                    self.add_token(TokenType::LessEqual, None::<Literal>);
                } else {
                    self.add_token(TokenType::Less, None::<Literal>);
                }
            },
            '>' => {
                if self.find_next('=') {
                    self.add_token(TokenType::GreaterEqual, None::<Literal>);
                } else {
                    self.add_token(TokenType::Greater, None::<Literal>);
                }
            },
            '/' => {
                if self.find_next('/') {
                    // A comment that runs to the end of the line.
                    self.line_comment();
                } else if self.find_next('*') {
                    self.block_comment();
                } else {
                    self.add_token(TokenType::Slash, None::<Literal>);
                }
            },
            '"' => self.string(),
            ' ' => {},
            '\r' => {},
            '\t' => {},
            '\n' => {
                self.line = self.line + 1;
            },
            _ => {
                if Self::is_digit(c) {
                    self.number();
                } else if Self::is_alpha(c) {
                    self.identifier();
                } else {
                    self.instance.scanner_error(self.line, "Unexpected character.");
                }
            },
        }
    }

    /// Whether the whole source was read.
    fn is_end(&self) -> (r: bool)
        ensures
            r == (self.current >= self.source_chars.len()),
    {
        self.current >= self.source_chars.len()
    }

    fn advance(&mut self) -> (c: char)
        requires
            old(self).current < old(self).source_chars.len(),
        ensures
            c == old(self).source_chars@[old(self).current as int],
            *final(self) == (Scanner { current: (old(self).current + 1) as usize, ..*old(self) }),
    {
        self.current = self.current + 1;
        self.source_chars[self.current - 1]
    }

    fn add_token(&mut self, token_type: TokenType, literal: Option<Literal>)
        requires
            old(self).well_formed(),
        ensures
            final(self).well_formed(),
            final(self)@ == (ScannerView {
                tokens: old(self)@.tokens.push(
                    TokenView {
                        token_type,
                        lexeme: old(self)@.src.subrange(old(self)@.start, old(self)@.current),
                        literal: match literal {
                            Some(l) => Some(l@),
                            None => None,
                        },
                        line: old(self)@.line,
                    },
                ),
                ..old(self)@
            }),
            final(self).start == old(self).start,
            final(self).current == old(self).current,
            final(self).line == old(self).line,
    {
        let lexeme: String = text_of(&self.source_chars, self.start, self.current);
        self.tokens.push(
            Token { token_type: token_type, lexeme: lexeme, literal: literal, line: self.line },
        );
        assert(final(self)@.tokens =~= old(self)@.tokens.push(
            TokenView {
                token_type,
                lexeme: old(self)@.src.subrange(old(self)@.start, old(self)@.current),
                literal: match literal {
                    Some(l) => Some(l@),
                    None => None,
                },
                line: old(self)@.line,
            },
        ));
    }

    fn find_next(&mut self, expected: char) -> (r: bool)
        requires
            old(self).current <= old(self).source_chars.len(),
        ensures
            r == (old(self).current < old(self).source_chars.len() && old(
                self,
            ).source_chars@[old(self).current as int] == expected),
            *final(self) == (Scanner {
                current: if r {
                    (old(self).current + 1) as usize
                } else {
                    old(self).current
                },
                ..*old(self)
            }),
    {
        if self.is_end() {
            return false;
        }
        if self.source_chars[self.current] != expected {
            return false;
        }
        self.current = self.current + 1;
        true
    }

    /// The next character, or the null character at the end.
    fn peak(&self) -> (c: char)
        requires
            self.current <= self.source_chars.len(),
        ensures
            c == (if self.current < self.source_chars.len() {
                self.source_chars@[self.current as int]
            } else {
                '\0'
            }),
    {
        if self.is_end() {
            '\0'
        } else {
            self.source_chars[self.current]
        }
    }

    /// The character after the next, or the null character past the end.
    fn peak_next(&self) -> (c: char)
        requires
            self.well_formed(),
        ensures
            c == (if self.current + 1 < self.source_chars.len() {
                self.source_chars@[self.current + 1]
            } else {
                '\0'
            }),
    {
        if self.current + 1 >= self.source_chars.len() {
            return '\0';
        }
        self.source_chars[self.current + 1]
    }

    fn line_comment(&mut self)
        requires
            old(self).well_formed(),
        ensures
            final(self).well_formed(),
            final(self)@ == (ScannerView {
                current: run_end(old(self)@.src, old(self)@.current, Run::Line),
                ..old(self)@
            }),
            final(self).current >= old(self).current,
    {
        while self.peak() != '\n' && !self.is_end()
            invariant
                self.well_formed(),
                *self == (Scanner { current: self.current, ..*old(self) }),
                old(self).current <= self.current,
                run_end(self@.src, self@.current, Run::Line) == run_end(
                    old(self)@.src,
                    old(self)@.current,
                    Run::Line,
                ),
            decreases self.source_chars.len() - self.current,
        {
            self.advance();
        }
    }

    fn block_comment(&mut self)
        requires
            old(self).well_formed(),
        ensures
            final(self).well_formed(),
            final(self).current > old(self).current || final(self).current
                == final(self).source_chars.len(),
            final(self).current >= old(self).current,
            ({
                let src = old(self)@.src;
                let close = comment_close(src, old(self)@.current);
                if close < src.len() {
                    final(self)@ == (ScannerView {
                        current: close + 2,
                        line: old(self)@.line + newlines(src, old(self)@.current, close),
                        ..old(self)@
                    })
                } else {
                    final(self)@ == (ScannerView {
                        current: src.len() as int,
                        line: old(self)@.line + newlines(src, old(self)@.current, src.len() as int),
                        sink: old(self)@.sink.scanner_error(
                            old(self)@.line + newlines(src, old(self)@.current, src.len() as int),
                            "Undetermined Block Comment"@,
                        ),
                        ..old(self)@
                    })
                }
            }),
    {
        while !self.is_end() && !(self.peak() == '*' && self.peak_next() == '/')
            invariant
                self.well_formed(),
                *self == (Scanner { current: self.current, line: self.line, ..*old(self) }),
                old(self).current <= self.current,
                self.line <= old(self).line + (self.current - old(self).current),
                self.line == old(self).line + newlines(
                    self@.src,
                    old(self)@.current,
                    self@.current,
                ),
                comment_close(self@.src, self@.current) == comment_close(
                    old(self)@.src,
                    old(self)@.current,
                ),
            decreases self.source_chars.len() - self.current,
        {
            let c: char = self.advance();
            if c == '\n' {
                self.line = self.line + 1;
            }
        }
        if self.is_end() {
            self.instance.scanner_error(self.line, "Undetermined Block Comment");
        } else {
            self.advance();
            self.advance();
        }
    }

    fn string(&mut self)
        requires
            old(self).well_formed(),
            old(self).current == old(self).start + 1,
        ensures
            final(self).well_formed(),
            final(self).current >= old(self).current,
            ({
                let src = old(self)@.src;
                let close = run_end(src, old(self)@.current, Run::Text);
                let reached = old(self)@.line + newlines(src, old(self)@.current, close);
                if close < src.len() {
                    final(self)@ == (ScannerView {
                        current: close + 1,
                        line: reached,
                        tokens: old(self)@.tokens.push(
                            TokenView {
                                token_type: TokenType::String,
                                lexeme: src.subrange(old(self)@.start, close + 1),
                                literal: Some(
                                    LiteralView::Str(src.subrange(old(self)@.start + 1, close)),
                                ),
                                line: reached,
                            },
                        ),
                        ..old(self)@
                    })
                } else {
                    final(self)@ == (ScannerView {
                        current: src.len() as int,
                        line: reached,
                        sink: old(self)@.sink.scanner_error(reached, "Undetermined String"@),
                        ..old(self)@
                    })
                }
            }),
    {
        // Up to the closing quote or the end, counting the lines.
        while self.peak() != '"' && !self.is_end()
            invariant
                self.well_formed(),
                *self == (Scanner { current: self.current, line: self.line, ..*old(self) }),
                old(self).current <= self.current,
                self.line <= old(self).line + (self.current - old(self).current),
                self.line == old(self).line + newlines(
                    self@.src,
                    old(self)@.current,
                    self@.current,
                ),
                run_end(self@.src, self@.current, Run::Text) == run_end(
                    old(self)@.src,
                    old(self)@.current,
                    Run::Text,
                ),
            decreases self.source_chars.len() - self.current,
        {
            let c: char = self.advance();
            if c == '\n' {
                self.line = self.line + 1;
            }
        }
        if self.is_end() {
            self.instance.scanner_error(self.line, "Undetermined String");
            return ;
        }
        self.advance();
        let value: String = text_of(&self.source_chars, self.start + 1, self.current - 1);
        self.add_token(TokenType::String, Some(Literal::Str(value)));
    }

    fn digits(&mut self)
        requires
            old(self).well_formed(),
        ensures
            final(self).well_formed(),
            *final(self) == (Scanner { current: final(self).current, ..*old(self) }),
            final(self)@.current == run_end(
                old(self)@.src,
                old(self)@.current,
                Run::Digits,
            ),
            final(self).current >= old(self).current,
    {
        while Self::is_digit(self.peak())
            invariant
                self.well_formed(),
                *self == (Scanner { current: self.current, ..*old(self) }),
                old(self).current <= self.current,
                run_end(self@.src, self@.current, Run::Digits) == run_end(
                    old(self)@.src,
                    old(self)@.current,
                    Run::Digits,
                ),
            decreases self.source_chars.len() - self.current,
        {
            self.advance();
        }
    }

    fn number(&mut self)
        requires
            old(self).well_formed(),
            old(self).current == old(self).start + 1,
        ensures
            final(self).well_formed(),
            final(self).current >= old(self).current,
            ({
                let src = old(self)@.src;
                let end = number_end(src, old(self)@.start);
                final(self)@ == (ScannerView {
                    current: end,
                    tokens: old(self)@.tokens.push(
                        TokenView {
                            token_type: TokenType::Num,
                            lexeme: src.subrange(old(self)@.start, end),
                            literal: Some(LiteralView::Num(src.subrange(old(self)@.start, end))),
                            line: old(self)@.line,
                        },
                    ),
                    ..old(self)@
                })
            }),
    {
        self.digits();
        // A point counts only where a digit follows it.
        if self.peak() == '.' && Self::is_digit(self.peak_next()) {
            self.advance();
            self.digits();
        }
        let num: String = text_of(&self.source_chars, self.start, self.current);
        self.add_token(TokenType::Num, Some(Literal::Num(num)));
    }

    fn is_digit(c: char) -> (r: bool)
        ensures
            r == digit(c),
    {
        c >= '0' && c <= '9'
    }

    fn identifier(&mut self)
        requires
            old(self).well_formed(),
            old(self).current == old(self).start + 1,
        ensures
            final(self).well_formed(),
            final(self).current >= old(self).current,
            ({
                let src = old(self)@.src;
                let end = run_end(src, old(self)@.current, Run::Word);
                final(self)@ == (ScannerView {
                    current: end,
                    tokens: old(self)@.tokens.push(
                        TokenView {
                            token_type: match keyword(src.subrange(old(self)@.start, end)) {
                                Some(k) => k,
                                None => TokenType::Id,
                            },
                            lexeme: src.subrange(old(self)@.start, end),
                            literal: None,
                            line: old(self)@.line,
                        },
                    ),
                    ..old(self)@
                })
            }),
    {
        while !self.is_end() && Self::is_alpha_numeric(self.peak())
            invariant
                self.well_formed(),
                *self == (Scanner { current: self.current, ..*old(self) }),
                old(self).current <= self.current,
                run_end(self@.src, self@.current, Run::Word) == run_end(
                    old(self)@.src,
                    old(self)@.current,
                    Run::Word,
                ),
            decreases self.source_chars.len() - self.current,
        {
            self.advance();
        }
        let token_type: TokenType = self.keyword_or_id();
        self.add_token(token_type, None);
    }

    /// The kind of the word between `start` and `current`: a keyword where
    /// the word is one, an identifier otherwise.
    fn keyword_or_id(&self) -> (r: TokenType)
        requires
            self.well_formed(),
        ensures
            r == (match keyword(self@.src.subrange(self@.start, self@.current)) {
                Some(k) => k,
                None => TokenType::Id,
            }),
    {
        let chars = &self.source_chars;
        let (a, b) = (self.start, self.current);
        if spells(chars, a, b, "and") {
            TokenType::And
        } else if spells(chars, a, b, "class") {
            TokenType::Class
        } else if spells(chars, a, b, "else") {
            TokenType::Else
        } else if spells(chars, a, b, "false") {
            TokenType::False
        } else if spells(chars, a, b, "for") {
            TokenType::For
        } else if spells(chars, a, b, "fun") {
            TokenType::Fun
        } else if spells(chars, a, b, "if") {
            TokenType::If
        } else if spells(chars, a, b, "nil") {
            TokenType::Nil
        } else if spells(chars, a, b, "or") {
            TokenType::Or
        } else if spells(chars, a, b, "print") {
            TokenType::Print
        } else if spells(chars, a, b, "return") {
            TokenType::Return
        } else if spells(chars, a, b, "super") {
            TokenType::Super
        } else if spells(chars, a, b, "this") {
            TokenType::This
        } else if spells(chars, a, b, "true") {
            TokenType::True
        } else if spells(chars, a, b, "var") {
            TokenType::Var
        } else if spells(chars, a, b, "while") {
            TokenType::While
        } else {
            TokenType::Id
        }
    }

    fn is_alpha(c: char) -> (r: bool)
        ensures
            r == alpha(c),
    {
        (c >= 'a' && c <= 'z') || (c >= 'A' && c <= 'Z') || c == '_'
    }

    fn is_alpha_numeric(c: char) -> (r: bool)
        ensures
            r == alpha_numeric(c),
    {
        Self::is_alpha(c) || Self::is_digit(c) || (c > '\x7f' && c.is_numeric())
    }
}

} // verus!
