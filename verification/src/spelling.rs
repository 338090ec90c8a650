//! The text of a sequence of tokens, and the proof that the scanner reads
//! the tokens back from their text.

use vstd::prelude::*;
use vstd::string::StringExecFns;

use crate::scanner::alpha;
use crate::scanner::alpha_numeric;
use crate::scanner::comparison;
use crate::scanner::digit;
use crate::scanner::eof_token;
use crate::scanner::keyword;
use crate::scanner::newlines;
use crate::scanner::number_end;
use crate::scanner::run_end;
use crate::scanner::scan_from;
use crate::scanner::scan_one;
use crate::scanner::single;
use crate::scanner::Lexed;
use crate::scanner::Run;
use crate::scanner::Scanned;
use crate::token::token_views;
use crate::token::LiteralView;
use crate::token::Token;
use crate::token::TokenType;
use crate::token::TokenView;
use crate::LoxView;

verus! {

/// The text of a sequence of tokens: the text of each token, followed by
/// a blank.
pub open spec fn spell(tokens: Seq<TokenView>) -> Seq<char>
    decreases tokens.len(),
{
    if tokens.len() == 0 {
        Seq::empty()
    } else {
        tokens[0].lexeme.push(' ') + spell(tokens.drop_first())
    }
}

/// Whether `text` is a word: a letter or an underscore, followed by
/// characters that an identifier may hold.
pub open spec fn word(text: Seq<char>) -> bool {
    &&& text.len() >= 1
    &&& alpha(text[0])
    &&& forall|i: int| 1 <= i < text.len() ==> alpha_numeric(#[trigger] text[i])
}

/// Whether `text` is a numeral: digits, and after them, at most once, a
/// point with digits.
pub open spec fn numeral(text: Seq<char>) -> bool {
    let whole = run_end(text, 0, Run::Digits);
    &&& whole >= 1
    &&& whole == text.len() || {
        &&& whole + 1 < text.len()
        &&& text[whole] == '.'
        &&& run_end(text, whole + 1, Run::Digits) == text.len()
    }
}

/// Whether `text` is a string in its quotes, on one line.
pub open spec fn quotation(text: Seq<char>) -> bool {
    &&& text.len() >= 2
    &&& text[0] == '"'
    &&& text[text.len() - 1] == '"'
    &&& forall|i: int| 1 <= i < text.len() - 1 ==> (#[trigger] text[i]) != '"' && text[i] != '\n'
}

/// Whether the scanner can make `token` from its text: the token stands
/// on line 1, its text is one that the scanner gives to tokens of its
/// kind, and it carries the payload that the scanner would give it.
pub open spec fn scannable(token: TokenView) -> bool {
    let text = token.lexeme;
    &&& token.line == 1
    &&& match token.token_type {
        TokenType::Eof => false,
        TokenType::Num => numeral(text) && token.literal == Some(LiteralView::Num(text)),
        TokenType::String => quotation(text) && token.literal == Some(
            LiteralView::Str(text.subrange(1, text.len() - 1)),
        ),
        TokenType::Slash => text.len() == 1 && text[0] == '/' && token.literal is None,
        kind => {
            &&& token.literal is None
            &&& {
                ||| text.len() == 1 && single(text[0]) == Some(kind)
                ||| text.len() == 1 && comparison(text[0]) is Some && (comparison(text[0])->0).1
                    == kind
                ||| text.len() == 2 && text[1] == '=' && comparison(text[0]) is Some && (
                comparison(text[0])->0).0 == kind
                ||| word(text) && kind == (match keyword(text) {
                    Some(k) => k,
                    None => TokenType::Id,
                })
            }
        },
    }
}

/// Whether every token of the sequence is scannable.
pub open spec fn all_scannable(tokens: Seq<TokenView>) -> bool {
    forall|i: int| 0 <= i < tokens.len() ==> scannable(#[trigger] tokens[i])
}

/// A run ends where its characters end.
pub proof fn run_covers(src: Seq<char>, from: int, to: int, kind: Run)
    requires
        0 <= from <= to <= src.len(),
        forall|i: int| from <= i < to ==> kind.has(#[trigger] src[i]),
        to == src.len() || !kind.has(src[to]),
    ensures
        run_end(src, from, kind) == to,
    decreases to - from,
{
    if from < to {
        run_covers(src, from + 1, to, kind);
    }
}

/// A run in a stretch of the source is the run in the text of the
/// stretch, where the character after the stretch is not of the kind.
pub proof fn run_in_stretch(src: Seq<char>, at: int, text: Seq<char>, from: int, kind: Run)
    requires
        0 <= at,
        at + text.len() < src.len(),
        src.subrange(at, at + text.len()) == text,
        !kind.has(src[at + text.len()]),
        0 <= from <= text.len(),
    ensures
        run_end(src, at + from, kind) == at + run_end(text, from, kind),
        from <= run_end(text, from, kind) <= text.len(),
    decreases text.len() - from,
{
    if from < text.len() {
        assert(src[at + from] == text[from]) by {
            assert(src.subrange(at, at + text.len())[from] == src[at + from]);
        }
        run_in_stretch(src, at, text, from + 1, kind);
    }
}

/// No line break among characters that are none.
pub proof fn no_newlines(src: Seq<char>, from: int, to: int)
    requires
        0 <= from <= to <= src.len(),
        forall|i: int| from <= i < to ==> (#[trigger] src[i]) != '\n',
    ensures
        newlines(src, from, to) == 0,
    decreases to - from,
{
    if from < to {
        no_newlines(src, from, to - 1);
    }
}

/// A keyword is a word.
pub proof fn keywords_are_words(text: Seq<char>)
    requires
        keyword(text) is Some,
    ensures
        word(text),
{
    reveal_strlit("and");
    reveal_strlit("class");
    reveal_strlit("else");
    reveal_strlit("false");
    reveal_strlit("for");
    reveal_strlit("fun");
    reveal_strlit("if");
    reveal_strlit("nil");
    reveal_strlit("or");
    reveal_strlit("print");
    reveal_strlit("return");
    reveal_strlit("super");
    reveal_strlit("this");
    reveal_strlit("true");
    reveal_strlit("var");
    reveal_strlit("while");
}

/// The scanner makes a scannable token from its text, where a blank
/// follows the text.
pub proof fn token_scans(src: Seq<char>, at: int, token: TokenView)
    requires
        scannable(token),
        0 <= at,
        at + token.lexeme.len() < src.len(),
        src.subrange(at, at + token.lexeme.len()) == token.lexeme,
        src[at + token.lexeme.len()] == ' ',
    ensures
        token.lexeme.len() >= 1,
        scan_one(src, at, 1) == (Scanned {
            next: at + token.lexeme.len(),
            line: 1,
            token: Some(token),
            error: None,
        }),
        scan_one(src, at + token.lexeme.len(), 1) == (Scanned {
            next: at + token.lexeme.len() + 1,
            line: 1,
            token: None,
            error: None,
        }),
{
    let text = token.lexeme;
    let n = text.len() as int;
    assert forall|i: int| 0 <= i < n implies src[at + i] == #[trigger] text[i] by {
        assert(src.subrange(at, at + n)[i] == src[at + i]);
    }
    match token.token_type {
        TokenType::Num => {
            let whole = run_end(text, 0, Run::Digits);
            assert(digit(text[0]));
            assert(run_end(text, 0, Run::Digits) == run_end(text, 1, Run::Digits));
            run_in_stretch(src, at, text, 1, Run::Digits);
            assert(run_end(src, at + 1, Run::Digits) == at + whole);
            if whole < n {
                run_in_stretch(src, at, text, whole + 1, Run::Digits);
                assert(digit(text[whole + 1])) by {
                    if !digit(text[whole + 1]) {
                        assert(run_end(text, whole + 1, Run::Digits) == whole + 1);
                    }
                }
                assert(src[at + whole] == text[whole]);
                assert(src[at + whole + 1] == text[whole + 1]);
            }
            assert(number_end(src, at) == at + n);
            assert(src.subrange(at, at + n) =~= text);
        },
        TokenType::String => {
            assert forall|i: int| at + 1 <= i < at + n - 1 implies Run::Text.has(
                #[trigger] src[i],
            ) && src[i] != '\n' by {
                assert(src[i] == text[i - at]);
            }
            assert(src[at + n - 1] == text[n - 1]);
            run_covers(src, at + 1, at + n - 1, Run::Text);
            no_newlines(src, at + 1, at + n - 1);
            assert(src.subrange(at + 1, at + n - 1) =~= text.subrange(1, n - 1));
        },
        TokenType::Slash => {
            assert(src[at] == text[0]);
            assert(src.subrange(at, at + 1) =~= text);
        },
        TokenType::Eof => {},
        kind => {
            assert(src[at] == text[0]);
            if n == 1 && single(text[0]) == Some(kind) {
                assert(src.subrange(at, at + 1) =~= text);
            } else if n == 1 && comparison(text[0]) is Some && (comparison(text[0])->0).1 == kind {
                assert(src.subrange(at, at + 1) =~= text);
            } else if n == 2 && text[1] == '=' && comparison(text[0]) is Some && (comparison(
                text[0],
            )->0).0 == kind {
                assert(src[at + 1] == text[1]);
                assert(src.subrange(at, at + 2) =~= text);
            } else {
                assert(word(text));
                assert forall|i: int| at + 1 <= i < at + n implies Run::Word.has(
                    #[trigger] src[i],
                ) by {
                    assert(src[i] == text[i - at]);
                }
                run_covers(src, at + 1, at + n, Run::Word);
            }
        },
    }
}

/// The scanner reads tokens back from their text: scanning the text of
/// scannable tokens gives the tokens, then the end marker on line 1, and
/// records no error.
pub proof fn spelling_scans(
    src: Seq<char>,
    at: int,
    tokens: Seq<TokenView>,
    before: Seq<TokenView>,
    sink: LoxView,
)
    requires
        all_scannable(tokens),
        0 <= at <= src.len(),
        src.subrange(at, src.len() as int) == spell(tokens),
    ensures
        scan_from(src, at, 1, before, sink) == (Lexed {
            tokens: (before + tokens).push(eof_token(1)),
            sink,
        }),
    decreases tokens.len(),
{
    let rest_text = src.subrange(at, src.len() as int);
    if tokens.len() == 0 {
        assert(rest_text.len() == 0);
        assert(before + tokens =~= before);
    } else {
        let token = tokens[0];
        let rest = tokens.drop_first();
        let n = token.lexeme.len() as int;
        let head = token.lexeme.push(' ');
        assert(rest_text == head + spell(rest));
        assert(rest_text.len() == n + 1 + spell(rest).len());
        assert(src.subrange(at, at + n) =~= token.lexeme) by {
            assert forall|i: int| 0 <= i < n implies src[at + i] == token.lexeme[i] by {
                assert(rest_text[i] == src[at + i]);
                assert((head + spell(rest))[i] == head[i]);
            }
        }
        assert(src[at + n] == ' ') by {
            assert(rest_text[n] == src[at + n]);
            assert((head + spell(rest))[n] == head[n]);
        }
        assert(src.subrange(at + n + 1, src.len() as int) =~= spell(rest)) by {
            assert forall|i: int| 0 <= i < spell(rest).len() implies src[at + n + 1 + i] == spell(
                rest,
            )[i] by {
                assert(rest_text[n + 1 + i] == src[at + n + 1 + i]);
                assert((head + spell(rest))[n + 1 + i] == spell(rest)[i]);
            }
        }
        token_scans(src, at, token);
        assert(all_scannable(rest)) by {
            assert forall|i: int| 0 <= i < rest.len() implies scannable(#[trigger] rest[i]) by {
                assert(rest[i] == tokens[i + 1]);
            }
        }
        spelling_scans(src, at + n + 1, rest, before.push(token), sink);
        assert(before.push(token) + rest =~= before + tokens);
        reveal_with_fuel(scan_from, 3);
    }
}

/// The text of a sequence of tokens.
pub fn spell_tokens(tokens: &Vec<Token>) -> (r: String)
    ensures
        r@ == spell(token_views(tokens@)),
{
    let mut r = String::new();
    let mut i: usize = tokens.len();
    assert(token_views(tokens@).subrange(i as int, tokens.len() as int) =~= Seq::empty());
    while i > 0
        invariant
            i <= tokens.len(),
            r@ == spell(token_views(tokens@).subrange(i as int, tokens.len() as int)),
        decreases i,
    {
        i = i - 1;
        let ghost rest = token_views(tokens@).subrange(i + 1, tokens.len() as int);
        let ghost all = token_views(tokens@).subrange(i as int, tokens.len() as int);
        let mut next = tokens[i].lexeme.clone();
        next.push(' ');
        next.append(r.as_str());
        r = next;
        proof {
            assert(all[0] == tokens@[i as int]@);
            assert(all.drop_first() =~= rest);
        }
    }
    assert(token_views(tokens@).subrange(0, tokens.len() as int) =~= token_views(tokens@));
    r
}

} // verus!
