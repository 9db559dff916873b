//! The token alphabet of the directive list.
//!
//! A directive list reaches the compiler as a sequence of tokens, the way a
//! host compiler hands a macro its input. The mathematical model of a token
//! is [`SpecToken`], where identifiers and string literals are sequences of
//! characters.

use vstd::prelude::*;

verus! {

/// One token of a directive list.
#[derive(Debug, PartialEq, Eq)]
pub enum Token {
    /// An identifier or keyword (`function`, `use`, `mod`, a module name, ...).
    Ident(String),
    /// The contents of a string literal, without the surrounding quotes.
    LitStr(String),
    /// `->`
    Arrow,
    /// `::`
    PathSep,
    /// `,`
    Comma,
    /// `(`
    OpenParen,
    /// `)`
    CloseParen,
    /// `@`
    At,
}

/// The mathematical model of a [`Token`].
pub enum SpecToken {
    Ident(Seq<char>),
    LitStr(Seq<char>),
    Arrow,
    PathSep,
    Comma,
    OpenParen,
    CloseParen,
    At,
}

impl View for Token {
    type V = SpecToken;

    open spec fn view(&self) -> SpecToken {
        match self {
            Token::Ident(s) => SpecToken::Ident(s@),
            Token::LitStr(s) => SpecToken::LitStr(s@),
            Token::Arrow => SpecToken::Arrow,
            Token::PathSep => SpecToken::PathSep,
            Token::Comma => SpecToken::Comma,
            Token::OpenParen => SpecToken::OpenParen,
            Token::CloseParen => SpecToken::CloseParen,
            Token::At => SpecToken::At,
        }
    }
}

impl DeepView for Token {
    type V = SpecToken;

    open spec fn deep_view(&self) -> SpecToken {
        self.view()
    }
}

impl Clone for Token {
    fn clone(&self) -> (r: Self)
        ensures
            r@ == self@,
    {
        match self {
            Token::Ident(s) => Token::Ident(s.clone()),
            Token::LitStr(s) => Token::LitStr(s.clone()),
            Token::Arrow => Token::Arrow,
            Token::PathSep => Token::PathSep,
            Token::Comma => Token::Comma,
            Token::OpenParen => Token::OpenParen,
            Token::CloseParen => Token::CloseParen,
            Token::At => Token::At,
        }
    }
}

/// Clones a range `[start, end)` of a token list: the head or reference
/// half of a directive, or the offending fragment an error report carries.
pub fn clone_token_range(toks: &Vec<Token>, start: usize, end: usize) -> (r: Vec<Token>)
    requires
        start <= end <= toks@.len(),
    ensures
        r.deep_view() == toks.deep_view().subrange(start as int, end as int),
{
    let mut out: Vec<Token> = Vec::new();
    let mut i: usize = start;
    while i < end
        invariant
            start <= i <= end <= toks@.len(),
            out.deep_view() == toks.deep_view().subrange(start as int, i as int),
        decreases end - i,
    {
        let ghost prev = out.deep_view();
        out.push(toks[i].clone());
        proof {
            assert(out@.len() == prev.len() + 1);
            assert forall|j: int| 0 <= j < out@.len() implies out.deep_view()[j]
                == toks.deep_view().subrange(start as int, i + 1 as int)[j] by {
                if j < prev.len() {
                    assert(out.deep_view()[j] == prev[j]);
                } else {
                    assert(out.deep_view()[j] == out@[j].deep_view());
                }
            }
            assert(out.deep_view() =~= toks.deep_view().subrange(start as int, i + 1 as int));
        }
        i = i + 1;
    }
    out
}

} // verus!
