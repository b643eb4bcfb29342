//! Lexical analysis: from source text to tokens with byte spans.
//!
//! The lexer walks the source once. `next` yields the next token that is not white space,
//! a line break or a plain comment; `peek` tells what `next` would yield and leaves the
//! lexer where it is.

pub mod laws;
pub mod rules;
pub mod scan;
pub mod token;

use std::ops::Range;
use vstd::prelude::*;
use vstd::string::*;

use crate::text::{slice_text, text_of};
use rules::next_token;
use scan::find_token;
pub use token::Token;

verus! {

/// A lexer over a source string. It remembers the span of the token that it yielded last.
pub struct Lexer<'a> {
    /// The source text.
    pub input: &'a str,
    /// Where the token that was yielded last starts.
    pub start: usize,
    /// Where the token that was yielded last ends, which is where lexing goes on.
    pub end: usize,
}

impl<'a> Lexer<'a> {
    /// The bytes of the source.
    pub open spec fn bytes(&self) -> Seq<u8> {
        self.input.spec_bytes()
    }

    /// Where the token that was yielded last starts.
    pub open spec fn span_start(&self) -> int {
        self.start as int
    }

    /// Where the token that was yielded last ends, which is where lexing goes on.
    pub open spec fn cursor(&self) -> int {
        self.end as int
    }

    /// The span lies within the source.
    pub open spec fn wf(&self) -> bool {
        0 <= self.span_start() <= self.cursor() <= self.bytes().len()
    }

    /// The token that `next` yields from here, with its span.
    pub open spec fn upcoming(&self) -> Option<(Token, int, int)> {
        next_token(self.bytes(), self.cursor())
    }

    /// The token that `next` yields from here; `None` at the end of the source.
    pub open spec fn peeked(&self) -> Option<Token> {
        match self.upcoming() {
            Some(t) => Some(t.0),
            None => None,
        }
    }

    /// A lexer at the start of `input`.
    pub fn new(input: &'a str) -> (lexer: Self)
        ensures
            lexer.input == input,
            lexer.wf(),
            lexer.span_start() == 0,
            lexer.cursor() == 0,
    {
        Lexer { input, start: 0, end: 0 }
    }

    /// The text of the token that was yielded last.
    pub fn slice(&self) -> (r: &'a str)
        ensures
            r@ == text_of(self.bytes(), self.span_start(), self.cursor()),
    {
        slice_text(self.input, self.start, self.end)
    }

    /// The span of the token that was yielded last: `0..0` before the first, and the empty
    /// span at the end of the source once the tokens are exhausted.
    pub fn span(&self) -> (r: Range<usize>)
        ensures
            r.start == self.span_start(),
            r.end == self.cursor(),
    {
        self.start..self.end
    }

    /// The token that `next` would yield. The lexer stays as it is.
    pub fn peek(&self) -> (r: Option<Token>)
        requires
            self.wf(),
        ensures
            r == self.peeked(),
    {
        match find_token(self.input.as_bytes(), self.end) {
            Some((t, _, _)) => Some(t),
            None => None,
        }
    }

    /// Yields the next token that is not skipped and moves behind it; `None` at the end of
    /// the source.
    pub fn next(&mut self) -> (r: Option<Token>)
        requires
            old(self).wf(),
        ensures
            final(self).wf(),
            final(self).input == old(self).input,
            r == old(self).peeked(),
            match old(self).upcoming() {
                Some((t, a, b)) => {
                    &&& r == Some(t)
                    &&& final(self).span_start() == a
                    &&& final(self).cursor() == b
                    &&& old(self).cursor() <= a < b
                },
                None => {
                    &&& r.is_none()
                    &&& final(self).span_start() == old(self).bytes().len()
                    &&& final(self).cursor() == old(self).bytes().len()
                },
            },
    {
        let bytes = self.input.as_bytes();
        match find_token(bytes, self.end) {
            Some((t, a, b)) => {
                self.start = a;
                self.end = b;
                Some(t)
            },
            None => {
                self.start = bytes.len();
                self.end = bytes.len();
                None
            },
        }
    }
}

} // verus!
