//! A lexer over the characters of a source, for white space, comments, punctuation and
//! strings. Positions count characters, not bytes.

pub mod chars;
pub mod token;

use std::ops::Range;
use vstd::prelude::*;
use vstd::string::*;

use chars::{line_term, punctuator, white_space};
pub use chars::{is_iden_continue, is_iden_start, is_line_term, is_punctuator, is_white_space};
pub use token::{InvalidStrType, Token};
use token::TokenView;

verus! {

/// The end of the line that holds the character at `p`: the place of the next character
/// that ends a line, or the end of the source.
pub open spec fn line_end(s: Seq<char>, p: int) -> int
    decreases s.len() - p,
{
    if 0 <= p < s.len() && !line_term(s[p]) {
        line_end(s, p + 1)
    } else {
        p
    }
}

/// The rest of a string behind its opening quote, from `p` on: the token, and where it
/// ends. The string is closed by the quote that opened it. It is invalid if its line or
/// the source ends first, also behind a backslash.
pub open spec fn string_rest(s: Seq<char>, p: int, quote: char) -> (TokenView, int)
    decreases s.len() - p,
{
    if !(0 <= p < s.len()) {
        (TokenView::InvalidStr { ty: InvalidStrType::UnclosedEOF, start: p - 1, end: p }, p)
    } else if s[p] == quote {
        (TokenView::Str { prefix: None }, p + 1)
    } else if line_term(s[p]) {
        (TokenView::InvalidStr { ty: InvalidStrType::UnclosedLine, start: p - 1, end: p }, p)
    } else if s[p] == '\\' {
        if p + 1 >= s.len() {
            (TokenView::InvalidStr { ty: InvalidStrType::UnclosedEOF, start: p, end: p + 1 }, p + 1)
        } else if line_term(s[p + 1]) {
            (TokenView::InvalidStr { ty: InvalidStrType::UnclosedLine, start: p, end: p + 1 }, p + 1)
        } else {
            string_rest(s, p + 2, quote)
        }
    } else {
        string_rest(s, p + 1, quote)
    }
}

/// The token that starts with the character at `p`, and where it ends. Defined for
/// `0 <= p < s.len()`.
pub open spec fn token_from(s: Seq<char>, p: int) -> (TokenView, int) {
    let c = s[p];
    if white_space(c) {
        (TokenView::WhiteSpace, p + 1)
    } else if line_term(c) {
        (TokenView::LineTerm, p + 1)
    } else if c == '/' && p + 1 < s.len() && s[p + 1] == '/' {
        if p + 2 < s.len() && s[p + 2] == '/' {
            (TokenView::DocComment, line_end(s, p + 3))
        } else {
            (TokenView::LineComment, line_end(s, p + 2))
        }
    } else if punctuator(c) {
        (TokenView::Punctuator, p + 1)
    } else if c == '"' || c == '\'' {
        string_rest(s, p + 1, c)
    } else {
        (TokenView::Invalid, p + 1)
    }
}

/// A lexer over the characters of a source.
pub struct Lexer {
    /// The characters of the source.
    pub chars: Vec<char>,
    /// The source.
    pub source: String,
    /// The characters that the token which was yielded last spans.
    pub loc: Range<usize>,
}

impl Lexer {
    /// The lexer holds the characters of its source, and the last token lies within them.
    pub open spec fn wf(&self) -> bool {
        self.chars@ == self.source@ && self.loc.start <= self.loc.end <= self.chars@.len()
    }

    /// A lexer at the start of `source`.
    pub fn new(source: String) -> (r: Self)
        ensures
            r.wf(),
            r.source == source,
            r.loc.start == 0,
            r.loc.end == 0,
    {
        let text = source.as_str();
        let count = text.unicode_len();
        let mut chars: Vec<char> = Vec::new();
        let mut i: usize = 0;
        while i < count
            invariant
                i <= count,
                count == text@.len(),
                chars@ == text@.subrange(0, i as int),
            decreases count - i,
        {
            chars.push(text.get_char(i));
            assert(chars@ =~= text@.subrange(0, i + 1));
            i = i + 1;
        }
        assert(chars@ =~= text@);
        Lexer { chars, source, loc: 0..0 }
    }

    /// The characters that the token which was yielded last spans; `0..0` before the first.
    pub fn loc(&self) -> (r: Range<usize>)
        ensures
            r == self.loc,
    {
        self.loc.start..self.loc.end
    }

    /// The text of the token that was yielded last.
    pub fn slice(&self) -> (r: &str)
        requires
            self.wf(),
        ensures
            r@ == self.source@.subrange(self.loc.start as int, self.loc.end as int),
    {
        self.source.as_str().substring_char(self.loc.start, self.loc.end)
    }

    /// Yields the token that starts where the last one ended, and `None` at the end of the
    /// source.
    pub fn next(&mut self) -> (r: Option<Token>)
        requires
            old(self).wf(),
        ensures
            final(self).wf(),
            final(self).source == old(self).source,
            final(self).chars == old(self).chars,
            match r {
                Some(token) => {
                    &&& old(self).loc.end < old(self).chars@.len()
                    &&& (token@, final(self).loc.end as int) == token_from(
                        old(self).chars@,
                        old(self).loc.end as int,
                    )
                    &&& final(self).loc.start == old(self).loc.end
                    &&& final(self).loc.start < final(self).loc.end
                },
                None => old(self).loc.end == old(self).chars@.len() && final(self).loc == old(self).loc,
            },
    {
        let start = self.loc.end;
        let len = self.chars.len();
        if start >= len {
            return None;
        }
        let c = self.chars[start];
        if is_white_space(c) {
            self.loc = start..start + 1;
            Some(Token::WhiteSpace)
        } else if is_line_term(c) {
            self.loc = start..start + 1;
            Some(Token::LineTerm)
        } else if c == '/' && len - start > 1 && self.chars[start + 1] == '/' {
            let doc = len - start > 2 && self.chars[start + 2] == '/';
            let mut pos: usize = if doc { start + 3 } else { start + 2 };
            let ghost from = pos;
            while pos < len && !is_line_term(self.chars[pos])
                invariant
                    from <= pos <= len,
                    len == self.chars@.len(),
                    line_end(self.chars@, from as int) == line_end(self.chars@, pos as int),
                decreases len - pos,
            {
                pos = pos + 1;
            }
            self.loc = start..pos;
            if doc {
                Some(Token::DocComment)
            } else {
                Some(Token::LineComment)
            }
        } else if is_punctuator(c) {
            self.loc = start..start + 1;
            Some(Token::Punctuator)
        } else if c == '"' || c == '\'' {
            let (token, end) = self.scan_string(start + 1, c);
            self.loc = start..end;
            Some(token)
        } else {
            self.loc = start..start + 1;
            Some(Token::Invalid)
        }
    }

    /// Scans the rest of a string behind its opening quote.
    fn scan_string(&self, from: usize, quote: char) -> (r: (Token, usize))
        requires
            1 <= from <= self.chars@.len(),
        ensures
            (r.0@, r.1 as int) == string_rest(self.chars@, from as int, quote),
            from <= r.1 <= self.chars@.len(),
    {
        let len = self.chars.len();
        let mut pos: usize = from;
        loop
            invariant
                1 <= from <= pos <= len,
                len == self.chars@.len(),
                string_rest(self.chars@, from as int, quote) == string_rest(self.chars@, pos as int, quote),
            decreases len - pos,
        {
            if pos >= len {
                return (
                    Token::InvalidStr { ty: InvalidStrType::UnclosedEOF, error_loc: pos - 1..pos },
                    pos,
                );
            }
            let c = self.chars[pos];
            if c == quote {
                return (Token::Str { prefix: None }, pos + 1);
            } else if is_line_term(c) {
                return (
                    Token::InvalidStr { ty: InvalidStrType::UnclosedLine, error_loc: pos - 1..pos },
                    pos,
                );
            } else if c == '\\' {
                if len - pos <= 1 {
                    return (
                        Token::InvalidStr { ty: InvalidStrType::UnclosedEOF, error_loc: pos..pos + 1 },
                        pos + 1,
                    );
                } else if is_line_term(self.chars[pos + 1]) {
                    return (
                        Token::InvalidStr { ty: InvalidStrType::UnclosedLine, error_loc: pos..pos + 1 },
                        pos + 1,
                    );
                }
                pos = pos + 2;
            } else {
                pos = pos + 1;
            }
        }
    }
}

} // verus!
