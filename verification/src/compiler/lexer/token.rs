//! The tokens of the lexer over characters.

use std::ops::Range;
use vstd::prelude::*;

verus! {

/// Why a string is invalid.
#[derive(Clone, Copy, Debug, PartialEq, Eq, Structural)]
pub enum InvalidStrType {
    /// The source ends before the closing quote.
    UnclosedEOF,
    /// The line ends before the closing quote.
    UnclosedLine,
    /// A Unicode escape lacks its opening brace.
    NoOpeningBraceUnicodeEscape,
}

/// The tokens. There are no keywords and no names at this stage.
#[derive(Debug, PartialEq)]
pub enum Token {
    /// A character that starts no other token.
    Invalid,
    /// A white space character that ends no line.
    WhiteSpace,
    /// A character that ends a line.
    LineTerm,
    /// A comment that starts with `//` and runs to the end of its line.
    LineComment,
    /// A comment that starts with `///` and runs to the end of its line.
    DocComment,
    /// A character of punctuation.
    Punctuator,
    /// A string between two `"` or two `'`.
    Str {
        /// The prefix before the opening quote, if there is one.
        prefix: Option<String>,
    },
    /// A string that is not closed where its line ends.
    InvalidStr {
        /// Why the string is invalid.
        ty: InvalidStrType,
        /// Where the string should have been closed.
        error_loc: Range<usize>,
    },
}

/// The mathematical value of a token.
pub ghost enum TokenView {
    Invalid,
    WhiteSpace,
    LineTerm,
    LineComment,
    DocComment,
    Punctuator,
    Str { prefix: Option<Seq<char>> },
    InvalidStr { ty: InvalidStrType, start: int, end: int },
}

impl Token {
    /// The mathematical value of the token.
    pub open spec fn view(&self) -> TokenView {
        match self {
            Token::Invalid => TokenView::Invalid,
            Token::WhiteSpace => TokenView::WhiteSpace,
            Token::LineTerm => TokenView::LineTerm,
            Token::LineComment => TokenView::LineComment,
            Token::DocComment => TokenView::DocComment,
            Token::Punctuator => TokenView::Punctuator,
            Token::Str { prefix } => TokenView::Str {
                prefix: match prefix {
                    Some(p) => Some(p@),
                    None => None,
                },
            },
            Token::InvalidStr { ty, error_loc } => TokenView::InvalidStr {
                ty: *ty,
                start: error_loc.start as int,
                end: error_loc.end as int,
            },
        }
    }

    /// Whether the token is white space that ends no line.
    pub fn is_white_space(&self) -> (r: bool)
        ensures
            r == (self@ is WhiteSpace),
    {
        match self {
            Token::WhiteSpace => true,
            _ => false,
        }
    }

    /// Whether the token ends a line.
    pub fn is_line_term(&self) -> (r: bool)
        ensures
            r == (self@ is LineTerm),
    {
        match self {
            Token::LineTerm => true,
            _ => false,
        }
    }

    /// Whether the token is a comment, plain or of documentation.
    pub fn is_comment(&self) -> (r: bool)
        ensures
            r == (self@ is LineComment || self@ is DocComment),
    {
        match self {
            Token::LineComment => true,
            Token::DocComment => true,
            _ => false,
        }
    }

    /// Whether the token is punctuation.
    pub fn is_punctuator(&self) -> (r: bool)
        ensures
            r == (self@ is Punctuator),
    {
        match self {
            Token::Punctuator => true,
            _ => false,
        }
    }
}

} // verus!
