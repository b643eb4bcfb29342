//! The tokens of the language.

use vstd::prelude::*;
use vstd::string::*;

verus! {

/// The kinds of token that the lexer recognises.
#[derive(Clone, Copy, Debug, PartialEq, Eq, Structural)]
pub enum Token {
    /// `;`
    Semicolon,
    /// `{`
    LCurly,
    /// `}`
    RCurly,
    /// `[`
    LBrack,
    /// `]`
    RBrack,
    /// `(`
    LParen,
    /// `)`
    RParen,
    /// `>>`
    GreaterGreater,
    /// `<<`
    LessLess,
    /// `==`
    EqualsEquals,
    /// `!=`
    ExclamationEquals,
    /// `>=`
    GreaterEquals,
    /// `<=`
    LessEquals,
    /// `&&`
    AndAnd,
    /// `||`
    OrOr,
    /// `>`
    Greater,
    /// `<`
    Less,
    /// `.`
    Period,
    /// `,`
    Comma,
    /// `:`
    Colon,
    /// `!`
    Exclamation,
    /// `&`
    And,
    /// `|`
    Or,
    /// `^`
    Caret,
    /// `~`
    Not,
    /// `=`
    Equals,
    /// `+`
    Plus,
    /// `-`
    Minus,
    /// `*`
    Asterisk,
    /// `/`
    Slash,
    /// `%`
    Percent,
    /// The keyword `true`.
    TrueKeyword,
    /// The keyword `false`.
    FalseKeyword,
    /// The keyword `as`.
    AsKeyword,
    /// The keyword `declare`.
    DeclareKeyword,
    /// The keyword `pub`.
    PubKeyword,
    /// The keyword `priv`.
    PrivKeyword,
    /// The keyword `if`.
    IfKeyword,
    /// The keyword `else`.
    ElseKeyword,
    /// The keyword `while`.
    WhileKeyword,
    /// An integer or floating point literal, such as `42`, `4.2`, `.42` or `4.2e+1`.
    Number,
    /// A string literal closed by the quote that opened it; the quotes belong to the token.
    String,
    /// A string literal that is opened but never closed.
    InvalidString,
    /// A name: a letter, `_` or `$`, followed by letters, digits, `_` or `$`.
    Identifier,
    /// A name with a leading `@`.
    ConstructIdentifier,
    /// A name with a leading `#`.
    PreprocessorIdentifier,
    /// A comment that starts with `///` and runs to the end of its line.
    DocComment,
    /// A comment that starts with `//` and runs to the end of its line.
    Comment,
    /// A run of `\n` and `\r`.
    Linebreak,
    /// A run of white space that holds no line break.
    Whitespace,
    /// A character that starts no other token.
    Invalid,
}

impl Token {
    /// The fixed spelling of a punctuation or boolean token, if it has one.
    pub open spec fn spelling(self) -> Option<Seq<char>> {
        match self {
            Token::LCurly => Some("{"@),
            Token::RCurly => Some("}"@),
            Token::LBrack => Some("["@),
            Token::RBrack => Some("]"@),
            Token::LParen => Some("("@),
            Token::RParen => Some(")"@),
            Token::EqualsEquals => Some("=="@),
            Token::ExclamationEquals => Some("!="@),
            Token::GreaterEquals => Some(">="@),
            Token::LessEquals => Some("<="@),
            Token::Greater => Some(">"@),
            Token::Less => Some("<"@),
            Token::Period => Some("."@),
            Token::Comma => Some(","@),
            Token::Colon => Some(":"@),
            Token::Exclamation => Some("!"@),
            Token::Equals => Some("="@),
            Token::Plus => Some("+"@),
            Token::Minus => Some("-"@),
            Token::Asterisk => Some("*"@),
            Token::Slash => Some("/"@),
            Token::Percent => Some("%"@),
            Token::Caret => Some("^"@),
            Token::TrueKeyword => Some("true"@),
            Token::FalseKeyword => Some("false"@),
            _ => None,
        }
    }

    /// The phrase by which a diagnostic refers to a token of this kind, if it has one.
    pub open spec fn description(self) -> Option<Seq<char>> {
        match self {
            Token::TrueKeyword | Token::FalseKeyword => Some("a boolean"@),
            Token::Identifier => Some("a name"@),
            Token::ConstructIdentifier => Some("a construct name"@),
            Token::PreprocessorIdentifier => Some("a preprocessor name"@),
            Token::String => Some("a string"@),
            Token::Number => Some("a number"@),
            Token::DeclareKeyword => Some("'declare'"@),
            _ => match self.spelling() {
                Some(n) => Some("'"@ + n + "'"@),
                None => None,
            },
        }
    }

    /// True for the tokens that the lexer passes over in silence.
    pub open spec fn is_skipped(self) -> bool {
        self == Token::Comment || self == Token::Linebreak || self == Token::Whitespace
    }

    /// The spelling of a token with a fixed spelling: `true` for `TrueKeyword`, `==` for
    /// `EqualsEquals`. `None` for tokens whose text varies, such as names and numbers.
    pub fn as_string(&self) -> (r: Option<String>)
        ensures
            r.is_some() == self.spelling().is_some(),
            r.is_some() ==> r.unwrap()@ == self.spelling().unwrap(),
    {
        match self {
            Token::LCurly => Some(String::from_str("{")),
            Token::RCurly => Some(String::from_str("}")),
            Token::LBrack => Some(String::from_str("[")),
            Token::RBrack => Some(String::from_str("]")),
            Token::LParen => Some(String::from_str("(")),
            Token::RParen => Some(String::from_str(")")),
            Token::EqualsEquals => Some(String::from_str("==")),
            Token::ExclamationEquals => Some(String::from_str("!=")),
            Token::GreaterEquals => Some(String::from_str(">=")),
            Token::LessEquals => Some(String::from_str("<=")),
            Token::Greater => Some(String::from_str(">")),
            Token::Less => Some(String::from_str("<")),
            Token::Period => Some(String::from_str(".")),
            Token::Comma => Some(String::from_str(",")),
            Token::Colon => Some(String::from_str(":")),
            Token::Exclamation => Some(String::from_str("!")),
            Token::Equals => Some(String::from_str("=")),
            Token::Plus => Some(String::from_str("+")),
            Token::Minus => Some(String::from_str("-")),
            Token::Asterisk => Some(String::from_str("*")),
            Token::Slash => Some(String::from_str("/")),
            Token::Percent => Some(String::from_str("%")),
            Token::Caret => Some(String::from_str("^")),
            Token::TrueKeyword => Some(String::from_str("true")),
            Token::FalseKeyword => Some(String::from_str("false")),
            _ => None,
        }
    }

    /// The phrase that names the token in a message: `a boolean` for `true` and `false`, the
    /// quoted spelling for punctuation.
    pub fn as_name(&self) -> (r: Option<String>)
        ensures
            r.is_some() == self.description().is_some(),
            r.is_some() ==> r.unwrap()@ == self.description().unwrap(),
    {
        match self {
            Token::TrueKeyword | Token::FalseKeyword => Some(String::from_str("a boolean")),
            Token::Identifier => Some(String::from_str("a name")),
            Token::ConstructIdentifier => Some(String::from_str("a construct name")),
            Token::PreprocessorIdentifier => Some(String::from_str("a preprocessor name")),
            Token::String => Some(String::from_str("a string")),
            Token::Number => Some(String::from_str("a number")),
            Token::DeclareKeyword => Some(String::from_str("'declare'")),
            _ => {
                match self.as_string() {
                    Some(n) => {
                        let quoted = String::from_str("'").concat(n.as_str()).concat("'");
                        Some(quoted)
                    },
                    None => None,
                }
            },
        }
    }
}

} // verus!
