//! The recognition rules of the lexer, stated over the bytes of the source, and the scanners
//! that implement them.
//!
//! Every rule is a longest match: a token runs as far as its pattern allows.

use vstd::prelude::*;
use super::token::Token;

verus! {

/// Classes of bytes of which a token may hold a run.
#[derive(Clone, Copy, Debug, PartialEq, Eq, Structural)]
pub enum Class {
    /// `0` to `9`.
    Digit,
    /// A letter, a digit, `_` or `$`.
    Name,
    /// Anything but `\n`.
    SameLine,
    /// `\n` or `\r`.
    LineEnd,
}

/// `0` to `9`.
pub open spec fn is_digit(b: u8) -> bool {
    0x30 <= b <= 0x39
}

/// A letter, `_` or `$`.
pub open spec fn is_name_start(b: u8) -> bool {
    (0x41 <= b <= 0x5a) || (0x61 <= b <= 0x7a) || b == 0x5f || b == 0x24
}

/// Whether the byte belongs to the class.
pub open spec fn in_class(c: Class, b: u8) -> bool {
    match c {
        Class::Digit => is_digit(b),
        Class::Name => is_name_start(b) || is_digit(b),
        Class::SameLine => b != 0x0a,
        Class::LineEnd => b == 0x0a || b == 0x0d,
    }
}

/// The end of the longest run of bytes of class `c` that starts at `p`.
pub open spec fn run_end(s: Seq<u8>, p: int, c: Class) -> int
    decreases s.len() - p,
{
    if 0 <= p < s.len() && in_class(c, s[p]) {
        run_end(s, p + 1, c)
    } else {
        p
    }
}

/// The length in bytes of the white space character at `p` that is no line break, or 0 if
/// there is none. Besides tab, vertical tab, form feed and the space, these are the encodings
/// of U+0085, U+00A0, U+1680, U+2000 to U+200A, U+2028, U+2029, U+202F, U+205F and U+3000.
pub open spec fn space_width(s: Seq<u8>, p: int) -> int {
    if !(0 <= p < s.len()) {
        0
    } else if s[p] == 0x09 || s[p] == 0x0b || s[p] == 0x0c || s[p] == 0x20 {
        1
    } else if s[p] == 0xc2 && p + 1 < s.len() && (s[p + 1] == 0x85 || s[p + 1] == 0xa0) {
        2
    } else if p + 2 < s.len() && wide_space(s[p], s[p + 1], s[p + 2]) {
        3
    } else {
        0
    }
}

/// The three-byte encodings of white space.
pub open spec fn wide_space(a: u8, b: u8, c: u8) -> bool {
    ||| (a == 0xe1 && b == 0x9a && c == 0x80)
    ||| (a == 0xe2 && b == 0x80 && (0x80 <= c <= 0x8a || c == 0xa8 || c == 0xa9 || c == 0xaf))
    ||| (a == 0xe2 && b == 0x81 && c == 0x9f)
    ||| (a == 0xe3 && b == 0x80 && c == 0x80)
}

/// The end of the longest run of white space characters that starts at `p`.
pub open spec fn spaces_end(s: Seq<u8>, p: int) -> int
    decreases s.len() - p,
{
    if space_width(s, p) > 0 {
        spaces_end(s, p + space_width(s, p))
    } else {
        p
    }
}

/// Scans the body of a string literal from `p`, which lies behind the opening quote. The
/// body holds escapes, a backslash and any character but `\n`, and characters other than
/// the quote and the backslash. The result says whether the closing quote was found, and
/// where the literal ends: behind the closing quote, or where the body cannot go on.
pub open spec fn string_scan(s: Seq<u8>, p: int, quote: u8) -> (bool, int)
    decreases s.len() - p,
{
    if !(0 <= p < s.len()) {
        (false, p)
    } else if s[p] == quote {
        (true, p + 1)
    } else if s[p] == 0x5c {
        if p + 1 < s.len() && s[p + 1] != 0x0a {
            string_scan(s, p + 2, quote)
        } else {
            (false, p)
        }
    } else {
        string_scan(s, p + 1, quote)
    }
}

/// The end of an exponent, `e` or `E`, an optional sign and digits, that starts at `m`; `m`
/// itself where none starts there.
pub open spec fn exponent_end(s: Seq<u8>, m: int) -> int {
    if 0 <= m < s.len() && (s[m] == 0x65 || s[m] == 0x45) {
        let k = if m + 1 < s.len() && (s[m + 1] == 0x2b || s[m + 1] == 0x2d) {
            m + 2
        } else {
            m + 1
        };
        if k < s.len() && is_digit(s[k]) {
            run_end(s, k, Class::Digit)
        } else {
            m
        }
    } else {
        m
    }
}

/// The end of the number literal that starts at `p`; `p` itself where none starts there. A
/// number is digits, optionally a `.` with digits behind it (the digits before the `.` may be
/// missing), and optionally an exponent.
pub open spec fn number_end(s: Seq<u8>, p: int) -> int {
    let d = run_end(s, p, Class::Digit);
    let m = if 0 <= d && d + 1 < s.len() && s[d] == 0x2e && is_digit(s[d + 1]) {
        run_end(s, d + 1, Class::Digit)
    } else {
        d
    };
    if m == p {
        p
    } else {
        exponent_end(s, m)
    }
}

/// The keyword that the word spells, if any.
pub open spec fn keyword(w: Seq<u8>) -> Option<Token> {
    if w =~= seq![0x74u8, 0x72, 0x75, 0x65] {
        Some(Token::TrueKeyword)
    } else if w =~= seq![0x66u8, 0x61, 0x6c, 0x73, 0x65] {
        Some(Token::FalseKeyword)
    } else if w =~= seq![0x61u8, 0x73] {
        Some(Token::AsKeyword)
    } else if w =~= seq![0x64u8, 0x65, 0x63, 0x6c, 0x61, 0x72, 0x65] {
        Some(Token::DeclareKeyword)
    } else if w =~= seq![0x70u8, 0x75, 0x62] {
        Some(Token::PubKeyword)
    } else if w =~= seq![0x70u8, 0x72, 0x69, 0x76] {
        Some(Token::PrivKeyword)
    } else if w =~= seq![0x69u8, 0x66] {
        Some(Token::IfKeyword)
    } else if w =~= seq![0x65u8, 0x6c, 0x73, 0x65] {
        Some(Token::ElseKeyword)
    } else if w =~= seq![0x77u8, 0x68, 0x69, 0x6c, 0x65] {
        Some(Token::WhileKeyword)
    } else {
        None
    }
}

/// The operator of two characters that the bytes `a`, `b` spell, if any.
pub open spec fn double_operator(a: u8, b: u8) -> Option<Token> {
    if a == 0x3e && b == 0x3e {
        Some(Token::GreaterGreater)
    } else if a == 0x3c && b == 0x3c {
        Some(Token::LessLess)
    } else if a == 0x3d && b == 0x3d {
        Some(Token::EqualsEquals)
    } else if a == 0x21 && b == 0x3d {
        Some(Token::ExclamationEquals)
    } else if a == 0x3e && b == 0x3d {
        Some(Token::GreaterEquals)
    } else if a == 0x3c && b == 0x3d {
        Some(Token::LessEquals)
    } else if a == 0x26 && b == 0x26 {
        Some(Token::AndAnd)
    } else if a == 0x7c && b == 0x7c {
        Some(Token::OrOr)
    } else {
        None
    }
}

/// The punctuation token of one character that the byte spells, if any. `.` and `/` are
/// not listed: a number or a comment may start with them.
pub open spec fn single_operator(a: u8) -> Option<Token> {
    if a == 0x3b {
        Some(Token::Semicolon)
    } else if a == 0x7b {
        Some(Token::LCurly)
    } else if a == 0x7d {
        Some(Token::RCurly)
    } else if a == 0x5b {
        Some(Token::LBrack)
    } else if a == 0x5d {
        Some(Token::RBrack)
    } else if a == 0x28 {
        Some(Token::LParen)
    } else if a == 0x29 {
        Some(Token::RParen)
    } else if a == 0x3e {
        Some(Token::Greater)
    } else if a == 0x3c {
        Some(Token::Less)
    } else if a == 0x2c {
        Some(Token::Comma)
    } else if a == 0x3a {
        Some(Token::Colon)
    } else if a == 0x21 {
        Some(Token::Exclamation)
    } else if a == 0x26 {
        Some(Token::And)
    } else if a == 0x7c {
        Some(Token::Or)
    } else if a == 0x5e {
        Some(Token::Caret)
    } else if a == 0x7e {
        Some(Token::Not)
    } else if a == 0x3d {
        Some(Token::Equals)
    } else if a == 0x2b {
        Some(Token::Plus)
    } else if a == 0x2d {
        Some(Token::Minus)
    } else if a == 0x2a {
        Some(Token::Asterisk)
    } else if a == 0x25 {
        Some(Token::Percent)
    } else {
        None
    }
}

/// The number of bytes that encode the character whose first byte is `b`.
pub open spec fn char_width(b: u8) -> int {
    if b < 0xc0 {
        1
    } else if b < 0xe0 {
        2
    } else if b < 0xf0 {
        3
    } else {
        4
    }
}

/// The token that starts at `p`, and where it ends. Defined for `0 <= p < s.len()`.
#[verifier::opaque]
pub open spec fn token_at(s: Seq<u8>, p: int) -> (Token, int) {
    let b = s[p];
    if is_name_start(b) {
        let e = run_end(s, p + 1, Class::Name);
        match keyword(s.subrange(p, e)) {
            Some(k) => (k, e),
            None => (Token::Identifier, e),
        }
    } else if number_end(s, p) > p {
        (Token::Number, number_end(s, p))
    } else if b == 0x2e {
        (Token::Period, p + 1)
    } else if b == 0x22 || b == 0x27 {
        let r = string_scan(s, p + 1, b);
        (if r.0 { Token::String } else { Token::InvalidString }, r.1)
    } else if b == 0x40 || b == 0x23 {
        if p + 1 < s.len() && is_name_start(s[p + 1]) {
            (
                if b == 0x40 { Token::ConstructIdentifier } else { Token::PreprocessorIdentifier },
                run_end(s, p + 2, Class::Name),
            )
        } else {
            (Token::Invalid, p + 1)
        }
    } else if b == 0x2f {
        if p + 1 < s.len() && s[p + 1] == 0x2f {
            (
                if p + 2 < s.len() && s[p + 2] == 0x2f { Token::DocComment } else { Token::Comment },
                run_end(s, p + 2, Class::SameLine),
            )
        } else {
            (Token::Slash, p + 1)
        }
    } else if in_class(Class::LineEnd, b) {
        (Token::Linebreak, run_end(s, p + 1, Class::LineEnd))
    } else if space_width(s, p) > 0 {
        (Token::Whitespace, spaces_end(s, p))
    } else if p + 1 < s.len() && double_operator(b, s[p + 1]).is_some() {
        (double_operator(b, s[p + 1]).unwrap(), p + 2)
    } else if single_operator(b).is_some() {
        (single_operator(b).unwrap(), p + 1)
    } else {
        (Token::Invalid, if p + char_width(b) <= s.len() { p + char_width(b) } else { s.len() as int })
    }
}

/// The first token at or behind `p` that the lexer does not pass over, with its start and
/// its end; `None` where only skipped tokens are left.
pub open spec fn next_token(s: Seq<u8>, p: int) -> Option<(Token, int, int)>
    decreases s.len() - p,
{
    if !(0 <= p < s.len()) {
        None
    } else {
        let t = token_at(s, p);
        if !(p < t.1 <= s.len()) {
            None
        } else if t.0.is_skipped() {
            next_token(s, t.1)
        } else {
            Some((t.0, p, t.1))
        }
    }
}

/// A run ends between its start and the end of the source.
pub proof fn lemma_run_end_bounds(s: Seq<u8>, p: int, c: Class)
    requires
        0 <= p <= s.len(),
    ensures
        p <= run_end(s, p, c) <= s.len(),
    decreases s.len() - p,
{
    if p < s.len() && in_class(c, s[p]) {
        lemma_run_end_bounds(s, p + 1, c);
    }
}

/// A run of white space ends between its start and the end of the source.
pub proof fn lemma_spaces_end_bounds(s: Seq<u8>, p: int)
    requires
        0 <= p <= s.len(),
    ensures
        p <= spaces_end(s, p) <= s.len(),
        space_width(s, p) > 0 ==> p < spaces_end(s, p),
    decreases s.len() - p,
{
    if space_width(s, p) > 0 {
        lemma_spaces_end_bounds(s, p + space_width(s, p));
    }
}

/// A string literal ends between the start of its body and the end of the source.
pub proof fn lemma_string_scan_bounds(s: Seq<u8>, p: int, quote: u8)
    requires
        0 <= p <= s.len(),
    ensures
        p <= string_scan(s, p, quote).1 <= s.len(),
    decreases s.len() - p,
{
    if p < s.len() && s[p] != quote {
        if s[p] == 0x5c {
            if p + 1 < s.len() && s[p + 1] != 0x0a {
                lemma_string_scan_bounds(s, p + 2, quote);
            }
        } else {
            lemma_string_scan_bounds(s, p + 1, quote);
        }
    }
}

/// A number literal ends between its start and the end of the source.
pub proof fn lemma_number_end_bounds(s: Seq<u8>, p: int)
    requires
        0 <= p <= s.len(),
    ensures
        p <= number_end(s, p) <= s.len(),
{
    lemma_run_end_bounds(s, p, Class::Digit);
    let d = run_end(s, p, Class::Digit);
    if d + 1 < s.len() {
        lemma_run_end_bounds(s, d + 1, Class::Digit);
    }
    let m = if d + 1 < s.len() && s[d] == 0x2e && is_digit(s[d + 1]) {
        run_end(s, d + 1, Class::Digit)
    } else {
        d
    };
    if m < s.len() {
        let k = if m + 1 < s.len() && (s[m + 1] == 0x2b || s[m + 1] == 0x2d) {
            m + 2
        } else {
            m + 1
        };
        if k < s.len() {
            lemma_run_end_bounds(s, k, Class::Digit);
        }
    }
}

/// Every token holds at least one byte and ends within the source.
pub proof fn lemma_token_at_bounds(s: Seq<u8>, p: int)
    requires
        0 <= p < s.len(),
    ensures
        p < token_at(s, p).1 <= s.len(),
{
    reveal(token_at);
    lemma_run_end_bounds(s, p + 1, Class::Name);
    lemma_run_end_bounds(s, p + 1, Class::LineEnd);
    lemma_number_end_bounds(s, p);
    lemma_string_scan_bounds(s, p + 1, s[p]);
    lemma_spaces_end_bounds(s, p);
    if p + 1 < s.len() {
        lemma_run_end_bounds(s, p + 2, Class::Name);
        lemma_run_end_bounds(s, p + 2, Class::SameLine);
    }
}

/// The token that `next_token` finds lies behind `p`, within the source, and is not one of
/// the skipped kinds.
pub proof fn lemma_next_token_bounds(s: Seq<u8>, p: int)
    requires
        0 <= p,
    ensures
        match next_token(s, p) {
            Some((t, a, b)) => p <= a < b <= s.len() && !t.is_skipped() && token_at(s, a) == (t, b),
            None => true,
        },
    decreases s.len() - p,
{
    if p < s.len() {
        lemma_token_at_bounds(s, p);
        let t = token_at(s, p);
        if t.0.is_skipped() {
            lemma_next_token_bounds(s, t.1);
        }
    }
}

} // verus!
