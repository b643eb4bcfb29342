//! The scanners: executable counterparts of the recognition rules.

use vstd::prelude::*;
use super::rules::{
    double_operator, exponent_end, in_class, is_name_start, keyword, lemma_token_at_bounds,
    next_token, number_end, run_end, single_operator, space_width, spaces_end, string_scan,
    token_at, Class,
};
use super::token::Token;

verus! {

/// Whether the byte belongs to the class.
pub fn class_has(c: Class, b: u8) -> (r: bool)
    ensures
        r == in_class(c, b),
{
    match c {
        Class::Digit => 0x30 <= b && b <= 0x39,
        Class::Name => (0x41 <= b && b <= 0x5a) || (0x61 <= b && b <= 0x7a) || b == 0x5f
            || b == 0x24 || (0x30 <= b && b <= 0x39),
        Class::SameLine => b != 0x0a,
        Class::LineEnd => b == 0x0a || b == 0x0d,
    }
}

/// Whether a name may start with the byte.
pub fn name_start(b: u8) -> (r: bool)
    ensures
        r == is_name_start(b),
{
    (0x41 <= b && b <= 0x5a) || (0x61 <= b && b <= 0x7a) || b == 0x5f || b == 0x24
}

/// The end of the longest run of bytes of class `c` from `p`.
pub fn scan_run(s: &[u8], p: usize, c: Class) -> (e: usize)
    requires
        p <= s.len(),
    ensures
        e == run_end(s@, p as int, c),
        p <= e <= s.len(),
{
    let mut i: usize = p;
    while i < s.len() && class_has(c, s[i])
        invariant
            p <= i <= s.len(),
            run_end(s@, p as int, c) == run_end(s@, i as int, c),
        decreases s.len() - i,
    {
        i = i + 1;
    }
    i
}

/// The width of the white space character at `p`, 0 where there is none.
pub fn space_width_at(s: &[u8], p: usize) -> (w: usize)
    requires
        p <= s.len(),
    ensures
        w == space_width(s@, p as int),
        p + w <= s.len(),
        w <= 3,
{
    let n = s.len();
    if p >= n {
        return 0;
    }
    let a = s[p];
    if a == 0x09 || a == 0x0b || a == 0x0c || a == 0x20 {
        1
    } else if a == 0xc2 && n - p > 1 && (s[p + 1] == 0x85 || s[p + 1] == 0xa0) {
        2
    } else if n - p > 2 {
        let b = s[p + 1];
        let c = s[p + 2];
        let wide = (a == 0xe1 && b == 0x9a && c == 0x80) || (a == 0xe2 && b == 0x80 && ((0x80 <= c
            && c <= 0x8a) || c == 0xa8 || c == 0xa9 || c == 0xaf)) || (a == 0xe2 && b == 0x81 && c
            == 0x9f) || (a == 0xe3 && b == 0x80 && c == 0x80);
        if wide {
            3
        } else {
            0
        }
    } else {
        0
    }
}

/// The end of the longest run of white space from `p`.
pub fn scan_spaces(s: &[u8], p: usize) -> (e: usize)
    requires
        p <= s.len(),
    ensures
        e == spaces_end(s@, p as int),
        p <= e <= s.len(),
{
    let mut i: usize = p;
    loop
        invariant
            p <= i <= s.len(),
            spaces_end(s@, p as int) == spaces_end(s@, i as int),
        ensures
            i == spaces_end(s@, p as int),
        decreases s.len() - i,
    {
        let w = space_width_at(s, i);
        if w == 0 {
            break ;
        }
        i = i + w;
    }
    i
}

/// Scans the body of a string literal from `p`: whether it is closed, and where it ends.
pub fn scan_string(s: &[u8], p: usize, quote: u8) -> (r: (bool, usize))
    requires
        p <= s.len(),
    ensures
        r.0 == string_scan(s@, p as int, quote).0,
        r.1 == string_scan(s@, p as int, quote).1,
        p <= r.1 <= s.len(),
{
    let n = s.len();
    let mut i: usize = p;
    let mut closed = false;
    loop
        invariant_except_break
            !closed,
            string_scan(s@, p as int, quote) == string_scan(s@, i as int, quote),
        invariant
            n == s.len(),
            p <= i <= n,
        ensures
            p <= i <= n,
            (closed, i as int) == string_scan(s@, p as int, quote),
        decreases n - i,
    {
        if i >= n {
            break ;
        }
        let b = s[i];
        if b == quote {
            i = i + 1;
            closed = true;
            break ;
        } else if b == 0x5c {
            if n - i > 1 && s[i + 1] != 0x0a {
                i = i + 2;
            } else {
                break ;
            }
        } else {
            i = i + 1;
        }
    }
    (closed, i)
}

/// The end of the exponent that starts at `m`, or `m`.
pub fn scan_exponent(s: &[u8], m: usize) -> (e: usize)
    requires
        m <= s.len(),
    ensures
        e == exponent_end(s@, m as int),
        m <= e <= s.len(),
{
    let n = s.len();
    if m < n && (s[m] == 0x65 || s[m] == 0x45) {
        let k: usize = if n - m > 1 && (s[m + 1] == 0x2b || s[m + 1] == 0x2d) {
            m + 2
        } else {
            m + 1
        };
        if k < n && class_has(Class::Digit, s[k]) {
            scan_run(s, k, Class::Digit)
        } else {
            m
        }
    } else {
        m
    }
}

/// The end of the number literal that starts at `p`, or `p`.
pub fn scan_number(s: &[u8], p: usize) -> (e: usize)
    requires
        p <= s.len(),
    ensures
        e == number_end(s@, p as int),
        p <= e <= s.len(),
{
    let n = s.len();
    let d = scan_run(s, p, Class::Digit);
    let m: usize = if n - d > 1 && s[d] == 0x2e && class_has(Class::Digit, s[d + 1]) {
        scan_run(s, d + 1, Class::Digit)
    } else {
        d
    };
    if m == p {
        p
    } else {
        scan_exponent(s, m)
    }
}

/// The keyword that the bytes from `p` to `e` spell, if any.
pub fn keyword_at(s: &[u8], p: usize, e: usize) -> (r: Option<Token>)
    requires
        p <= e <= s.len(),
    ensures
        r == keyword(s@.subrange(p as int, e as int)),
{
    let ghost w = s@.subrange(p as int, e as int);
    let n = e - p;
    if n == 2 {
        let (a, b) = (s[p], s[p + 1]);
        assert(w[0] == a && w[1] == b);
        if a == 0x61 && b == 0x73 {
            Some(Token::AsKeyword)
        } else if a == 0x69 && b == 0x66 {
            Some(Token::IfKeyword)
        } else {
            None
        }
    } else if n == 3 {
        let (a, b, c) = (s[p], s[p + 1], s[p + 2]);
        assert(w[0] == a && w[1] == b && w[2] == c);
        if a == 0x70 && b == 0x75 && c == 0x62 {
            Some(Token::PubKeyword)
        } else {
            None
        }
    } else if n == 4 {
        let (a, b, c, d) = (s[p], s[p + 1], s[p + 2], s[p + 3]);
        assert(w[0] == a && w[1] == b && w[2] == c && w[3] == d);
        if a == 0x74 && b == 0x72 && c == 0x75 && d == 0x65 {
            Some(Token::TrueKeyword)
        } else if a == 0x70 && b == 0x72 && c == 0x69 && d == 0x76 {
            Some(Token::PrivKeyword)
        } else if a == 0x65 && b == 0x6c && c == 0x73 && d == 0x65 {
            Some(Token::ElseKeyword)
        } else {
            None
        }
    } else if n == 5 {
        let (a, b, c, d, f) = (s[p], s[p + 1], s[p + 2], s[p + 3], s[p + 4]);
        assert(w[0] == a && w[1] == b && w[2] == c && w[3] == d && w[4] == f);
        if a == 0x66 && b == 0x61 && c == 0x6c && d == 0x73 && f == 0x65 {
            Some(Token::FalseKeyword)
        } else if a == 0x77 && b == 0x68 && c == 0x69 && d == 0x6c && f == 0x65 {
            Some(Token::WhileKeyword)
        } else {
            None
        }
    } else if n == 7 {
        let (a, b, c, d) = (s[p], s[p + 1], s[p + 2], s[p + 3]);
        let (f, g, h) = (s[p + 4], s[p + 5], s[p + 6]);
        assert(w[0] == a && w[1] == b && w[2] == c && w[3] == d && w[4] == f && w[5] == g && w[6]
            == h);
        if a == 0x64 && b == 0x65 && c == 0x63 && d == 0x6c && f == 0x61 && g == 0x72 && h
            == 0x65 {
            Some(Token::DeclareKeyword)
        } else {
            None
        }
    } else {
        None
    }
}

/// The operator of two characters that `a`, `b` spell, if any.
pub fn double_operator_of(a: u8, b: u8) -> (r: Option<Token>)
    ensures
        r == double_operator(a, b),
{
    if a == 0x3e && b == 0x3e {
        Some(Token::GreaterGreater)
    } else if a == 0x3c && b == 0x3c {
        Some(Token::LessLess)
    } else if a == 0x3d && b == 0x3d {
        Some(Token::EqualsEquals)
    } else if a == 0x21 && b == 0x3d {
        Some(Token::ExclamationEquals)
    } else if a == 0x3e && b == 0x3d {
        Some(Token::GreaterEquals)
    } else if a == 0x3c && b == 0x3d {
        Some(Token::LessEquals)
    } else if a == 0x26 && b == 0x26 {
        Some(Token::AndAnd)
    } else if a == 0x7c && b == 0x7c {
        Some(Token::OrOr)
    } else {
        None
    }
}

/// The punctuation token of one character that `a` spells, if any.
pub fn single_operator_of(a: u8) -> (r: Option<Token>)
    ensures
        r == single_operator(a),
{
    if a == 0x3b {
        Some(Token::Semicolon)
    } else if a == 0x7b {
        Some(Token::LCurly)
    } else if a == 0x7d {
        Some(Token::RCurly)
    } else if a == 0x5b {
        Some(Token::LBrack)
    } else if a == 0x5d {
        Some(Token::RBrack)
    } else if a == 0x28 {
        Some(Token::LParen)
    } else if a == 0x29 {
        Some(Token::RParen)
    } else if a == 0x3e {
        Some(Token::Greater)
    } else if a == 0x3c {
        Some(Token::Less)
    } else if a == 0x2c {
        Some(Token::Comma)
    } else if a == 0x3a {
        Some(Token::Colon)
    } else if a == 0x21 {
        Some(Token::Exclamation)
    } else if a == 0x26 {
        Some(Token::And)
    } else if a == 0x7c {
        Some(Token::Or)
    } else if a == 0x5e {
        Some(Token::Caret)
    } else if a == 0x7e {
        Some(Token::Not)
    } else if a == 0x3d {
        Some(Token::Equals)
    } else if a == 0x2b {
        Some(Token::Plus)
    } else if a == 0x2d {
        Some(Token::Minus)
    } else if a == 0x2a {
        Some(Token::Asterisk)
    } else if a == 0x25 {
        Some(Token::Percent)
    } else {
        None
    }
}

/// Reads the token that starts at `p`: its kind and its end.
pub fn read_token(s: &[u8], p: usize) -> (r: (Token, usize))
    requires
        p < s.len(),
    ensures
        (r.0, r.1 as int) == token_at(s@, p as int),
        p < r.1 <= s.len(),
{
    let n = s.len();
    let b = s[p];
    proof {
        reveal(token_at);
        lemma_token_at_bounds(s@, p as int);
    }
    if name_start(b) {
        let e = scan_run(s, p + 1, Class::Name);
        match keyword_at(s, p, e) {
            Some(k) => (k, e),
            None => (Token::Identifier, e),
        }
    } else {
        let num = scan_number(s, p);
        if num > p {
            (Token::Number, num)
        } else if b == 0x2e {
            (Token::Period, p + 1)
        } else if b == 0x22 || b == 0x27 {
            let r = scan_string(s, p + 1, b);
            (if r.0 { Token::String } else { Token::InvalidString }, r.1)
        } else if b == 0x40 || b == 0x23 {
            if n - p > 1 && name_start(s[p + 1]) {
                let e = scan_run(s, p + 2, Class::Name);
                (if b == 0x40 { Token::ConstructIdentifier } else { Token::PreprocessorIdentifier }, e)
            } else {
                (Token::Invalid, p + 1)
            }
        } else if b == 0x2f {
            if n - p > 1 && s[p + 1] == 0x2f {
                let e = scan_run(s, p + 2, Class::SameLine);
                (if n - p > 2 && s[p + 2] == 0x2f { Token::DocComment } else { Token::Comment }, e)
            } else {
                (Token::Slash, p + 1)
            }
        } else if class_has(Class::LineEnd, b) {
            (Token::Linebreak, scan_run(s, p + 1, Class::LineEnd))
        } else if space_width_at(s, p) > 0 {
            (Token::Whitespace, scan_spaces(s, p))
        } else {
            let two = if n - p > 1 { double_operator_of(b, s[p + 1]) } else { None };
            match two {
                Some(t) => (t, p + 2),
                None => match single_operator_of(b) {
                    Some(t) => (t, p + 1),
                    None => {
                        let w: usize = if b < 0xc0 { 1 } else if b < 0xe0 { 2 } else if b < 0xf0 { 3 } else { 4 };
                        (Token::Invalid, if n - p >= w { p + w } else { n })
                    },
                },
            }
        }
    }
}

/// Finds the first token at or behind `p` that is not skipped: its kind, start and end.
pub fn find_token(s: &[u8], p: usize) -> (r: Option<(Token, usize, usize)>)
    requires
        p <= s.len(),
    ensures
        match r {
            Some((t, a, b)) => next_token(s@, p as int) == Some((t, a as int, b as int)) && p <= a
                < b <= s.len() && !t.is_skipped(),
            None => next_token(s@, p as int).is_none(),
        },
{
    let mut i: usize = p;
    while i < s.len()
        invariant
            p <= i <= s.len(),
            next_token(s@, p as int) == next_token(s@, i as int),
        decreases s.len() - i,
    {
        let (t, e) = read_token(s, i);
        match t {
            Token::Comment | Token::Linebreak | Token::Whitespace => {
                i = e;
            },
            _ => {
                return Some((t, i, e));
            },
        }
    }
    None
}

} // verus!
