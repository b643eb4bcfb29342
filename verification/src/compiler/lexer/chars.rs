//! Classes of characters.

use vstd::prelude::*;

verus! {

/// Whether a character has the Unicode property `XID_Start`.
pub uninterp spec fn xid_start(c: char) -> bool;

/// Whether a character has the Unicode property `XID_Continue`.
pub uninterp spec fn xid_continue(c: char) -> bool;

/// `UnicodeXID::is_xid_start` of the crate `unicode-xid`: whether the character has the
/// property `XID_Start`, which the crate looks up in its table. The ASCII letters have it.
#[verifier::external_body]
fn has_xid_start(c: char) -> (r: bool)
    ensures
        r == xid_start(c),
        ('a' <= c <= 'z' || 'A' <= c <= 'Z') ==> r,
{
    unicode_xid::UnicodeXID::is_xid_start(c)
}

/// `UnicodeXID::is_xid_continue` of the crate `unicode-xid`: whether the character has the
/// property `XID_Continue`, which the crate looks up in its table. The ASCII letters and
/// digits and `_` have it.
#[verifier::external_body]
fn has_xid_continue(c: char) -> (r: bool)
    ensures
        r == xid_continue(c),
        ('a' <= c <= 'z' || 'A' <= c <= 'Z' || '0' <= c <= '9' || c == '_') ==> r,
{
    unicode_xid::UnicodeXID::is_xid_continue(c)
}

/// The white space characters that end no line.
pub open spec fn white_space(c: char) -> bool {
    let u = c as u32;
    u == 0x9 || u == 0x20 || u == 0xa0 || u == 0x1680 || (0x2000 <= u <= 0x200a) || u == 0x202f
        || u == 0x205f || u == 0x3000
}

/// The characters that end a line.
pub open spec fn line_term(c: char) -> bool {
    let u = c as u32;
    (0xa <= u <= 0xd) || u == 0x85 || u == 0x2028 || u == 0x2029
}

/// The characters of punctuation.
pub open spec fn punctuator(c: char) -> bool {
    c == ';' || c == ',' || c == '.' || c == '(' || c == ')' || c == '{' || c == '}' || c == '['
        || c == ']' || c == '@' || c == '#' || c == '~' || c == '?' || c == ':' || c == '$' || c
        == '=' || c == '!' || c == '<' || c == '>' || c == '-' || c == '&' || c == '|' || c == '+'
        || c == '*' || c == '/' || c == '^' || c == '%'
}

/// The characters with which a name may start: `_` and those with the property `XID_Start`.
pub open spec fn iden_start(c: char) -> bool {
    c == '_' || xid_start(c)
}

/// Whether `c` is a white space character of Unicode that ends no line.
pub fn is_white_space(c: char) -> (r: bool)
    ensures
        r == white_space(c),
{
    let u = c as u32;
    u == 0x9 || u == 0x20 || u == 0xa0 || u == 0x1680 || (0x2000 <= u && u <= 0x200a) || u
        == 0x202f || u == 0x205f || u == 0x3000
}

/// Whether `c` is a white space character of Unicode that ends a line.
pub fn is_line_term(c: char) -> (r: bool)
    ensures
        r == line_term(c),
{
    let u = c as u32;
    (0xa <= u && u <= 0xd) || u == 0x85 || u == 0x2028 || u == 0x2029
}

/// Whether a name may start with `c`: `_`, or a character with the property `XID_Start`.
pub fn is_iden_start(c: char) -> (r: bool)
    ensures
        r == iden_start(c),
{
    if c == '_' {
        true
    } else {
        has_xid_start(c)
    }
}

/// Whether a name may go on with `c`: a character with the property `XID_Continue`.
pub fn is_iden_continue(c: char) -> (r: bool)
    ensures
        r == xid_continue(c),
{
    has_xid_continue(c)
}

/// Whether `c` is a character of punctuation.
pub fn is_punctuator(c: char) -> (r: bool)
    ensures
        r == punctuator(c),
{
    c == ';' || c == ',' || c == '.' || c == '(' || c == ')' || c == '{' || c == '}' || c == '['
        || c == ']' || c == '@' || c == '#' || c == '~' || c == '?' || c == ':' || c == '$' || c
        == '=' || c == '!' || c == '<' || c == '>' || c == '-' || c == '&' || c == '|' || c == '+'
        || c == '*' || c == '/' || c == '^' || c == '%'
}

} // verus!
