//! The diagnostics of the parser: what each of them says, and where it points.

use std::ops::Range;
use vstd::prelude::*;
use vstd::string::*;
use crate::diagnostic::{
    double_error, error_at, error_at_two, plain_error, Diagnostic, DiagnosticView, Label, LabelStyle,
    LabelView, Severity,
};
use crate::lexer::token::Token;

verus! {

/// The sentence that says what was expected: with the spelling of the expected token in
/// quotes where it has one, with its description where it has that, and without either
/// otherwise.
pub open spec fn expectation(
    expect: Token,
    spelled: Seq<char>,
    described: Seq<char>,
    otherwise: Seq<char>,
) -> Seq<char> {
    match expect.spelling() {
        Some(s) => "expected '"@ + s + spelled,
        None => match expect.description() {
            Some(n) => "expected "@ + n + described,
            None => otherwise,
        },
    }
}

/// E0001: a string is opened at `start` and not closed.
pub open spec fn unclosed_string(start: int, end: int) -> DiagnosticView {
    double_error(
        "E0001"@,
        "unclosed string."@,
        start,
        end,
        "this string must be closed on the same line that it starts."@,
        start,
        start + 1,
        "no matching closing quote for this quote."@,
    )
}

/// E0002: a string stands where `expect` was expected.
pub open spec fn unexpected_string(expect: Token, start: int, end: int) -> DiagnosticView {
    plain_error(
        "E0002"@,
        expectation(expect, "', found string."@, ", found string."@, "unexpected string"@),
        start,
        end,
        "unexpected string."@,
    )
}

/// E0003: the source ends where `expect` was expected.
pub open spec fn end_of_file(expect: Token, len: int) -> DiagnosticView {
    plain_error(
        "E0003"@,
        expectation(
            expect,
            "', instead we found the end of the file."@,
            ", instead, we found the end of the file."@,
            "unexpected end of file."@,
        ),
        len,
        len,
        "unexpected end of file."@,
    )
}

/// E0004: a documentation comment stands where none may stand.
pub open spec fn misplaced_comment(start: int, end: int) -> DiagnosticView {
    plain_error(
        "E0004"@,
        "invalid place for a document comment."@,
        start,
        end,
        "document comments aren't allowed here."@,
    )
}

/// E0005: the character `text` starts no token. Where the expected token has a spelling or
/// a description, a secondary label names it.
pub open spec fn invalid_character(expect: Option<Token>, text: Seq<char>, start: int, end: int) -> DiagnosticView {
    let first = LabelView {
        style: LabelStyle::Primary,
        start,
        end,
        message: "unexpected '"@ + text + "' (invalid character)"@,
    };
    let hint = match expect {
        Some(e) => match e.spelling() {
            Some(s) => Some("expected '"@ + s + "'"@),
            None => match e.description() {
                Some(n) => Some("expected "@ + n),
                None => None,
            },
        },
        None => None,
    };
    DiagnosticView {
        severity: Severity::Error,
        code: "E0005"@,
        message: "invalid character: '"@ + text + "'"@,
        labels: match hint {
            Some(h) => seq![
                first,
                LabelView { style: LabelStyle::Secondary, start, end, message: h },
            ],
            None => seq![first],
        },
        notes: Seq::empty(),
    }
}

/// E0006: the token `text` stands where `expect` was expected.
pub open spec fn unexpected_token(expect: Token, text: Seq<char>, start: int, end: int) -> DiagnosticView {
    plain_error(
        "E0006"@,
        expectation(
            expect,
            "', found '"@ + text + "'."@,
            ", found '"@ + text + "'."@,
            "unexpected '"@ + text + "'"@,
        ),
        start,
        end,
        "unexpected '"@ + text + "'"@,
    )
}

/// E0007: an integer literal does not fit 64 bits.
pub open spec fn number_too_large(start: int, end: int) -> DiagnosticView {
    plain_error(
        "E0007"@,
        "invalid number (too large)."@,
        start,
        end,
        "this number is too large to handle."@,
    )
}

/// E0008: no operand follows the operator spelled `operator`.
pub open spec fn missing_operand(operator: Seq<char>, start: int, end: int) -> DiagnosticView {
    plain_error(
        "E0008"@,
        "expected expression after operator"@,
        start,
        end,
        "expected expression [here] after '"@ + operator + "' operator"@,
    )
}

/// E0009: an indexing is not closed.
pub open spec fn unclosed_subscript(start: int, end: int) -> DiagnosticView {
    plain_error("E0009"@, "expected expression after operator"@, start, end, "expected a ']' here"@)
}

/// E0010: no condition follows `if` or `while`.
pub open spec fn missing_condition(start: int, end: int) -> DiagnosticView {
    plain_error(
        "E0010"@,
        "expected expression in 'if' statement."@,
        start,
        end,
        "expected expression in 'if' statement (here)."@,
    )
}

/// E0011: a block is not closed.
pub open spec fn unclosed_block(start: int, end: int) -> DiagnosticView {
    plain_error("E0011"@, "unclosed block statement."@, start, end, "expected a closing '}' here."@)
}

/// E0012: neither `{` nor `if` follows `else`.
pub open spec fn dangling_else(start: int, end: int) -> DiagnosticView {
    plain_error(
        "E0012"@,
        "expected '{' or 'if'"@,
        start,
        end,
        "expected one of '{' or 'if' after 'else'."@,
    )
}

/// E0013: the token `text` stands where a value was expected.
pub open spec fn value_expected(text: Seq<char>, start: int, end: int) -> DiagnosticView {
    plain_error(
        "E0013"@,
        "expected a value."@,
        start,
        end,
        "expected a value here, got "@ + text,
    )
}

/// E0014: a list is not closed by the token described as `close`.
pub open spec fn unclosed_list(close: Seq<char>, start: int, end: int) -> DiagnosticView {
    plain_error(
        "E0014"@,
        "expected a closing "@ + close,
        start,
        end,
        "expected a closing "@ + close + ", found end of file"@,
    )
}

/// Builds the sentence that says what was expected.
pub fn expectation_text(expect: Token, spelled: &str, described: &str, otherwise: &str) -> (r: String)
    ensures
        r@ == expectation(expect, spelled@, described@, otherwise@),
{
    match expect.as_string() {
        Some(s) => String::from_str("expected '").concat(s.as_str()).concat(spelled),
        None => match expect.as_name() {
            Some(n) => String::from_str("expected ").concat(n.as_str()).concat(described),
            None => String::from_str(otherwise),
        },
    }
}

/// Builds E0001.
pub fn make_unclosed_string(range: Range<usize>) -> (r: Diagnostic)
    requires
        range.start < range.end,
    ensures
        r@ == unclosed_string(range.start as int, range.end as int),
{
    let quote = range.start..range.start + 1;
    error_at_two(
        "E0001",
        String::from_str("unclosed string."),
        range,
        String::from_str("this string must be closed on the same line that it starts."),
        quote,
        String::from_str("no matching closing quote for this quote."),
    )
}

/// Builds E0002.
pub fn make_unexpected_string(expect: Token, range: Range<usize>) -> (r: Diagnostic)
    ensures
        r@ == unexpected_string(expect, range.start as int, range.end as int),
{
    let message = expectation_text(expect, "', found string.", ", found string.", "unexpected string");
    error_at("E0002", message, range, String::from_str("unexpected string."))
}

/// Builds E0003.
pub fn make_end_of_file(expect: Token, len: usize) -> (r: Diagnostic)
    ensures
        r@ == end_of_file(expect, len as int),
{
    let message = expectation_text(
        expect,
        "', instead we found the end of the file.",
        ", instead, we found the end of the file.",
        "unexpected end of file.",
    );
    error_at("E0003", message, len..len, String::from_str("unexpected end of file."))
}

/// Builds E0004.
pub fn make_misplaced_comment(range: Range<usize>) -> (r: Diagnostic)
    ensures
        r@ == misplaced_comment(range.start as int, range.end as int),
{
    error_at(
        "E0004",
        String::from_str("invalid place for a document comment."),
        range,
        String::from_str("document comments aren't allowed here."),
    )
}

/// Builds E0005.
pub fn make_invalid_character(expect: Option<Token>, text: &str, range: Range<usize>) -> (r: Diagnostic)
    ensures
        r@ == invalid_character(expect, text@, range.start as int, range.end as int),
{
    let ghost start = range.start as int;
    let ghost end = range.end as int;
    let first_text = String::from_str("unexpected '").concat(text).concat("' (invalid character)");
    let message = String::from_str("invalid character: '").concat(text).concat("'");
    let hint: Option<String> = match expect {
        Some(e) => match e.as_string() {
            Some(s) => Some(String::from_str("expected '").concat(s.as_str()).concat("'")),
            None => match e.as_name() {
                Some(n) => Some(String::from_str("expected ").concat(n.as_str())),
                None => None,
            },
        },
        None => None,
    };
    let mut labels: Vec<Label> = Vec::new();
    labels.push(Label::primary(range.start..range.end).with_message(first_text));
    let ghost first = labels@[0]@;
    match hint {
        Some(h) => {
            labels.push(Label::secondary(range).with_message(h));
            let r = Diagnostic::error().with_code("E0005").with_labels(labels).with_message(message);
            assert(r@.labels =~= seq![
                first,
                LabelView { style: LabelStyle::Secondary, start, end, message: h@ },
            ]);
            r
        },
        None => {
            let r = Diagnostic::error().with_code("E0005").with_labels(labels).with_message(message);
            assert(r@.labels =~= seq![first]);
            r
        },
    }
}

/// Builds E0006.
pub fn make_unexpected_token(expect: Token, text: &str, range: Range<usize>) -> (r: Diagnostic)
    ensures
        r@ == unexpected_token(expect, text@, range.start as int, range.end as int),
{
    let spelled = String::from_str("', found '").concat(text).concat("'.");
    let described = String::from_str(", found '").concat(text).concat("'.");
    let otherwise = String::from_str("unexpected '").concat(text).concat("'");
    let message = expectation_text(expect, spelled.as_str(), described.as_str(), otherwise.as_str());
    error_at("E0006", message, range, otherwise)
}

/// Builds E0007.
pub fn make_number_too_large(range: Range<usize>) -> (r: Diagnostic)
    ensures
        r@ == number_too_large(range.start as int, range.end as int),
{
    error_at(
        "E0007",
        String::from_str("invalid number (too large)."),
        range,
        String::from_str("this number is too large to handle."),
    )
}

/// Builds E0008.
pub fn make_missing_operand(operator: &str, range: Range<usize>) -> (r: Diagnostic)
    ensures
        r@ == missing_operand(operator@, range.start as int, range.end as int),
{
    let label = String::from_str("expected expression [here] after '").concat(operator).concat(
        "' operator",
    );
    error_at("E0008", String::from_str("expected expression after operator"), range, label)
}

/// Builds E0009.
pub fn make_unclosed_subscript(range: Range<usize>) -> (r: Diagnostic)
    ensures
        r@ == unclosed_subscript(range.start as int, range.end as int),
{
    error_at(
        "E0009",
        String::from_str("expected expression after operator"),
        range,
        String::from_str("expected a ']' here"),
    )
}

/// Builds E0010.
pub fn make_missing_condition(range: Range<usize>) -> (r: Diagnostic)
    ensures
        r@ == missing_condition(range.start as int, range.end as int),
{
    error_at(
        "E0010",
        String::from_str("expected expression in 'if' statement."),
        range,
        String::from_str("expected expression in 'if' statement (here)."),
    )
}

/// Builds E0011.
pub fn make_unclosed_block(range: Range<usize>) -> (r: Diagnostic)
    ensures
        r@ == unclosed_block(range.start as int, range.end as int),
{
    error_at(
        "E0011",
        String::from_str("unclosed block statement."),
        range,
        String::from_str("expected a closing '}' here."),
    )
}

/// Builds E0012.
pub fn make_dangling_else(range: Range<usize>) -> (r: Diagnostic)
    ensures
        r@ == dangling_else(range.start as int, range.end as int),
{
    error_at(
        "E0012",
        String::from_str("expected '{' or 'if'"),
        range,
        String::from_str("expected one of '{' or 'if' after 'else'."),
    )
}

/// Builds E0013.
pub fn make_value_expected(text: &str, range: Range<usize>) -> (r: Diagnostic)
    ensures
        r@ == value_expected(text@, range.start as int, range.end as int),
{
    let label = String::from_str("expected a value here, got ").concat(text);
    error_at("E0013", String::from_str("expected a value."), range, label)
}

/// Builds E0014.
pub fn make_unclosed_list(close: &str, range: Range<usize>) -> (r: Diagnostic)
    ensures
        r@ == unclosed_list(close@, range.start as int, range.end as int),
{
    let message = String::from_str("expected a closing ").concat(close);
    let label = String::from_str("expected a closing ").concat(close).concat(", found end of file");
    error_at("E0014", message, range, label)
}

} // verus!
