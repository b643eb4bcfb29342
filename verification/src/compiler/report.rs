//! The diagnostics of lowering, built.

use std::ops::Range;
use vstd::prelude::*;
use vstd::string::*;
use super::lowering::{
    count_overflow, invalid_expression, invalid_target, invalid_value, type_mismatch,
    undeclared_variable, undefined_variable, unsupported_expression, unsupported_statement,
    wrong_value_type,
};
use super::types::FlycatcherType;
use crate::diagnostic::{error_at, Diagnostic, Label};

verus! {

/// Builds FC0001.
pub fn make_count_overflow(range: &Range<usize>) -> (r: Diagnostic)
    ensures
        r@ == count_overflow(range.start as int, range.end as int),
{
    let mut labels: Vec<Label> = Vec::new();
    labels.push(
        Label::primary(range.start..range.end).with_message(
            String::from_str("this reference cannot be counted."),
        ),
    );
    let r = Diagnostic::bug().with_code("FC0001").with_labels(labels).with_message(
        String::from_str("internal compiler error: too many references to one variable."),
    );
    assert(r@.labels =~= count_overflow(range.start as int, range.end as int).labels);
    r
}

/// Builds FC0017.
pub fn make_undeclared_variable(range: &Range<usize>) -> (r: Diagnostic)
    ensures
        r@ == undeclared_variable(range.start as int, range.end as int),
{
    error_at(
        "FC0017",
        String::from_str("use of undeclared variable."),
        range.start..range.end,
        String::from_str("this variable is undeclared in this scope."),
    )
}

/// Builds FC0018.
pub fn make_undefined_variable(range: &Range<usize>) -> (r: Diagnostic)
    ensures
        r@ == undefined_variable(range.start as int, range.end as int),
{
    error_at(
        "FC0018",
        String::from_str("use of undefined variable."),
        range.start..range.end,
        String::from_str("this variable is declared, but not yet given a value."),
    )
}

/// Builds FC0019.
pub fn make_unsupported_expression(range: &Range<usize>) -> (r: Diagnostic)
    ensures
        r@ == unsupported_expression(range.start as int, range.end as int),
{
    error_at(
        "FC0019",
        String::from_str("unsupported expression."),
        range.start..range.end,
        String::from_str("this expression isn't supported by the compiler yet."),
    )
}

/// Builds FC0020.
pub fn make_invalid_expression(range: &Range<usize>) -> (r: Diagnostic)
    ensures
        r@ == invalid_expression(range.start as int, range.end as int),
{
    error_at(
        "FC0020",
        String::from_str("invalid expression."),
        range.start..range.end,
        String::from_str("invalid expression here."),
    )
}

/// Builds FC0021.
pub fn make_type_mismatch(
    left: FlycatcherType,
    right: FlycatcherType,
    l: &Range<usize>,
    r: &Range<usize>,
    range: &Range<usize>,
) -> (d: Diagnostic)
    ensures
        d@ == type_mismatch(
            left,
            right,
            (l.start as int, l.end as int),
            (r.start as int, r.end as int),
            range.start as int,
            range.end as int,
        ),
{
    let first = String::from_str("this is a(n) '").concat(left.into()).concat("'");
    let second = String::from_str("this is a(n) '").concat(right.into()).concat("'");
    let third = String::from_str("both sides of this expression should be of type '").concat(
        left.into(),
    ).concat("'");
    let mut labels: Vec<Label> = Vec::new();
    labels.push(Label::secondary(l.start..l.end).with_message(first));
    labels.push(Label::secondary(r.start..r.end).with_message(second));
    labels.push(Label::primary(range.start..range.end).with_message(third));
    let d = Diagnostic::error().with_code("FC0021").with_labels(labels).with_message(
        String::from_str("cannot use two different types in expression."),
    );
    assert(d@.labels =~= type_mismatch(
        left,
        right,
        (l.start as int, l.end as int),
        (r.start as int, r.end as int),
        range.start as int,
        range.end as int,
    ).labels);
    d
}

/// Builds FC0022.
pub fn make_unsupported_statement(range: &Range<usize>) -> (r: Diagnostic)
    ensures
        r@ == unsupported_statement(range.start as int, range.end as int),
{
    error_at(
        "FC0022",
        String::from_str("unsupported statement."),
        range.start..range.end,
        String::from_str("this statement isn't supported by the compiler yet."),
    )
}

/// Builds FC0023.
pub fn make_invalid_target(range: &Range<usize>) -> (r: Diagnostic)
    ensures
        r@ == invalid_target(range.start as int, range.end as int),
{
    error_at(
        "FC0023",
        String::from_str("invalid set expression."),
        range.start..range.end,
        String::from_str("the '=' operator may only be used on variable names."),
    )
}

/// Builds FC0024.
pub fn make_invalid_value(range: &Range<usize>) -> (r: Diagnostic)
    ensures
        r@ == invalid_value(range.start as int, range.end as int),
{
    error_at(
        "FC0024",
        String::from_str("invalid value for variable."),
        range.start..range.end,
        String::from_str("this value is invalid."),
    )
}

/// Builds FC0025.
pub fn make_wrong_value_type(
    wanted: FlycatcherType,
    found: FlycatcherType,
    value: &Range<usize>,
    range: &Range<usize>,
) -> (d: Diagnostic)
    ensures
        d@ == wrong_value_type(
            wanted,
            found,
            (value.start as int, value.end as int),
            range.start as int,
            range.end as int,
        ),
{
    let first = String::from_str("this variable is of type '").concat(wanted.into()).concat("'");
    let second = String::from_str("new value is of type '").concat(found.into()).concat("'");
    let mut labels: Vec<Label> = Vec::new();
    labels.push(Label::primary(range.start..range.end).with_message(first));
    labels.push(Label::primary(value.start..value.end).with_message(second));
    let d = Diagnostic::error().with_code("FC0025").with_labels(labels).with_message(
        String::from_str("variable value doesn't match variable signature."),
    );
    assert(d@.labels =~= wrong_value_type(
        wanted,
        found,
        (value.start as int, value.end as int),
        range.start as int,
        range.end as int,
    ).labels);
    d
}

} // verus!
