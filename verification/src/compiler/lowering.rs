//! What lowering does, as functions over the values of trees and tables.
//!
//! Lowering runs over the statements of a program twice. The first pass declares the
//! variable of every assignment among the statements, with the type of the value assigned.
//! The second pass turns each statement into an item of the intermediate representation,
//! checks names and types, defines the variables and counts the references to them.

use vstd::prelude::*;
use super::hir::{type_of, HirMetaView, HirView};
use super::types::FlycatcherType;
use super::var::VariableType;
use crate::ast::{AstView, MetaView, Opcode};
use crate::diagnostic::{plain_error, DiagnosticView, LabelStyle, LabelView, Severity};

verus! {

/// What lowering has brought about so far.
pub ghost struct State {
    /// The symbol table.
    pub symbols: Map<Seq<char>, VariableType>,
    /// The diagnostics reported.
    pub errors: Seq<DiagnosticView>,
    /// Whether nothing has been reported.
    pub ok: bool,
}

impl State {
    /// The state after `diagnostic` is reported.
    pub open spec fn fail(self, diagnostic: DiagnosticView) -> State {
        State { symbols: self.symbols, errors: self.errors.push(diagnostic), ok: false }
    }

    /// The state after `diagnostic` is reported, unless something else was reported before.
    pub open spec fn flag(self, diagnostic: DiagnosticView) -> State {
        if self.ok {
            self.fail(diagnostic)
        } else {
            self
        }
    }

    /// The state with `variable` recorded under `name`.
    pub open spec fn with(self, name: Seq<char>, variable: VariableType) -> State {
        State { symbols: self.symbols.insert(name, variable), errors: self.errors, ok: self.ok }
    }
}

/// An item of the representation, if lowering gave one, and the state behind it.
pub ghost struct Lowered {
    pub hir: Option<HirMetaView>,
    pub state: State,
}

/// FC0001: a variable is referred to more often than can be counted.
pub open spec fn count_overflow(start: int, end: int) -> DiagnosticView {
    DiagnosticView {
        severity: Severity::Bug,
        code: "FC0001"@,
        message: "internal compiler error: too many references to one variable."@,
        labels: seq![
            LabelView {
                style: LabelStyle::Primary,
                start,
                end,
                message: "this reference cannot be counted."@,
            },
        ],
        notes: Seq::empty(),
    }
}

/// FC0017: a variable is used that no statement declares.
pub open spec fn undeclared_variable(start: int, end: int) -> DiagnosticView {
    plain_error(
        "FC0017"@,
        "use of undeclared variable."@,
        start,
        end,
        "this variable is undeclared in this scope."@,
    )
}

/// FC0018: a variable is used before it has a value.
pub open spec fn undefined_variable(start: int, end: int) -> DiagnosticView {
    plain_error(
        "FC0018"@,
        "use of undefined variable."@,
        start,
        end,
        "this variable is declared, but not yet given a value."@,
    )
}

/// FC0019: an operator has no lowering.
pub open spec fn unsupported_expression(start: int, end: int) -> DiagnosticView {
    plain_error(
        "FC0019"@,
        "unsupported expression."@,
        start,
        end,
        "this expression isn't supported by the compiler yet."@,
    )
}

/// FC0020: an operand has no lowering.
pub open spec fn invalid_expression(start: int, end: int) -> DiagnosticView {
    plain_error("FC0020"@, "invalid expression."@, start, end, "invalid expression here."@)
}

/// FC0021: the operands of an arithmetic expression differ in type. The diagnostic points
/// at both operands and at the expression.
pub open spec fn type_mismatch(
    left: FlycatcherType,
    right: FlycatcherType,
    l: (int, int),
    r: (int, int),
    start: int,
    end: int,
) -> DiagnosticView {
    DiagnosticView {
        severity: Severity::Error,
        code: "FC0021"@,
        message: "cannot use two different types in expression."@,
        labels: seq![
            LabelView {
                style: LabelStyle::Secondary,
                start: l.0,
                end: l.1,
                message: "this is a(n) '"@ + left.name() + "'"@,
            },
            LabelView {
                style: LabelStyle::Secondary,
                start: r.0,
                end: r.1,
                message: "this is a(n) '"@ + right.name() + "'"@,
            },
            LabelView {
                style: LabelStyle::Primary,
                start,
                end,
                message: "both sides of this expression should be of type '"@ + left.name() + "'"@,
            },
        ],
        notes: Seq::empty(),
    }
}

/// FC0022: a statement has no lowering.
pub open spec fn unsupported_statement(start: int, end: int) -> DiagnosticView {
    plain_error(
        "FC0022"@,
        "unsupported statement."@,
        start,
        end,
        "this statement isn't supported by the compiler yet."@,
    )
}

/// FC0023: something other than a name stands left of `=`.
pub open spec fn invalid_target(start: int, end: int) -> DiagnosticView {
    plain_error(
        "FC0023"@,
        "invalid set expression."@,
        start,
        end,
        "the '=' operator may only be used on variable names."@,
    )
}

/// FC0024: the value of an assignment has no type.
pub open spec fn invalid_value(start: int, end: int) -> DiagnosticView {
    plain_error("FC0024"@, "invalid value for variable."@, start, end, "this value is invalid."@)
}

/// FC0025: the value assigned to a variable is not of the type of the variable.
pub open spec fn wrong_value_type(
    wanted: FlycatcherType,
    found: FlycatcherType,
    value: (int, int),
    start: int,
    end: int,
) -> DiagnosticView {
    DiagnosticView {
        severity: Severity::Error,
        code: "FC0025"@,
        message: "variable value doesn't match variable signature."@,
        labels: seq![
            LabelView {
                style: LabelStyle::Primary,
                start,
                end,
                message: "this variable is of type '"@ + wanted.name() + "'"@,
            },
            LabelView {
                style: LabelStyle::Primary,
                start: value.0,
                end: value.1,
                message: "new value is of type '"@ + found.name() + "'"@,
            },
        ],
        notes: Seq::empty(),
    }
}

/// Whether the operator is one of `+`, `-`, `*` and `/`.
pub open spec fn is_arithmetic(op: Opcode) -> bool {
    op == Opcode::Plus || op == Opcode::Minus || op == Opcode::Asterisk || op == Opcode::Slash
}

/// The arithmetic item of the operator `op` with the operands `l` and `r`.
pub open spec fn arithmetic(op: Opcode, l: HirMetaView, r: HirMetaView) -> HirView {
    match op {
        Opcode::Plus => HirView::Add(Box::new(l), Box::new(r)),
        Opcode::Minus => HirView::Subtract(Box::new(l), Box::new(r)),
        Opcode::Asterisk => HirView::Multiply(Box::new(l), Box::new(r)),
        _ => HirView::Divide(Box::new(l), Box::new(r)),
    }
}

/// The item of a literal that is no name: a boolean, an integer, which is signed if it
/// fits 63 bits and unsigned otherwise, a floating point number or a string.
pub open spec fn constant(item: AstView) -> Option<HirView> {
    match item {
        AstView::BooleanLiteral(b) => Some(HirView::Boolean(b)),
        AstView::IntegerLiteral(i) => Some(
            if i <= i64::MAX as u64 {
                HirView::Integer(i as i64)
            } else {
                HirView::UnsignedInteger(i)
            },
        ),
        AstView::FloatLiteral(t) => Some(HirView::Float(t)),
        AstView::StringLiteral(t) => Some(HirView::NullString(t)),
        _ => None,
    }
}

/// Lowers a literal. A name has to be that of a variable with a value, and the reference
/// is counted. A node that is no literal gives nothing and changes nothing.
pub open spec fn lower_literal(node: MetaView, st: State, file: Seq<char>) -> Lowered {
    match node.item {
        AstView::IdentifierLiteral(n) => if !st.symbols.contains_key(n) {
            Lowered { hir: None, state: st.fail(undeclared_variable(node.start, node.end)) }
        } else {
            match st.symbols[n] {
                VariableType::Declared(_) => Lowered {
                    hir: None,
                    state: st.fail(undefined_variable(node.start, node.end)),
                },
                VariableType::Defined(t, count, index) => if count == usize::MAX {
                    Lowered { hir: None, state: st.fail(count_overflow(node.start, node.end)) }
                } else {
                    Lowered {
                        hir: Some(
                            HirMetaView {
                                start: node.start,
                                end: node.end,
                                filename: file,
                                item: HirView::Named(n),
                            },
                        ),
                        state: st.with(n, VariableType::Defined(t, (count + 1) as usize, index)),
                    }
                },
            }
        },
        other => match constant(other) {
            Some(item) => Lowered {
                hir: Some(HirMetaView { start: node.start, end: node.end, filename: file, item }),
                state: st,
            },
            None => Lowered { hir: None, state: st },
        },
    }
}

/// Lowers an expression that stands in the statement with the index `index`.
pub open spec fn lower(node: MetaView, st: State, index: usize, file: Seq<char>) -> Lowered
    decreases node,
{
    let first = lower_literal(node, st, file);
    if first.hir.is_some() || !first.state.ok {
        first
    } else {
        match node.item {
            AstView::BinaryExpr(op, l, r) => if is_arithmetic(op) {
                let left = lower(*l, first.state, index, file);
                match left.hir {
                    None => Lowered {
                        hir: None,
                        state: left.state.flag(invalid_expression(node.start, node.end)),
                    },
                    Some(a) => {
                        let right = lower(*r, left.state, index, file);
                        match right.hir {
                            None => Lowered {
                                hir: None,
                                state: right.state.flag(invalid_expression(node.start, node.end)),
                            },
                            Some(b) => lower_arithmetic(node, op, a, b, right.state, file),
                        }
                    },
                }
            } else if op == Opcode::Equals {
                match l.item {
                    AstView::IdentifierLiteral(n) => {
                        let value = lower(*r, first.state, index, file);
                        match value.hir {
                            None => Lowered {
                                hir: None,
                                state: value.state.flag(invalid_expression(node.start, node.end)),
                            },
                            Some(v) => lower_assignment(node, *l, n, v, value.state, index, file),
                        }
                    },
                    _ => Lowered { hir: None, state: first.state.fail(invalid_target(l.start, l.end)) },
                }
            } else {
                Lowered {
                    hir: None,
                    state: first.state.fail(unsupported_expression(node.start, node.end)),
                }
            },
            _ => first,
        }
    }
}

/// Forms the arithmetic item of two lowered operands, which have to be of one type.
pub open spec fn lower_arithmetic(
    node: MetaView,
    op: Opcode,
    a: HirMetaView,
    b: HirMetaView,
    st: State,
    file: Seq<char>,
) -> Lowered {
    let left = type_of(a.item, st.symbols);
    let right = type_of(b.item, st.symbols);
    if left != right {
        Lowered {
            hir: None,
            state: st.fail(
                type_mismatch(left, right, (a.start, a.end), (b.start, b.end), node.start, node.end),
            ),
        }
    } else {
        Lowered {
            hir: Some(
                HirMetaView {
                    start: node.start,
                    end: node.end,
                    filename: file,
                    item: arithmetic(op, a, b),
                },
            ),
            state: st,
        }
    }
}

/// Forms the assignment of the lowered value `v` to the variable `n`, which has to be
/// declared with the type of the value. The variable is defined by it: its references are
/// counted from zero again, and it remembers the index of the statement.
pub open spec fn lower_assignment(
    node: MetaView,
    target: MetaView,
    n: Seq<char>,
    v: HirMetaView,
    st: State,
    index: usize,
    file: Seq<char>,
) -> Lowered {
    if !st.symbols.contains_key(n) {
        Lowered { hir: None, state: st.fail(undeclared_variable(target.start, target.end)) }
    } else {
        let wanted = st.symbols[n].ty();
        let found = type_of(v.item, st.symbols);
        if found != wanted {
            Lowered {
                hir: None,
                state: st.fail(wrong_value_type(wanted, found, (v.start, v.end), node.start, node.end)),
            }
        } else {
            Lowered {
                hir: Some(
                    HirMetaView {
                        start: node.start,
                        end: node.end,
                        filename: file,
                        item: HirView::Assign(
                            Box::new(
                                HirMetaView {
                                    start: target.start,
                                    end: target.end,
                                    filename: file,
                                    item: HirView::Named(n),
                                },
                            ),
                            Box::new(v),
                        ),
                    },
                ),
                state: st.with(n, VariableType::Defined(wanted, 0, index)),
            }
        }
    }
}

/// What the first pass finds out of the value of an assignment.
pub ghost enum Inferred {
    /// The value has this type.
    Type(FlycatcherType),
    /// The value is at fault, and this is the diagnostic.
    Fault(DiagnosticView),
    /// The value is of a kind that has no type.
    Unknown,
}

/// The type of a literal that is no name.
pub open spec fn constant_type(item: AstView) -> Option<FlycatcherType> {
    match item {
        AstView::BooleanLiteral(_) => Some(FlycatcherType::Boolean),
        AstView::IntegerLiteral(i) => Some(
            if i <= i64::MAX as u64 {
                FlycatcherType::Size
            } else {
                FlycatcherType::Usize
            },
        ),
        AstView::FloatLiteral(_) => Some(FlycatcherType::Float64),
        AstView::StringLiteral(_) => Some(FlycatcherType::NullString),
        _ => None,
    }
}

/// The type that an expression will have when it is lowered: that of a literal is fixed,
/// that of a name is the type with which the variable is declared, an arithmetic
/// expression has the type of its operands, which have to agree, and an assignment the
/// type of its variable, which the value has to have. The table is left as it is, and no
/// reference is counted.
pub open spec fn infer(node: MetaView, symbols: Map<Seq<char>, VariableType>) -> Inferred
    decreases node,
{
    match node.item {
        AstView::IdentifierLiteral(n) => if symbols.contains_key(n) {
            Inferred::Type(symbols[n].ty())
        } else {
            Inferred::Fault(undeclared_variable(node.start, node.end))
        },
        AstView::BinaryExpr(op, l, r) => if is_arithmetic(op) {
            match infer(*l, symbols) {
                Inferred::Type(left) => match infer(*r, symbols) {
                    Inferred::Type(right) => if left != right {
                        Inferred::Fault(
                            type_mismatch(
                                left,
                                right,
                                (l.start, l.end),
                                (r.start, r.end),
                                node.start,
                                node.end,
                            ),
                        )
                    } else {
                        Inferred::Type(left)
                    },
                    Inferred::Fault(d) => Inferred::Fault(d),
                    Inferred::Unknown => Inferred::Fault(invalid_expression(node.start, node.end)),
                },
                Inferred::Fault(d) => Inferred::Fault(d),
                Inferred::Unknown => Inferred::Fault(invalid_expression(node.start, node.end)),
            }
        } else if op == Opcode::Equals {
            match l.item {
                AstView::IdentifierLiteral(n) => match infer(*r, symbols) {
                    Inferred::Type(found) => if !symbols.contains_key(n) {
                        Inferred::Fault(undeclared_variable(l.start, l.end))
                    } else if found != symbols[n].ty() {
                        Inferred::Fault(
                            wrong_value_type(
                                symbols[n].ty(),
                                found,
                                (r.start, r.end),
                                node.start,
                                node.end,
                            ),
                        )
                    } else {
                        Inferred::Type(found)
                    },
                    Inferred::Fault(d) => Inferred::Fault(d),
                    Inferred::Unknown => Inferred::Fault(invalid_expression(node.start, node.end)),
                },
                _ => Inferred::Fault(invalid_target(l.start, l.end)),
            }
        } else {
            Inferred::Fault(unsupported_expression(node.start, node.end))
        },
        other => match constant_type(other) {
            Some(t) => Inferred::Type(t),
            None => Inferred::Unknown,
        },
    }
}

/// The first pass over one statement. An assignment to a name that the table does not
/// hold yet declares the name with the type of the value; a name that the table holds is
/// left as it is. An assignment to something else than a name is reported, and so is a
/// value without a type. Other statements are passed over.
pub open spec fn declare(node: MetaView, st: State) -> State {
    match node.item {
        AstView::BinaryExpr(op, l, r) => if op != Opcode::Equals {
            st
        } else {
            match l.item {
                AstView::IdentifierLiteral(n) => if st.symbols.contains_key(n) {
                    st
                } else {
                    match infer(*r, st.symbols) {
                        Inferred::Type(t) => st.with(n, VariableType::Declared(t)),
                        Inferred::Fault(d) => st.fail(d),
                        Inferred::Unknown => st.fail(invalid_value(r.start, r.end)),
                    }
                },
                _ => st.fail(invalid_target(l.start, l.end)),
            }
        },
        _ => st,
    }
}

/// The first pass over the statements from the `i`-th on. It stops at the first statement
/// that is reported.
pub open spec fn resolve(nodes: Seq<MetaView>, i: int, st: State) -> State
    decreases nodes.len() - i,
{
    if !(0 <= i < nodes.len()) || !st.ok {
        st
    } else {
        resolve(nodes, i + 1, declare(nodes[i], st))
    }
}

/// The program lowered so far, and the state behind it.
pub ghost struct Program {
    pub hir: Seq<HirMetaView>,
    pub state: State,
}

/// The second pass over the statements from the `i`-th on. Each statement becomes one item
/// of the program. It stops at the first statement that has no lowering, which is
/// reported if nothing else was.
pub open spec fn second_pass(nodes: Seq<MetaView>, i: int, hir: Seq<HirMetaView>, st: State, file: Seq<char>) -> Program
    decreases nodes.len() - i,
{
    if !(0 <= i < nodes.len()) || hir.len() > usize::MAX {
        Program { hir, state: st }
    } else {
        let one = lower(nodes[i], st, hir.len() as usize, file);
        match one.hir {
            Some(h) => second_pass(nodes, i + 1, hir.push(h), one.state, file),
            None => Program {
                hir,
                state: one.state.flag(unsupported_statement(nodes[i].start, nodes[i].end)),
            },
        }
    }
}

/// Both passes: the first over all statements, and the second if the first reported
/// nothing.
pub open spec fn convert(nodes: Seq<MetaView>, hir: Seq<HirMetaView>, st: State, file: Seq<char>) -> Program {
    let declared = resolve(nodes, 0, st);
    if !declared.ok {
        Program { hir, state: declared }
    } else {
        second_pass(nodes, 0, hir, declared, file)
    }
}

} // verus!
