//! What holds of every lowering: the tables it passes through keep what they know, and
//! what it yields is well typed.

use vstd::prelude::*;
use super::hir::{type_of, typed, HirMetaView, HirView};
use super::lowering::{
    convert, declare, is_arithmetic, lower, lower_arithmetic, lower_assignment, lower_literal,
    resolve, second_pass, State,
};
use super::var::VariableType;
use crate::ast::{all_within, lemma_children, spans_within, AstView, MetaView, Opcode};

verus! {

/// The table `after` knows every variable that `before` knows, with the same type, and
/// what has a value in `before` has a value in `after`.
pub open spec fn extends(after: Map<Seq<char>, VariableType>, before: Map<Seq<char>, VariableType>) -> bool {
    forall|k: Seq<char>| #[trigger]
        before.contains_key(k) ==> after.contains_key(k) && after[k].ty() == before[k].ty() && (
        before[k] is Defined ==> after[k] is Defined)
}

/// Whether the item is well typed under the table: the operands of every arithmetic item
/// have one type, the value of every assignment has the type of its variable, and every
/// name that is referred to is that of a variable with a value.
pub open spec fn well_typed(node: HirMetaView, symbols: Map<Seq<char>, VariableType>) -> bool
    decreases node,
{
    match node.item {
        HirView::Named(n) => symbols.contains_key(n) && symbols[n] is Defined,
        HirView::Assign(target, value) => {
            &&& target.item is Named
            &&& symbols.contains_key(target.item->Named_0)
            &&& symbols[target.item->Named_0] is Defined
            &&& symbols[target.item->Named_0].ty() == type_of(value.item, symbols)
            &&& well_typed(*value, symbols)
        },
        HirView::Add(l, r) => type_of(l.item, symbols) == type_of(r.item, symbols) && well_typed(
            *l,
            symbols,
        ) && well_typed(*r, symbols),
        HirView::Subtract(l, r) => type_of(l.item, symbols) == type_of(r.item, symbols)
            && well_typed(*l, symbols) && well_typed(*r, symbols),
        HirView::Multiply(l, r) => type_of(l.item, symbols) == type_of(r.item, symbols)
            && well_typed(*l, symbols) && well_typed(*r, symbols),
        HirView::Divide(l, r) => type_of(l.item, symbols) == type_of(r.item, symbols)
            && well_typed(*l, symbols) && well_typed(*r, symbols),
        _ => true,
    }
}

/// Every item of the list is well typed under the table.
pub open spec fn all_well_typed(hir: Seq<HirMetaView>, symbols: Map<Seq<char>, VariableType>) -> bool {
    forall|i: int| 0 <= i < hir.len() ==> well_typed(#[trigger] hir[i], symbols)
}

/// An item that is well typed has a type.
pub proof fn lemma_well_typed_is_typed(node: HirMetaView, symbols: Map<Seq<char>, VariableType>)
    requires
        well_typed(node, symbols),
    ensures
        typed(node.item, symbols),
    decreases node,
{
    match node.item {
        HirView::Assign(target, value) => lemma_well_typed_is_typed(*value, symbols),
        HirView::Add(l, r) => lemma_well_typed_is_typed(*l, symbols),
        HirView::Subtract(l, r) => lemma_well_typed_is_typed(*l, symbols),
        HirView::Multiply(l, r) => lemma_well_typed_is_typed(*l, symbols),
        HirView::Divide(l, r) => lemma_well_typed_is_typed(*l, symbols),
        _ => {},
    }
}

/// An item that has a type keeps it under a table that extends the first.
pub proof fn lemma_type_is_kept(
    item: HirView,
    before: Map<Seq<char>, VariableType>,
    after: Map<Seq<char>, VariableType>,
)
    requires
        typed(item, before),
        extends(after, before),
    ensures
        typed(item, after),
        type_of(item, after) == type_of(item, before),
    decreases item,
{
    match item {
        HirView::Assign(target, value) => lemma_type_is_kept(value.item, before, after),
        HirView::Add(l, r) => lemma_type_is_kept(l.item, before, after),
        HirView::Subtract(l, r) => lemma_type_is_kept(l.item, before, after),
        HirView::Multiply(l, r) => lemma_type_is_kept(l.item, before, after),
        HirView::Divide(l, r) => lemma_type_is_kept(l.item, before, after),
        _ => {},
    }
}

/// An item that is well typed stays so under a table that extends the first.
pub proof fn lemma_well_typed_is_kept(
    node: HirMetaView,
    before: Map<Seq<char>, VariableType>,
    after: Map<Seq<char>, VariableType>,
)
    requires
        well_typed(node, before),
        extends(after, before),
    ensures
        well_typed(node, after),
    decreases node,
{
    match node.item {
        HirView::Assign(target, value) => {
            lemma_well_typed_is_kept(*value, before, after);
            lemma_well_typed_is_typed(*value, before);
            lemma_type_is_kept(value.item, before, after);
        },
        HirView::Add(l, r) => {
            lemma_well_typed_is_kept(*l, before, after);
            lemma_well_typed_is_kept(*r, before, after);
            lemma_well_typed_is_typed(*l, before);
            lemma_well_typed_is_typed(*r, before);
            lemma_type_is_kept(l.item, before, after);
            lemma_type_is_kept(r.item, before, after);
        },
        HirView::Subtract(l, r) => {
            lemma_well_typed_is_kept(*l, before, after);
            lemma_well_typed_is_kept(*r, before, after);
            lemma_well_typed_is_typed(*l, before);
            lemma_well_typed_is_typed(*r, before);
            lemma_type_is_kept(l.item, before, after);
            lemma_type_is_kept(r.item, before, after);
        },
        HirView::Multiply(l, r) => {
            lemma_well_typed_is_kept(*l, before, after);
            lemma_well_typed_is_kept(*r, before, after);
            lemma_well_typed_is_typed(*l, before);
            lemma_well_typed_is_typed(*r, before);
            lemma_type_is_kept(l.item, before, after);
            lemma_type_is_kept(r.item, before, after);
        },
        HirView::Divide(l, r) => {
            lemma_well_typed_is_kept(*l, before, after);
            lemma_well_typed_is_kept(*r, before, after);
            lemma_well_typed_is_typed(*l, before);
            lemma_well_typed_is_typed(*r, before);
            lemma_type_is_kept(l.item, before, after);
            lemma_type_is_kept(r.item, before, after);
        },
        _ => {},
    }
}

/// Lowering an expression keeps what the table knows, and what it yields is well typed
/// under the table that it leaves.
pub proof fn lowering_is_sound(node: MetaView, st: State, index: usize, file: Seq<char>)
    ensures
        extends(lower(node, st, index, file).state.symbols, st.symbols),
        lower(node, st, index, file).state.ok ==> st.ok,
        match lower(node, st, index, file).hir {
            Some(h) => well_typed(h, lower(node, st, index, file).state.symbols) && typed(
                h.item,
                lower(node, st, index, file).state.symbols,
            ),
            None => true,
        },
    decreases node,
{
    let first = lower_literal(node, st, file);
    if first.hir.is_some() || !first.state.ok {
    } else {
        match node.item {
            AstView::BinaryExpr(op, l, r) => {
                if is_arithmetic(op) {
                    let left = lower(*l, first.state, index, file);
                    lowering_is_sound(*l, first.state, index, file);
                    match left.hir {
                        None => {},
                        Some(a) => {
                            let right = lower(*r, left.state, index, file);
                            lowering_is_sound(*r, left.state, index, file);
                            match right.hir {
                                None => {},
                                Some(b) => {
                                    lemma_well_typed_is_kept(a, left.state.symbols, right.state.symbols);
                                    lemma_type_is_kept(a.item, left.state.symbols, right.state.symbols);
                                },
                            }
                        },
                    }
                } else if op == Opcode::Equals {
                    match l.item {
                        AstView::IdentifierLiteral(n) => {
                            let value = lower(*r, first.state, index, file);
                            lowering_is_sound(*r, first.state, index, file);
                            match value.hir {
                                None => {},
                                Some(v) => {
                                    let out = lower_assignment(node, *l, n, v, value.state, index, file);
                                    if out.hir.is_some() {
                                        lemma_well_typed_is_kept(v, value.state.symbols, out.state.symbols);
                                        lemma_type_is_kept(v.item, value.state.symbols, out.state.symbols);
                                    }
                                },
                            }
                        },
                        _ => {},
                    }
                }
            },
            _ => {},
        }
    }
}

/// A table that extends a table that extends a third extends the third.
pub proof fn lemma_extends_twice(
    last: Map<Seq<char>, VariableType>,
    middle: Map<Seq<char>, VariableType>,
    first: Map<Seq<char>, VariableType>,
)
    requires
        extends(last, middle),
        extends(middle, first),
    ensures
        extends(last, first),
{
    assert forall|k: Seq<char>| #[trigger] first.contains_key(k) implies last.contains_key(k)
        && last[k].ty() == first[k].ty() && (first[k] is Defined ==> last[k] is Defined) by {
        assert(middle.contains_key(k));
    }
}

/// The first pass keeps what the table knows.
pub proof fn lemma_resolve_extends(nodes: Seq<MetaView>, i: int, st: State)
    ensures
        extends(resolve(nodes, i, st).symbols, st.symbols),
    decreases nodes.len() - i,
{
    if 0 <= i < nodes.len() && st.ok {
        let next = declare(nodes[i], st);
        lemma_resolve_extends(nodes, i + 1, next);
        lemma_extends_twice(resolve(nodes, i + 1, next).symbols, next.symbols, st.symbols);
    }
}

/// Items that are well typed stay so under a table that extends the first.
pub proof fn lemma_all_well_typed_is_kept(
    hir: Seq<HirMetaView>,
    before: Map<Seq<char>, VariableType>,
    after: Map<Seq<char>, VariableType>,
)
    requires
        all_well_typed(hir, before),
        extends(after, before),
    ensures
        all_well_typed(hir, after),
{
    assert forall|i: int| 0 <= i < hir.len() implies well_typed(#[trigger] hir[i], after) by {
        lemma_well_typed_is_kept(hir[i], before, after);
    }
}

/// The second pass keeps what the table knows, keeps the items that were lowered before,
/// and leaves a program that is well typed if it was before.
pub proof fn lemma_second_pass_is_sound(
    nodes: Seq<MetaView>,
    i: int,
    hir: Seq<HirMetaView>,
    st: State,
    file: Seq<char>,
)
    requires
        all_well_typed(hir, st.symbols),
    ensures
        extends(second_pass(nodes, i, hir, st, file).state.symbols, st.symbols),
        all_well_typed(
            second_pass(nodes, i, hir, st, file).hir,
            second_pass(nodes, i, hir, st, file).state.symbols,
        ),
        hir.len() <= second_pass(nodes, i, hir, st, file).hir.len(),
        second_pass(nodes, i, hir, st, file).hir.subrange(0, hir.len() as int) == hir,
    decreases nodes.len() - i,
{
    if !(0 <= i < nodes.len()) || hir.len() > usize::MAX {
        assert(hir.subrange(0, hir.len() as int) =~= hir);
    } else {
        let one = lower(nodes[i], st, hir.len() as usize, file);
        lowering_is_sound(nodes[i], st, hir.len() as usize, file);
        lemma_all_well_typed_is_kept(hir, st.symbols, one.state.symbols);
        match one.hir {
            Some(h) => {
                let next = hir.push(h);
                assert forall|j: int| 0 <= j < next.len() implies well_typed(
                    #[trigger] next[j],
                    one.state.symbols,
                ) by {
                    if j < hir.len() {
                        assert(next[j] == hir[j]);
                    }
                }
                lemma_second_pass_is_sound(nodes, i + 1, next, one.state, file);
                let out = second_pass(nodes, i + 1, next, one.state, file);
                lemma_extends_twice(out.state.symbols, one.state.symbols, st.symbols);
                assert(out.hir.subrange(0, hir.len() as int) =~= out.hir.subrange(
                    0,
                    next.len() as int,
                ).subrange(0, hir.len() as int));
                assert(next.subrange(0, hir.len() as int) =~= hir);
            },
            None => {
                assert(hir.subrange(0, hir.len() as int) =~= hir);
            },
        }
    }
}

/// Type soundness: whatever program lowering leaves is well typed under the table that it
/// leaves, if the program that it started from was well typed. The operands of every
/// arithmetic item have one type, and the value of every assignment has the type of its
/// variable.
pub proof fn lowered_programs_are_well_typed(
    nodes: Seq<MetaView>,
    hir: Seq<HirMetaView>,
    st: State,
    file: Seq<char>,
)
    requires
        all_well_typed(hir, st.symbols),
    ensures
        all_well_typed(convert(nodes, hir, st, file).hir, convert(nodes, hir, st, file).state.symbols),
        extends(convert(nodes, hir, st, file).state.symbols, st.symbols),
{
    let declared = resolve(nodes, 0, st);
    lemma_resolve_extends(nodes, 0, st);
    lemma_all_well_typed_is_kept(hir, st.symbols, declared.symbols);
    if declared.ok {
        lemma_second_pass_is_sound(nodes, 0, hir, declared, file);
        lemma_extends_twice(
            second_pass(nodes, 0, hir, declared, file).state.symbols,
            declared.symbols,
            st.symbols,
        );
    }
}

/// The count of references that the table holds for the variable `n`; 0 for a variable
/// without a value.
pub open spec fn count(symbols: Map<Seq<char>, VariableType>, n: Seq<char>) -> int {
    if symbols.contains_key(n) {
        match symbols[n] {
            VariableType::Defined(_, c, _) => c as int,
            VariableType::Declared(_) => 0,
        }
    } else {
        0
    }
}

/// The count of the references to `n` once the item is evaluated, if it was `c` before:
/// every reference to `n` adds one, and an assignment to `n` starts the count again.
/// Operands are evaluated from left to right, and the value of an assignment before the
/// assignment.
pub open spec fn tally(item: HirView, n: Seq<char>, c: int) -> int
    decreases item,
{
    match item {
        HirView::Named(m) => if m == n {
            c + 1
        } else {
            c
        },
        HirView::Add(l, r) => tally(r.item, n, tally(l.item, n, c)),
        HirView::Subtract(l, r) => tally(r.item, n, tally(l.item, n, c)),
        HirView::Multiply(l, r) => tally(r.item, n, tally(l.item, n, c)),
        HirView::Divide(l, r) => tally(r.item, n, tally(l.item, n, c)),
        HirView::Assign(target, value) => if target.item == HirView::Named(n) {
            0
        } else {
            tally(value.item, n, c)
        },
        _ => c,
    }
}

/// The count of the references to `n` once the items of the program from the `from`-th on
/// are evaluated, if it was `c` before.
pub open spec fn tally_all(hir: Seq<HirMetaView>, from: int, n: Seq<char>, c: int) -> int
    decreases hir.len() - from,
{
    if !(0 <= from < hir.len()) {
        c
    } else {
        tally_all(hir, from + 1, n, tally(hir[from].item, n, c))
    }
}

/// Lowering an expression counts the references of the item that it yields.
pub proof fn lemma_lower_counts(node: MetaView, st: State, index: usize, file: Seq<char>, n: Seq<char>)
    ensures
        match lower(node, st, index, file).hir {
            Some(h) => count(lower(node, st, index, file).state.symbols, n) == tally(
                h.item,
                n,
                count(st.symbols, n),
            ),
            None => true,
        },
    decreases node,
{
    let first = lower_literal(node, st, file);
    if first.hir.is_some() || !first.state.ok {
    } else {
        match node.item {
            AstView::BinaryExpr(op, l, r) => {
                if is_arithmetic(op) {
                    let left = lower(*l, first.state, index, file);
                    lemma_lower_counts(*l, first.state, index, file, n);
                    match left.hir {
                        None => {},
                        Some(a) => {
                            lemma_lower_counts(*r, left.state, index, file, n);
                        },
                    }
                } else if op == Opcode::Equals {
                    match l.item {
                        AstView::IdentifierLiteral(m) => {
                            lemma_lower_counts(*r, first.state, index, file, n);
                        },
                        _ => {},
                    }
                }
            },
            _ => {},
        }
    }
}

/// The second pass counts the references of the items that it appends.
pub proof fn lemma_second_pass_counts(
    nodes: Seq<MetaView>,
    i: int,
    hir: Seq<HirMetaView>,
    st: State,
    file: Seq<char>,
    n: Seq<char>,
)
    ensures
        hir.len() <= second_pass(nodes, i, hir, st, file).hir.len(),
        second_pass(nodes, i, hir, st, file).hir.subrange(0, hir.len() as int) == hir,
        second_pass(nodes, i, hir, st, file).state.ok ==> count(
            second_pass(nodes, i, hir, st, file).state.symbols,
            n,
        ) == tally_all(second_pass(nodes, i, hir, st, file).hir, hir.len() as int, n, count(st.symbols, n)),
    decreases nodes.len() - i,
{
    if !(0 <= i < nodes.len()) || hir.len() > usize::MAX {
        assert(hir.subrange(0, hir.len() as int) =~= hir);
    } else {
        let one = lower(nodes[i], st, hir.len() as usize, file);
        lemma_lower_counts(nodes[i], st, hir.len() as usize, file, n);
        match one.hir {
            Some(h) => {
                let next = hir.push(h);
                lemma_second_pass_counts(nodes, i + 1, next, one.state, file, n);
                let out = second_pass(nodes, i + 1, next, one.state, file);
                assert(out.hir.subrange(0, hir.len() as int) =~= out.hir.subrange(
                    0,
                    next.len() as int,
                ).subrange(0, hir.len() as int));
                assert(next.subrange(0, hir.len() as int) =~= hir);
                assert(out.hir[hir.len() as int] == out.hir.subrange(0, next.len() as int)[hir.len() as int]);
                assert(out.hir[hir.len() as int] == h);
            },
            None => {
                assert(hir.subrange(0, hir.len() as int) =~= hir);
            },
        }
    }
}

/// The first pass leaves every count as it is.
pub proof fn lemma_resolve_counts(nodes: Seq<MetaView>, i: int, st: State, n: Seq<char>)
    ensures
        count(resolve(nodes, i, st).symbols, n) == count(st.symbols, n),
    decreases nodes.len() - i,
{
    if 0 <= i < nodes.len() && st.ok {
        lemma_resolve_counts(nodes, i + 1, declare(nodes[i], st), n);
    }
}

/// Reference counts are honest: after a successful lowering the count of every variable is
/// the number of references to it that the lowered program holds behind the last
/// assignment to the variable. The references are those among the items that this
/// lowering has appended, counted on from the count that the variable had before.
pub proof fn reference_counts_are_honest(
    nodes: Seq<MetaView>,
    hir: Seq<HirMetaView>,
    st: State,
    file: Seq<char>,
    n: Seq<char>,
)
    requires
        convert(nodes, hir, st, file).state.ok,
    ensures
        count(convert(nodes, hir, st, file).state.symbols, n) == tally_all(
            convert(nodes, hir, st, file).hir,
            hir.len() as int,
            n,
            count(st.symbols, n),
        ),
{
    let declared = resolve(nodes, 0, st);
    lemma_resolve_counts(nodes, 0, st, n);
    lemma_second_pass_counts(nodes, 0, hir, declared, file, n);
}

/// The number of references to `n` that the item holds. The name to which an assignment
/// assigns is no reference.
pub open spec fn reads(item: HirView, n: Seq<char>) -> nat
    decreases item,
{
    match item {
        HirView::Named(m) => if m == n {
            1
        } else {
            0
        },
        HirView::Add(l, r) => reads(l.item, n) + reads(r.item, n),
        HirView::Subtract(l, r) => reads(l.item, n) + reads(r.item, n),
        HirView::Multiply(l, r) => reads(l.item, n) + reads(r.item, n),
        HirView::Divide(l, r) => reads(l.item, n) + reads(r.item, n),
        HirView::Assign(target, value) => reads(value.item, n),
        _ => 0,
    }
}

/// The number of assignments to `n` that the item holds.
pub open spec fn assigned(item: HirView, n: Seq<char>) -> nat
    decreases item,
{
    match item {
        HirView::Add(l, r) => assigned(l.item, n) + assigned(r.item, n),
        HirView::Subtract(l, r) => assigned(l.item, n) + assigned(r.item, n),
        HirView::Multiply(l, r) => assigned(l.item, n) + assigned(r.item, n),
        HirView::Divide(l, r) => assigned(l.item, n) + assigned(r.item, n),
        HirView::Assign(target, value) => if target.item == HirView::Named(n) {
            1 + assigned(value.item, n)
        } else {
            assigned(value.item, n)
        },
        _ => 0,
    }
}

/// The number of references to `n` that the items of the program from the `from`-th on
/// hold.
pub open spec fn reads_from(hir: Seq<HirMetaView>, from: int, n: Seq<char>) -> nat
    decreases hir.len() - from,
{
    if !(0 <= from < hir.len()) {
        0
    } else {
        reads(hir[from].item, n) + reads_from(hir, from + 1, n)
    }
}

/// The number of assignments to `n` that the items of the program from the `from`-th on
/// hold.
pub open spec fn assigned_from(hir: Seq<HirMetaView>, from: int, n: Seq<char>) -> nat
    decreases hir.len() - from,
{
    if !(0 <= from < hir.len()) {
        0
    } else {
        assigned(hir[from].item, n) + assigned_from(hir, from + 1, n)
    }
}

/// Whether the variable `n` has a value.
pub open spec fn has_value(symbols: Map<Seq<char>, VariableType>, n: Seq<char>) -> bool {
    symbols.contains_key(n) && symbols[n] is Defined
}

/// An item without an assignment to `n` adds its references to the count.
pub proof fn lemma_tally_without_assignment(item: HirView, n: Seq<char>, c: int)
    requires
        assigned(item, n) == 0,
    ensures
        tally(item, n, c) == c + reads(item, n),
    decreases item,
{
    match item {
        HirView::Add(l, r) => {
            lemma_tally_without_assignment(l.item, n, c);
            lemma_tally_without_assignment(r.item, n, tally(l.item, n, c));
        },
        HirView::Subtract(l, r) => {
            lemma_tally_without_assignment(l.item, n, c);
            lemma_tally_without_assignment(r.item, n, tally(l.item, n, c));
        },
        HirView::Multiply(l, r) => {
            lemma_tally_without_assignment(l.item, n, c);
            lemma_tally_without_assignment(r.item, n, tally(l.item, n, c));
        },
        HirView::Divide(l, r) => {
            lemma_tally_without_assignment(l.item, n, c);
            lemma_tally_without_assignment(r.item, n, tally(l.item, n, c));
        },
        HirView::Assign(target, value) => {
            lemma_tally_without_assignment(value.item, n, c);
        },
        _ => {},
    }
}

/// Items without an assignment to `n` add their references to the count.
pub proof fn lemma_tally_all_without_assignment(hir: Seq<HirMetaView>, from: int, n: Seq<char>, c: int)
    requires
        assigned_from(hir, from, n) == 0,
    ensures
        tally_all(hir, from, n, c) == c + reads_from(hir, from, n),
    decreases hir.len() - from,
{
    if 0 <= from < hir.len() {
        lemma_tally_without_assignment(hir[from].item, n, c);
        lemma_tally_all_without_assignment(hir, from + 1, n, tally(hir[from].item, n, c));
    }
}

/// What lowering an expression yields while `n` has no value holds no reference to `n`
/// before an assignment to `n`. If `n` has no value afterwards either, the item holds
/// neither a reference nor an assignment to `n`. If it has one, the item holds an
/// assignment to `n`, and if it holds just one, the count is the number of its references.
pub proof fn lemma_lower_first_assignment(
    node: MetaView,
    st: State,
    index: usize,
    file: Seq<char>,
    n: Seq<char>,
    c: int,
)
    requires
        !has_value(st.symbols, n),
    ensures
        match lower(node, st, index, file).hir {
            Some(h) => if has_value(lower(node, st, index, file).state.symbols, n) {
                assigned(h.item, n) >= 1 && (assigned(h.item, n) == 1 ==> tally(h.item, n, c) == reads(
                    h.item,
                    n,
                ))
            } else {
                reads(h.item, n) == 0 && assigned(h.item, n) == 0 && tally(h.item, n, c) == c
            },
            None => true,
        },
    decreases node,
{
    let first = lower_literal(node, st, file);
    if first.hir.is_some() || !first.state.ok {
    } else {
        match node.item {
            AstView::BinaryExpr(op, l, r) => {
                if is_arithmetic(op) {
                    let left = lower(*l, first.state, index, file);
                    lemma_lower_first_assignment(*l, first.state, index, file, n, c);
                    match left.hir {
                        None => {},
                        Some(a) => {
                            let right = lower(*r, left.state, index, file);
                            lowering_is_sound(*r, left.state, index, file);
                            match right.hir {
                                None => {},
                                Some(b) => {
                                    let out = lower_arithmetic(node, op, a, b, right.state, file);
                                    match out.hir {
                                        None => {},
                                        Some(h) => {
                                            assert(h.item == super::lowering::arithmetic(op, a, b));
                                            if has_value(left.state.symbols, n) {
                                                if assigned(h.item, n) == 1 {
                                                    lemma_tally_without_assignment(
                                                        b.item,
                                                        n,
                                                        tally(a.item, n, c),
                                                    );
                                                }
                                            } else {
                                                lemma_lower_first_assignment(
                                                    *r,
                                                    left.state,
                                                    index,
                                                    file,
                                                    n,
                                                    c,
                                                );
                                            }
                                        },
                                    }
                                },
                            }
                        },
                    }
                } else if op == Opcode::Equals {
                    match l.item {
                        AstView::IdentifierLiteral(m) => {
                            let value = lower(*r, first.state, index, file);
                            lemma_lower_first_assignment(*r, first.state, index, file, n, c);
                            match value.hir {
                                None => {},
                                Some(v) => {
                                    let out = lower_assignment(node, *l, m, v, value.state, index, file);
                                    match out.hir {
                                        None => {},
                                        Some(h) => {
                                            assert(h.item is Assign);
                                            assert(h.item->Assign_0.item == HirView::Named(m));
                                            assert(*h.item->Assign_1 == v);
                                        },
                                    }
                                },
                            }
                        },
                        _ => {},
                    }
                }
            },
            _ => {},
        }
    }
}

/// The counts of a program that assigns to `n` at most once, lowered while `n` had no
/// value: if `n` has a value at the end, its count is the number of the references to it.
/// If it has none, there is no reference to it.
pub proof fn lemma_second_pass_first_assignment(
    nodes: Seq<MetaView>,
    i: int,
    hir: Seq<HirMetaView>,
    st: State,
    file: Seq<char>,
    n: Seq<char>,
)
    requires
        !has_value(st.symbols, n),
        second_pass(nodes, i, hir, st, file).state.ok,
        assigned_from(second_pass(nodes, i, hir, st, file).hir, hir.len() as int, n) <= 1,
    ensures
        count(second_pass(nodes, i, hir, st, file).state.symbols, n) == reads_from(
            second_pass(nodes, i, hir, st, file).hir,
            hir.len() as int,
            n,
        ),
    decreases nodes.len() - i,
{
    let out = second_pass(nodes, i, hir, st, file);
    if !(0 <= i < nodes.len()) || hir.len() > usize::MAX {
    } else {
        let one = lower(nodes[i], st, hir.len() as usize, file);
        match one.hir {
            Some(h) => {
                let next = hir.push(h);
                lemma_second_pass_counts(nodes, i + 1, next, one.state, file, n);
                assert(out.hir.subrange(0, hir.len() as int) =~= out.hir.subrange(
                    0,
                    next.len() as int,
                ).subrange(0, hir.len() as int));
                assert(out.hir[hir.len() as int] == out.hir.subrange(0, next.len() as int)[hir.len() as int]);
                assert(out.hir[hir.len() as int] == h);
                lemma_lower_first_assignment(nodes[i], st, hir.len() as usize, file, n, 0);
                lemma_lower_counts(nodes[i], st, hir.len() as usize, file, n);
                if has_value(one.state.symbols, n) {
                    lemma_tally_all_without_assignment(out.hir, next.len() as int, n, count(one.state.symbols, n));
                } else {
                    lemma_second_pass_first_assignment(nodes, i + 1, next, one.state, file, n);
                }
            },
            None => {},
        }
    }
}

/// The first pass gives no variable a value.
pub proof fn lemma_resolve_gives_no_value(nodes: Seq<MetaView>, i: int, st: State, n: Seq<char>)
    requires
        !has_value(st.symbols, n),
    ensures
        !has_value(resolve(nodes, i, st).symbols, n),
    decreases nodes.len() - i,
{
    if 0 <= i < nodes.len() && st.ok {
        lemma_resolve_gives_no_value(nodes, i + 1, declare(nodes[i], st), n);
    }
}

/// Reference counts are honest, in the plain form: after a successful lowering that
/// assigns to the variable `n` at most once, the count of `n` is the number of the
/// references to `n` in the lowered program. This holds of a variable that had no value
/// when lowering began, and of the items that this lowering has appended.
pub proof fn counts_are_the_numbers_of_references(
    nodes: Seq<MetaView>,
    hir: Seq<HirMetaView>,
    st: State,
    file: Seq<char>,
    n: Seq<char>,
)
    requires
        !has_value(st.symbols, n),
        convert(nodes, hir, st, file).state.ok,
        assigned_from(convert(nodes, hir, st, file).hir, hir.len() as int, n) <= 1,
    ensures
        count(convert(nodes, hir, st, file).state.symbols, n) == reads_from(
            convert(nodes, hir, st, file).hir,
            hir.len() as int,
            n,
        ),
{
    lemma_resolve_gives_no_value(nodes, 0, st, n);
    lemma_second_pass_first_assignment(nodes, 0, hir, resolve(nodes, 0, st), file, n);
}

/// Where a definition points: every variable with a value remembers the index that the
/// statement which gave it the value has in the lowered program.
pub open spec fn definitions_bounded(symbols: Map<Seq<char>, VariableType>, bound: int) -> bool {
    forall|k: Seq<char>| #[trigger]
        symbols.contains_key(k) ==> match symbols[k] {
            VariableType::Defined(_, _, index) => index < bound,
            VariableType::Declared(_) => true,
        }
}

/// Lowering an expression of the statement with the index `index` leaves no definition
/// that points behind that statement.
pub proof fn lemma_lower_definitions(node: MetaView, st: State, index: usize, file: Seq<char>)
    requires
        definitions_bounded(st.symbols, index as int + 1),
    ensures
        definitions_bounded(lower(node, st, index, file).state.symbols, index as int + 1),
    decreases node,
{
    let first = lower_literal(node, st, file);
    if first.hir.is_some() || !first.state.ok {
    } else {
        match node.item {
            AstView::BinaryExpr(op, l, r) => {
                if is_arithmetic(op) {
                    let left = lower(*l, first.state, index, file);
                    lemma_lower_definitions(*l, first.state, index, file);
                    match left.hir {
                        None => {},
                        Some(a) => {
                            lemma_lower_definitions(*r, left.state, index, file);
                        },
                    }
                } else if op == Opcode::Equals {
                    match l.item {
                        AstView::IdentifierLiteral(m) => {
                            lemma_lower_definitions(*r, first.state, index, file);
                        },
                        _ => {},
                    }
                }
            },
            _ => {},
        }
    }
}

/// The second pass leaves no definition that points behind the program.
pub proof fn lemma_second_pass_definitions(
    nodes: Seq<MetaView>,
    i: int,
    hir: Seq<HirMetaView>,
    st: State,
    file: Seq<char>,
)
    requires
        definitions_bounded(st.symbols, hir.len() as int),
    ensures
        second_pass(nodes, i, hir, st, file).state.ok ==> definitions_bounded(
            second_pass(nodes, i, hir, st, file).state.symbols,
            second_pass(nodes, i, hir, st, file).hir.len() as int,
        ),
    decreases nodes.len() - i,
{
    if !(0 <= i < nodes.len()) || hir.len() > usize::MAX {
    } else {
        let one = lower(nodes[i], st, hir.len() as usize, file);
        lemma_lower_definitions(nodes[i], st, hir.len() as usize, file);
        match one.hir {
            Some(h) => {
                lemma_second_pass_definitions(nodes, i + 1, hir.push(h), one.state, file);
            },
            None => {},
        }
    }
}

/// The first pass defines nothing.
pub proof fn lemma_resolve_definitions(nodes: Seq<MetaView>, i: int, st: State, bound: int)
    requires
        definitions_bounded(st.symbols, bound),
    ensures
        definitions_bounded(resolve(nodes, i, st).symbols, bound),
    decreases nodes.len() - i,
{
    if 0 <= i < nodes.len() && st.ok {
        lemma_resolve_definitions(nodes, i + 1, declare(nodes[i], st), bound);
    }
}

/// After a successful lowering the index that a variable with a value remembers is that
/// of an item of the lowered program.
pub proof fn definitions_point_into_the_program(
    nodes: Seq<MetaView>,
    hir: Seq<HirMetaView>,
    st: State,
    file: Seq<char>,
)
    requires
        definitions_bounded(st.symbols, hir.len() as int),
        convert(nodes, hir, st, file).state.ok,
    ensures
        definitions_bounded(
            convert(nodes, hir, st, file).state.symbols,
            convert(nodes, hir, st, file).hir.len() as int,
        ),
{
    lemma_resolve_definitions(nodes, 0, st, hir.len() as int);
    lemma_second_pass_definitions(nodes, 0, hir, resolve(nodes, 0, st), file);
}

/// Every node of the item lies within a source of `len` bytes, its start not behind its
/// end.
pub open spec fn hir_within(node: HirMetaView, len: int) -> bool
    decreases node,
{
    &&& 0 <= node.start <= node.end <= len
    &&& match node.item {
        HirView::Add(l, r) => hir_within(*l, len) && hir_within(*r, len),
        HirView::Subtract(l, r) => hir_within(*l, len) && hir_within(*r, len),
        HirView::Multiply(l, r) => hir_within(*l, len) && hir_within(*r, len),
        HirView::Divide(l, r) => hir_within(*l, len) && hir_within(*r, len),
        HirView::Assign(target, value) => hir_within(*target, len) && hir_within(*value, len),
        _ => true,
    }
}

/// Every node of every item of the program lies within a source of `len` bytes.
pub open spec fn program_within(hir: Seq<HirMetaView>, len: int) -> bool {
    forall|i: int| 0 <= i < hir.len() ==> hir_within(#[trigger] hir[i], len)
}

/// The item that an expression is lowered to lies where the expression lies.
pub proof fn lemma_lower_keeps_spans(node: MetaView, st: State, index: usize, file: Seq<char>, len: int)
    requires
        spans_within(node, len),
    ensures
        match lower(node, st, index, file).hir {
            Some(h) => hir_within(h, len) && h.start == node.start && h.end == node.end,
            None => true,
        },
    decreases node,
{
    let first = lower_literal(node, st, file);
    lemma_children(node, len);
    if first.hir.is_some() || !first.state.ok {
    } else {
        match node.item {
            AstView::BinaryExpr(op, l, r) => {
                if is_arithmetic(op) {
                    let left = lower(*l, first.state, index, file);
                    lemma_lower_keeps_spans(*l, first.state, index, file, len);
                    match left.hir {
                        None => {},
                        Some(a) => {
                            lemma_lower_keeps_spans(*r, left.state, index, file, len);
                            let right = lower(*r, left.state, index, file);
                            match right.hir {
                                None => {},
                                Some(b) => {
                                    let out = lower_arithmetic(node, op, a, b, right.state, file);
                                    match out.hir {
                                        Some(h) => {
                                            assert(h.item == super::lowering::arithmetic(op, a, b));
                                            assert(hir_within(h, len));
                                        },
                                        None => {},
                                    }
                                },
                            }
                        },
                    }
                } else if op == Opcode::Equals {
                    match l.item {
                        AstView::IdentifierLiteral(m) => {
                            lemma_lower_keeps_spans(*r, first.state, index, file, len);
                            let value = lower(*r, first.state, index, file);
                            match value.hir {
                                None => {},
                                Some(v) => {
                                    let out = lower_assignment(node, *l, m, v, value.state, index, file);
                                    match out.hir {
                                        Some(h) => {
                                            assert(spans_within(*l, len));
                                            assert(h.item is Assign);
                                            assert(hir_within(*h.item->Assign_0, len));
                                            assert(hir_within(h, len));
                                        },
                                        None => {},
                                    }
                                },
                            }
                        },
                        _ => {},
                    }
                }
            },
            _ => {},
        }
    }
}

/// The second pass appends items that lie within the source.
pub proof fn lemma_second_pass_keeps_spans(
    nodes: Seq<MetaView>,
    i: int,
    hir: Seq<HirMetaView>,
    st: State,
    file: Seq<char>,
    len: int,
)
    requires
        all_within(nodes, len),
        program_within(hir, len),
    ensures
        program_within(second_pass(nodes, i, hir, st, file).hir, len),
    decreases nodes.len() - i,
{
    if !(0 <= i < nodes.len()) || hir.len() > usize::MAX {
    } else {
        let one = lower(nodes[i], st, hir.len() as usize, file);
        lemma_lower_keeps_spans(nodes[i], st, hir.len() as usize, file, len);
        match one.hir {
            Some(h) => {
                let next = hir.push(h);
                assert forall|j: int| 0 <= j < next.len() implies hir_within(#[trigger] next[j], len) by {
                    if j < hir.len() {
                        assert(next[j] == hir[j]);
                    }
                }
                lemma_second_pass_keeps_spans(nodes, i + 1, next, one.state, file, len);
            },
            None => {},
        }
    }
}

/// Span soundness of lowering: if every node of the trees lies within the source, so does
/// every node of the program that they are lowered to.
pub proof fn lowering_keeps_spans(
    nodes: Seq<MetaView>,
    hir: Seq<HirMetaView>,
    st: State,
    file: Seq<char>,
    len: int,
)
    requires
        all_within(nodes, len),
        program_within(hir, len),
    ensures
        program_within(convert(nodes, hir, st, file).hir, len),
{
    lemma_second_pass_keeps_spans(nodes, 0, hir, resolve(nodes, 0, st), file, len);
}

} // verus!
