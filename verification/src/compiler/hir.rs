//! The high-level intermediate representation: what the front end hands to a back end.

use std::ops::Range;
use vstd::prelude::*;
use vstd::string::*;
use super::symbols::SymbolTable;
use super::types::FlycatcherType;
use super::var::VariableType;

verus! {

/// An item of the representation with its place in the source.
#[derive(Debug)]
pub struct HirMeta<'a> {
    /// The bytes of the source that the item was lowered from.
    pub range: Range<usize>,
    /// The name of the file that holds the source.
    pub filename: &'a str,
    /// The item.
    pub item: Hir<'a>,
}

/// The items of the representation.
#[derive(Debug)]
pub enum Hir<'a> {
    /// `true` or `false`.
    Boolean(bool),
    /// A signed integer of 64 bits.
    Integer(i64),
    /// An unsigned integer of 64 bits.
    UnsignedInteger(u64),
    /// A floating point number of 64 bits, as it is written in the source.
    Float(String),
    /// A reference to the value of a variable.
    Named(String),
    /// The sum of two values of one type.
    Add(Box<HirMeta<'a>>, Box<HirMeta<'a>>),
    /// The difference of two values of one type.
    Subtract(Box<HirMeta<'a>>, Box<HirMeta<'a>>),
    /// The product of two values of one type.
    Multiply(Box<HirMeta<'a>>, Box<HirMeta<'a>>),
    /// The quotient of two values of one type.
    Divide(Box<HirMeta<'a>>, Box<HirMeta<'a>>),
    /// Gives the variable named by the first item, a `Named`, the value of the second.
    Assign(Box<HirMeta<'a>>, Box<HirMeta<'a>>),
    /// A string that ends with a zero byte.
    NullString(String),
}

/// The mathematical value of a node of the representation.
pub ghost struct HirMetaView {
    pub start: int,
    pub end: int,
    pub filename: Seq<char>,
    pub item: HirView,
}

/// The mathematical value of an item of the representation.
pub ghost enum HirView {
    Boolean(bool),
    Integer(i64),
    UnsignedInteger(u64),
    Float(Seq<char>),
    Named(Seq<char>),
    Add(Box<HirMetaView>, Box<HirMetaView>),
    Subtract(Box<HirMetaView>, Box<HirMetaView>),
    Multiply(Box<HirMetaView>, Box<HirMetaView>),
    Divide(Box<HirMetaView>, Box<HirMetaView>),
    Assign(Box<HirMetaView>, Box<HirMetaView>),
    NullString(Seq<char>),
}

impl HirView {
    /// The two operands of an arithmetic item.
    pub open spec fn operands(self) -> Option<(HirMetaView, HirMetaView)> {
        match self {
            HirView::Add(l, r) => Some((*l, *r)),
            HirView::Subtract(l, r) => Some((*l, *r)),
            HirView::Multiply(l, r) => Some((*l, *r)),
            HirView::Divide(l, r) => Some((*l, *r)),
            _ => None,
        }
    }
}

/// The type of an item under a symbol table: that of a literal is fixed, that of a name is
/// the type of the variable, that of an arithmetic item is the type of its left operand,
/// and that of an `Assign` is the type of the value.
pub open spec fn type_of(item: HirView, symbols: Map<Seq<char>, VariableType>) -> FlycatcherType
    decreases item,
{
    match item {
        HirView::Boolean(_) => FlycatcherType::Boolean,
        HirView::Integer(_) => FlycatcherType::Size,
        HirView::UnsignedInteger(_) => FlycatcherType::Usize,
        HirView::Float(_) => FlycatcherType::Float64,
        HirView::NullString(_) => FlycatcherType::NullString,
        HirView::Named(n) => symbols[n].ty(),
        HirView::Add(l, _) => type_of(l.item, symbols),
        HirView::Subtract(l, _) => type_of(l.item, symbols),
        HirView::Multiply(l, _) => type_of(l.item, symbols),
        HirView::Divide(l, _) => type_of(l.item, symbols),
        HirView::Assign(_, v) => type_of(v.item, symbols),
    }
}

/// Whether the table knows the variable whose type decides the type of the item.
pub open spec fn typed(item: HirView, symbols: Map<Seq<char>, VariableType>) -> bool
    decreases item,
{
    match item {
        HirView::Named(n) => symbols.contains_key(n),
        HirView::Add(l, _) => typed(l.item, symbols),
        HirView::Subtract(l, _) => typed(l.item, symbols),
        HirView::Multiply(l, _) => typed(l.item, symbols),
        HirView::Divide(l, _) => typed(l.item, symbols),
        HirView::Assign(_, v) => typed(v.item, symbols),
        _ => true,
    }
}

impl<'a> HirMeta<'a> {
    /// The mathematical value of the node.
    pub open spec fn view(&self) -> HirMetaView
        decreases self,
    {
        HirMetaView {
            start: self.range.start as int,
            end: self.range.end as int,
            filename: self.filename@,
            item: self.item.view(),
        }
    }

    /// A node for `item` at `range` in the file `filename`.
    pub fn new(range: Range<usize>, filename: &'a str, item: Hir<'a>) -> (r: Self)
        ensures
            r == (HirMeta { range, filename, item }),
    {
        HirMeta { range, filename, item }
    }

    /// A boxed node for `item` at `range` in the file `filename`.
    pub fn boxed(range: Range<usize>, filename: &'a str, item: Hir<'a>) -> (r: Box<Self>)
        ensures
            *r == (HirMeta { range, filename, item }),
    {
        Box::new(HirMeta::new(range, filename, item))
    }

    /// The node in a box.
    pub fn into_box(self) -> (r: Box<Self>)
        ensures
            *r == self,
    {
        Box::new(self)
    }
}

impl<'a> Hir<'a> {
    /// The mathematical value of the item.
    pub open spec fn view(&self) -> HirView
        decreases self,
    {
        match self {
            Hir::Boolean(b) => HirView::Boolean(*b),
            Hir::Integer(i) => HirView::Integer(*i),
            Hir::UnsignedInteger(u) => HirView::UnsignedInteger(*u),
            Hir::Float(t) => HirView::Float(t@),
            Hir::Named(n) => HirView::Named(n@),
            Hir::Add(l, r) => HirView::Add(Box::new(l.view()), Box::new(r.view())),
            Hir::Subtract(l, r) => HirView::Subtract(Box::new(l.view()), Box::new(r.view())),
            Hir::Multiply(l, r) => HirView::Multiply(Box::new(l.view()), Box::new(r.view())),
            Hir::Divide(l, r) => HirView::Divide(Box::new(l.view()), Box::new(r.view())),
            Hir::Assign(n, v) => HirView::Assign(Box::new(n.view()), Box::new(v.view())),
            Hir::NullString(t) => HirView::NullString(t@),
        }
    }

    /// The type of the item under the symbol table.
    pub fn get_type(&self, symbols: &SymbolTable) -> (r: FlycatcherType)
        requires
            symbols.wf(),
            typed(self@, symbols@),
        ensures
            r == type_of(self@, symbols@),
        decreases self,
    {
        match self {
            Hir::Boolean(_) => FlycatcherType::Boolean,
            Hir::Integer(_) => FlycatcherType::Size,
            Hir::UnsignedInteger(_) => FlycatcherType::Usize,
            Hir::Float(_) => FlycatcherType::Float64,
            Hir::NullString(_) => FlycatcherType::NullString,
            Hir::Named(n) => {
                match symbols.get(n.as_str()) {
                    Some(v) => v.get_type(),
                    None => FlycatcherType::Size,
                }
            },
            Hir::Add(l, _) => l.item.get_type(symbols),
            Hir::Subtract(l, _) => l.item.get_type(symbols),
            Hir::Multiply(l, _) => l.item.get_type(symbols),
            Hir::Divide(l, _) => l.item.get_type(symbols),
            Hir::Assign(_, v) => v.item.get_type(symbols),
        }
    }
}

/// The values of a list of nodes.
pub open spec fn hir_views(nodes: Seq<HirMeta>) -> Seq<HirMetaView> {
    Seq::new(nodes.len(), |i: int| nodes[i]@)
}

} // verus!
