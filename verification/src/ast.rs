//! The syntax tree that the parser builds.

pub mod meta;
pub mod opcode;

use vstd::prelude::*;

pub use meta::{AstMeta, MetaView};
pub use opcode::Opcode;

verus! {

/// The items of the syntax tree.
#[derive(Debug)]
pub enum Ast {
    /// A name, such as `my_identifier`.
    IdentifierLiteral(String),
    /// `true` or `false`.
    BooleanLiteral(bool),
    /// A string literal, without its quotes.
    StringLiteral(String),
    /// An integer literal. It carries no sign: a `-` before it is an operator.
    IntegerLiteral(u64),
    /// A floating point literal such as `42.0` or `4.2e1`, as it is written in the source.
    FloatLiteral(String),
    /// An array literal, `[1, 2, 3]`.
    ArrayLiteral(Vec<AstMeta>),
    /// An operator before its operand, such as `-20`.
    UnaryExpr(Opcode, Box<AstMeta>),
    /// An operator between two operands, such as `2 + 2`.
    BinaryExpr(Opcode, Box<AstMeta>, Box<AstMeta>),
    /// An indexing, `subject[index]`; the index may be missing.
    SubscriptExpr(Box<AstMeta>, Option<Box<AstMeta>>),
    /// A call, `callee(arguments)`.
    CallExpr(Box<AstMeta>, Vec<AstMeta>),
    /// A template with its parameters, `my_template<Type1, Type2>`.
    TemplateExpr(Box<AstMeta>, Vec<AstMeta>),
    /// An `if` statement. Each `else if` is an `IfStmnt` among the branches, a final `else`
    /// is a `Block` there.
    IfStmnt { expr: Box<AstMeta>, block: Vec<AstMeta>, branches: Vec<AstMeta> },
    /// A `while` statement.
    WhileStmnt { expr: Box<AstMeta>, block: Vec<AstMeta> },
    /// A function introduced by a construct; `construct` is the construct's name without
    /// its `@`.
    FunctionConstruct {
        construct: String,
        name: Box<AstMeta>,
        returns: Option<Box<AstMeta>>,
        arguments: Vec<AstMeta>,
        block: Vec<AstMeta>,
    },
    /// A class introduced by a construct.
    ClassConstruct { construct: String, name: Box<AstMeta>, block: Vec<AstMeta> },
    /// A variable introduced by a construct.
    VariableConstruct { construct: String, name: Box<AstMeta>, value: Box<AstMeta> },
    /// The declaration of an external function.
    DeclareStmnt { name: Box<AstMeta>, arguments: Vec<AstMeta>, returns: Option<Box<AstMeta>> },
    /// A statement marked `pub`.
    PubStmnt(Box<AstMeta>),
    /// A statement marked `priv`.
    PrivStmnt(Box<AstMeta>),
    /// `return`, with the value returned if there is one.
    ReturnStmnt(Option<Box<AstMeta>>),
    /// `continue`, with the label of the loop if there is one.
    ContinueStmnt(Option<Box<AstMeta>>),
    /// `break`, with the label of the loop if there is one.
    BreakStmnt(Option<Box<AstMeta>>),
    /// A block of statements.
    Block(Vec<AstMeta>),
}

/// The mathematical value of an item.
pub ghost enum AstView {
    IdentifierLiteral(Seq<char>),
    BooleanLiteral(bool),
    StringLiteral(Seq<char>),
    IntegerLiteral(u64),
    FloatLiteral(Seq<char>),
    ArrayLiteral(Seq<MetaView>),
    UnaryExpr(Opcode, Box<MetaView>),
    BinaryExpr(Opcode, Box<MetaView>, Box<MetaView>),
    SubscriptExpr(Box<MetaView>, Option<Box<MetaView>>),
    CallExpr(Box<MetaView>, Seq<MetaView>),
    TemplateExpr(Box<MetaView>, Seq<MetaView>),
    IfStmnt { expr: Box<MetaView>, block: Seq<MetaView>, branches: Seq<MetaView> },
    WhileStmnt { expr: Box<MetaView>, block: Seq<MetaView> },
    FunctionConstruct {
        construct: Seq<char>,
        name: Box<MetaView>,
        returns: Option<Box<MetaView>>,
        arguments: Seq<MetaView>,
        block: Seq<MetaView>,
    },
    ClassConstruct { construct: Seq<char>, name: Box<MetaView>, block: Seq<MetaView> },
    VariableConstruct { construct: Seq<char>, name: Box<MetaView>, value: Box<MetaView> },
    DeclareStmnt { name: Box<MetaView>, arguments: Seq<MetaView>, returns: Option<Box<MetaView>> },
    PubStmnt(Box<MetaView>),
    PrivStmnt(Box<MetaView>),
    ReturnStmnt(Option<Box<MetaView>>),
    ContinueStmnt(Option<Box<MetaView>>),
    BreakStmnt(Option<Box<MetaView>>),
    Block(Seq<MetaView>),
}

/// The values of a list of nodes.
pub open spec fn views(nodes: Seq<AstMeta>) -> Seq<MetaView> {
    Seq::new(nodes.len(), |i: int| nodes[i]@)
}

impl Ast {
    /// The mathematical value of the item.
    pub open spec fn view(&self) -> AstView
        decreases self,
    {
        match self {
            Ast::IdentifierLiteral(s) => AstView::IdentifierLiteral(s@),
            Ast::BooleanLiteral(b) => AstView::BooleanLiteral(*b),
            Ast::StringLiteral(s) => AstView::StringLiteral(s@),
            Ast::IntegerLiteral(i) => AstView::IntegerLiteral(*i),
            Ast::FloatLiteral(s) => AstView::FloatLiteral(s@),
            Ast::ArrayLiteral(v) => AstView::ArrayLiteral(Ast::list(v)),
            Ast::UnaryExpr(op, a) => AstView::UnaryExpr(*op, Box::new(a.view())),
            Ast::BinaryExpr(op, a, b) => AstView::BinaryExpr(
                *op,
                Box::new(a.view()),
                Box::new(b.view()),
            ),
            Ast::SubscriptExpr(a, b) => AstView::SubscriptExpr(Box::new(a.view()), Ast::optional(b)),
            Ast::CallExpr(a, v) => AstView::CallExpr(Box::new(a.view()), Ast::list(v)),
            Ast::TemplateExpr(a, v) => AstView::TemplateExpr(Box::new(a.view()), Ast::list(v)),
            Ast::IfStmnt { expr, block, branches } => AstView::IfStmnt {
                expr: Box::new(expr.view()),
                block: Ast::list(block),
                branches: Ast::list(branches),
            },
            Ast::WhileStmnt { expr, block } => AstView::WhileStmnt {
                expr: Box::new(expr.view()),
                block: Ast::list(block),
            },
            Ast::FunctionConstruct { construct, name, returns: ret, arguments, block } => {
                AstView::FunctionConstruct {
                    construct: construct@,
                    name: Box::new(name.view()),
                    returns: Ast::optional(ret),
                    arguments: Ast::list(arguments),
                    block: Ast::list(block),
                }
            },
            Ast::ClassConstruct { construct, name, block } => AstView::ClassConstruct {
                construct: construct@,
                name: Box::new(name.view()),
                block: Ast::list(block),
            },
            Ast::VariableConstruct { construct, name, value } => AstView::VariableConstruct {
                construct: construct@,
                name: Box::new(name.view()),
                value: Box::new(value.view()),
            },
            Ast::DeclareStmnt { name, arguments, returns: ret } => AstView::DeclareStmnt {
                name: Box::new(name.view()),
                arguments: Ast::list(arguments),
                returns: Ast::optional(ret),
            },
            Ast::PubStmnt(a) => AstView::PubStmnt(Box::new(a.view())),
            Ast::PrivStmnt(a) => AstView::PrivStmnt(Box::new(a.view())),
            Ast::ReturnStmnt(a) => AstView::ReturnStmnt(Ast::optional(a)),
            Ast::ContinueStmnt(a) => AstView::ContinueStmnt(Ast::optional(a)),
            Ast::BreakStmnt(a) => AstView::BreakStmnt(Ast::optional(a)),
            Ast::Block(v) => AstView::Block(Ast::list(v)),
        }
    }

    /// The values of the nodes of a list that belongs to an item.
    pub open spec fn list(v: &Vec<AstMeta>) -> Seq<MetaView>
        decreases v,
    {
        Seq::new(
            v@.len(),
            |i: int|
                if 0 <= i < v@.len() {
                    v@[i].view()
                } else {
                    arbitrary()
                },
        )
    }

    /// The value of a node that may be missing.
    pub open spec fn optional(a: &Option<Box<AstMeta>>) -> Option<Box<MetaView>>
        decreases a,
    {
        match a {
            Some(b) => Some(Box::new(b.view())),
            None => None,
        }
    }
}

/// The value of a list of nodes that belongs to an item is the list of their values.
pub proof fn lemma_list_views(v: &Vec<AstMeta>)
    ensures
        Ast::list(v) == views(v@),
{
    assert(Ast::list(v) =~= views(v@));
}

/// Every node of the tree lies within a source of `len` bytes, its start not behind its end.
pub open spec fn spans_within(node: MetaView, len: int) -> bool
    decreases node, 1int,
{
    0 <= node.start <= node.end <= len && children_within(node, len)
}

/// Every node below `node` lies within a source of `len` bytes.
#[verifier::opaque]
pub open spec fn children_within(node: MetaView, len: int) -> bool
    decreases node, 0int,
{
    match node.item {
        AstView::ArrayLiteral(v) => all_within(v, len),
        AstView::UnaryExpr(_, a) => spans_within(*a, len),
        AstView::BinaryExpr(_, a, b) => spans_within(*a, len) && spans_within(*b, len),
        AstView::SubscriptExpr(a, b) => spans_within(*a, len) && optional_within(b, len),
        AstView::CallExpr(a, v) => spans_within(*a, len) && all_within(v, len),
        AstView::TemplateExpr(a, v) => spans_within(*a, len) && all_within(v, len),
        AstView::IfStmnt { expr, block, branches } => spans_within(*expr, len) && all_within(
            block,
            len,
        ) && all_within(branches, len),
        AstView::WhileStmnt { expr, block } => spans_within(*expr, len) && all_within(block, len),
        AstView::FunctionConstruct { construct, name, returns: ret, arguments, block } => spans_within(
            *name,
            len,
        ) && optional_within(ret, len) && all_within(arguments, len) && all_within(block, len),
        AstView::ClassConstruct { construct, name, block } => spans_within(*name, len)
            && all_within(block, len),
        AstView::VariableConstruct { construct, name, value } => spans_within(*name, len)
            && spans_within(*value, len),
        AstView::DeclareStmnt { name, arguments, returns: ret } => spans_within(*name, len)
            && all_within(arguments, len) && optional_within(ret, len),
        AstView::PubStmnt(a) => spans_within(*a, len),
        AstView::PrivStmnt(a) => spans_within(*a, len),
        AstView::ReturnStmnt(a) => optional_within(a, len),
        AstView::ContinueStmnt(a) => optional_within(a, len),
        AstView::BreakStmnt(a) => optional_within(a, len),
        AstView::Block(v) => all_within(v, len),
        _ => true,
    }
}

/// Every node of every tree of the list lies within a source of `len` bytes.
pub open spec fn all_within(nodes: Seq<MetaView>, len: int) -> bool
    decreases nodes,
{
    forall|i: int| 0 <= i < nodes.len() ==> spans_within(#[trigger] nodes[i], len)
}

/// Every node of the tree, if there is one, lies within a source of `len` bytes.
pub open spec fn optional_within(node: Option<Box<MetaView>>, len: int) -> bool
    decreases node,
{
    match node {
        Some(a) => spans_within(*a, len),
        None => true,
    }
}

/// A list stays within the source when a node within the source is appended.
pub proof fn lemma_all_within_push(nodes: Seq<MetaView>, node: MetaView, len: int)
    requires
        all_within(nodes, len),
        spans_within(node, len),
    ensures
        all_within(nodes.push(node), len),
{
    assert forall|i: int| 0 <= i < nodes.push(node).len() implies spans_within(
        #[trigger] nodes.push(node)[i],
        len,
    ) by {
        if i < nodes.len() {
            assert(nodes.push(node)[i] == nodes[i]);
        }
    }
}

/// What lies below a node, by the kind of its item.
pub proof fn lemma_children(node: MetaView, len: int)
    ensures
        children_within(node, len) == match node.item {
            AstView::ArrayLiteral(v) => all_within(v, len),
            AstView::UnaryExpr(_, a) => spans_within(*a, len),
            AstView::BinaryExpr(_, a, b) => spans_within(*a, len) && spans_within(*b, len),
            AstView::SubscriptExpr(a, b) => spans_within(*a, len) && optional_within(b, len),
            AstView::CallExpr(a, v) => spans_within(*a, len) && all_within(v, len),
            AstView::IfStmnt { expr, block, branches } => spans_within(*expr, len) && all_within(
                block,
                len,
            ) && all_within(branches, len),
            AstView::WhileStmnt { expr, block } => spans_within(*expr, len) && all_within(block, len),
            AstView::Block(v) => all_within(v, len),
            AstView::IdentifierLiteral(_) => true,
            AstView::BooleanLiteral(_) => true,
            AstView::StringLiteral(_) => true,
            AstView::IntegerLiteral(_) => true,
            AstView::FloatLiteral(_) => true,
            _ => children_within(node, len),
        },
{
    reveal_with_fuel(children_within, 1);
}

} // verus!
