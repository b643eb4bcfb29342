//! A node of the tree: an item with its place in the source.

use std::ops::Range;
use vstd::prelude::*;
use super::{Ast, AstView};

verus! {

/// An item of the tree with what surrounds it in the source.
#[derive(Debug)]
pub struct AstMeta {
    /// The bytes of the source that the item was read from.
    pub range: Range<usize>,
    /// Whether a semicolon follows the item.
    pub semicolon: bool,
    /// The documentation comments that precede the item.
    pub comments: Vec<String>,
    /// The item itself.
    pub item: Ast,
    /// Whether the item stands in parentheses.
    pub parenthesis: bool,
}

/// The mathematical value of a node.
pub ghost struct MetaView {
    pub start: int,
    pub end: int,
    pub semicolon: bool,
    pub comments: Seq<Seq<char>>,
    pub item: AstView,
    pub parenthesis: bool,
}

impl MetaView {
    /// A node without semicolon, parentheses or comments.
    pub open spec fn plain(start: int, end: int, item: AstView) -> MetaView {
        MetaView { start, end, semicolon: false, comments: Seq::empty(), item, parenthesis: false }
    }
}

impl AstMeta {
    /// The mathematical value of the node.
    pub open spec fn view(&self) -> MetaView
        decreases self,
    {
        MetaView {
            start: self.range.start as int,
            end: self.range.end as int,
            semicolon: self.semicolon,
            comments: Seq::new(self.comments@.len(), |i: int| self.comments@[i]@),
            item: self.item.view(),
            parenthesis: self.parenthesis,
        }
    }

    /// A node for `item` at `range`, without semicolon, parentheses or comments.
    pub fn new(range: Range<usize>, item: Ast) -> (r: Self)
        ensures
            r == (AstMeta { range, semicolon: false, comments: r.comments, item, parenthesis: false }),
            r.comments@.len() == 0,
            r@ == MetaView::plain(range.start as int, range.end as int, item@),
    {
        let r = AstMeta { range, semicolon: false, comments: Vec::new(), item, parenthesis: false };
        assert(r@.comments =~= Seq::empty());
        r
    }

    /// A boxed node for `item` at `range`.
    pub fn boxed(range: Range<usize>, item: Ast) -> (r: Box<Self>)
        ensures
            r@ == MetaView::plain(range.start as int, range.end as int, item@),
    {
        Box::new(AstMeta::new(range, item))
    }

    /// The node with `comments` in place of its comments.
    pub fn with_comments(self, comments: Vec<String>) -> (r: Self)
        ensures
            r == (AstMeta { comments, ..self }),
    {
        let mut node = self;
        node.comments = comments;
        node
    }

    /// Records that a semicolon follows the node.
    pub fn semicolon(&mut self)
        ensures
            *final(self) == (AstMeta { semicolon: true, ..*old(self) }),
            final(self)@ == (MetaView { semicolon: true, ..old(self)@ }),
    {
        self.semicolon = true;
    }

    /// Records that the node stands in parentheses.
    pub fn parenthesis(&mut self)
        ensures
            *final(self) == (AstMeta { parenthesis: true, ..*old(self) }),
            final(self)@ == (MetaView { parenthesis: true, ..old(self)@ }),
    {
        self.parenthesis = true;
    }

    /// The node in a box.
    pub fn as_box(self) -> (r: Box<Self>)
        ensures
            *r == self,
    {
        Box::new(self)
    }
}

} // verus!
