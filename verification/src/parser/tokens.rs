//! What the parsing functions bring about, and the consuming of one expected token.

use std::ops::Range;
use vstd::prelude::*;
use vstd::string::*;

use super::grammar::{expected, in_order, is_float_text, look, Read};
use super::report::{
    make_end_of_file, make_invalid_character, make_unclosed_string, make_unexpected_string,
    make_unexpected_token,
};
use super::{offence, Parser};
use crate::ast::{all_within, spans_within, views, AstMeta, MetaView};
use crate::diagnostic::{Context, DiagnosticView};
use crate::lexer::token::Token;

verus! {

broadcast use Context::lemma_extends_twice;

/// Whether the number literal from `start` to `end` holds a `.`, an `e` or an `E`.
pub fn has_float_mark(s: &[u8], start: usize, end: usize) -> (r: bool)
    requires
        start <= end <= s.len(),
    ensures
        r == is_float_text(s@, start as int, end as int),
{
    let mut i: usize = start;
    while i < end
        invariant
            start <= i <= end <= s.len(),
            forall|j: int| start <= j < i ==> !(s@[j] == 0x2e || s@[j] == 0x65 || s@[j] == 0x45),
        decreases end - i,
    {
        let b = s[i];
        if b == 0x2e || b == 0x65 || b == 0x45 {
            return true;
        }
        i = i + 1;
    }
    false
}

impl<'a> Parser<'a> {
    /// What a successful reading of `node` up to the position `self` has reached says of
    /// the node and of the parser: the node lies between the position `before` and the
    /// new one, within the source, and nothing was reported.
    pub open spec fn read(&self, before: &Self, node: MetaView) -> bool {
        &&& self.successful == before.successful
        &&& self.gathered() == before.gathered()
        &&& spans_within(node, self.source().len() as int)
        &&& before.position() <= node.start <= node.end <= self.position()
    }

    /// What a successful reading of a list of nodes says.
    pub open spec fn read_all(&self, before: &Self, nodes: Seq<MetaView>) -> bool {
        &&& self.successful == before.successful
        &&& self.gathered() == before.gathered()
        &&& all_within(nodes, self.source().len() as int)
        &&& forall|i: int|
            0 <= i < nodes.len() ==> before.position() <= (#[trigger] nodes[i]).start && nodes[i].end
                <= self.position()
    }

    /// The parser has reported exactly the diagnostics `faults` since the state `before`,
    /// at least one, and is unsuccessful.
    pub open spec fn reports(&self, before: &Self, faults: Seq<DiagnosticView>) -> bool {
        &&& self.gathered() == before.gathered() + faults
        &&& faults.len() > 0
        &&& !self.successful
    }

    /// The parser has reported nothing since the state `before`.
    pub open spec fn quiet(&self, before: &Self) -> bool {
        self.gathered() == before.gathered() && self.successful == before.successful
    }

    /// What a call that reads a tree has to bring about: `expected` is what the grammar
    /// reads at the position `before`. Where the grammar reads a tree, the call gives that
    /// tree and stands behind it, and nothing is reported. Where the grammar finds a
    /// fault, the call gives nothing and has reported the diagnostics of the fault.
    pub open spec fn gives(&self, before: &Self, r: Option<AstMeta>, expected: Read<MetaView>) -> bool {
        &&& self.steps(before)
        &&& match r {
            Some(node) => {
                &&& expected == Read::Done(node@, self.position())
                &&& self.read(before, node@)
                &&& before.position() < self.position()
            },
            None => match expected {
                Read::Fault(faults) => self.reports(before, faults),
                _ => false,
            },
        }
    }

    /// As `gives`, for a call that gives nothing and reports nothing when the source has
    /// ended.
    pub open spec fn gives_quietly(&self, before: &Self, r: Option<AstMeta>, expected: Read<MetaView>) -> bool {
        &&& self.steps(before)
        &&& match r {
            Some(node) => {
                &&& expected == Read::Done(node@, self.position())
                &&& self.read(before, node@)
                &&& before.position() < self.position()
            },
            None => match expected {
                Read::Fault(faults) => self.reports(before, faults),
                Read::End => self.quiet(before) && look(
                    before.source(),
                    before.position(),
                ).token.is_none(),
                _ => false,
            },
        }
    }

    /// As `gives`, for a call that reads a list of trees.
    pub open spec fn gives_all(
        &self,
        before: &Self,
        r: Option<Vec<AstMeta>>,
        expected: Read<Seq<MetaView>>,
    ) -> bool {
        &&& self.steps(before)
        &&& match r {
            Some(nodes) => {
                &&& expected == Read::Done(views(nodes@), self.position())
                &&& self.read_all(before, views(nodes@))
                &&& before.position() < self.position()
            },
            None => match expected {
                Read::Fault(faults) => self.reports(before, faults),
                _ => false,
            },
        }
    }

    /// The number of diagnostics reported so far.
    pub(crate) fn reported(&self) -> (r: usize)
        ensures
            r == self.gathered().len(),
    {
        self.context.diagnostics.len()
    }

    /// Reports the token that was just consumed as standing where `expect` was expected.
    pub(crate) fn report_offence(&mut self, expect: Token, tok: Token, span: Range<usize>)
        requires
            old(self).wf(),
            span.start < span.end <= old(self).source().len(),
            span.start == old(self).lexer.span_start(),
            span.end == old(self).position(),
        ensures
            final(self).steps(old(self)),
            final(self).lexer == old(self).lexer,
            final(self).reports(
                old(self),
                offence(old(self).source(), expect, tok, span.start as int, span.end as int),
            ),
    {
        let ghost before = self.gathered();
        match tok {
            Token::InvalidString => {
                self.fail(make_unclosed_string(span.start..span.end));
                if expect != Token::String {
                    self.fail(make_unexpected_string(expect, span));
                }
            },
            Token::Invalid => {
                let text = self.lexer.slice();
                self.fail(make_invalid_character(Some(expect), text, span));
            },
            _ => {
                let text = self.lexer.slice();
                self.fail(make_unexpected_token(expect, text, span));
            },
        }
        assert(self.gathered() =~= before + offence(
            old(self).source(),
            expect,
            tok,
            span.start as int,
            span.end as int,
        ));
    }

    /// Consumes the token ahead if it is `expect` and gives its span. Any other token is
    /// consumed and reported, and so is the end of the source.
    pub fn expect_token(&mut self, expect: Token) -> (r: Option<Range<usize>>)
        requires
            old(self).wf(),
        ensures
            final(self).steps(old(self)),
            in_order(old(self).source(), old(self).position(), look(old(self).source(), old(self).position())),
            match r {
                Some(span) => {
                    &&& expected(old(self).source(), old(self).position(), expect) == Read::Done(
                        (span.start as int, span.end as int),
                        final(self).position(),
                    )
                    &&& final(self).quiet(old(self))
                    &&& old(self).position() <= span.start < span.end
                    &&& span.end == final(self).position()
                },
                None => match expected(old(self).source(), old(self).position(), expect) {
                    Read::Fault(faults) => final(self).reports(old(self), faults),
                    _ => false,
                },
            },
    {
        match self.peek_token() {
            Some(tok) => {
                let span = self.bump();
                if tok == expect {
                    Some(span)
                } else {
                    self.report_offence(expect, tok, span);
                    None
                }
            },
            None => {
                let len = self.lexer.input.as_bytes().len();
                self.fail(make_end_of_file(expect, len));
                None
            },
        }
    }
}

} // verus!
