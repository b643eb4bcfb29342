//! The parsing functions of statements and blocks.

use std::ops::Range;
use vstd::prelude::*;
use vstd::string::*;

use super::grammar::{
    block, branch, branches, conditional, if_statement, lemma_skip_docs_settled, look, program,
    statement, while_statement, Read,
};
use super::report::{make_dangling_else, make_missing_condition, make_unclosed_block};
use super::eating::comment_text;
use super::{doc_spans, doc_text, doc_texts, docs_at, Parser};
use crate::ast::{
    children_within, lemma_all_within_push, lemma_children, lemma_list_views, spans_within, views,
    Ast, AstMeta,
};
use crate::diagnostic::Context;
use crate::lexer::rules::lemma_next_token_bounds;
use crate::lexer::scan::find_token;
use crate::lexer::token::Token;

verus! {

broadcast use Context::lemma_extends_twice;

impl<'a> Parser<'a> {
    /// Reads the condition and the block of an `if` or a `while`, behind the keyword,
    /// which `keyword` spans.
    pub(crate) fn parse_conditional(&mut self, keyword: Range<usize>) -> (r: Option<(AstMeta, Vec<AstMeta>)>)
        requires
            old(self).wf(),
            keyword.start < keyword.end,
            keyword.end == old(self).position(),
        ensures
            final(self).steps(old(self)),
            match r {
                Some((expr, statements)) => {
                    &&& conditional(old(self).source(), old(self).position(), keyword.start as int)
                        == Read::Done((expr@, views(statements@)), final(self).position())
                    &&& final(self).read(old(self), expr@)
                    &&& final(self).read_all(old(self), views(statements@))
                    &&& old(self).position() < final(self).position()
                },
                None => match conditional(
                    old(self).source(),
                    old(self).position(),
                    keyword.start as int,
                ) {
                    Read::Fault(faults) => final(self).reports(old(self), faults),
                    _ => false,
                },
            },
        decreases old(self).source().len() - old(self).position(), 5int,
    {
        let count = self.reported();
        match self.parse_binary(0) {
            Some(expr) => match self.expect_token(Token::LCurly) {
                Some(_) => match self.parse_block() {
                    Some(statements) => Some((expr, statements)),
                    None => None,
                },
                None => None,
            },
            None => {
                if self.reported() == count {
                    self.fail(make_missing_condition(keyword));
                }
                None
            },
        }
    }

    /// Reads an `if` statement behind its keyword, which `keyword` spans.
    pub(crate) fn parse_if(&mut self, keyword: Range<usize>) -> (r: Option<AstMeta>)
        requires
            old(self).wf(),
            keyword.start < keyword.end,
            keyword.end == old(self).position(),
        ensures
            final(self).steps(old(self)),
            match r {
                Some(node) => {
                    &&& if_statement(old(self).source(), keyword.start as int, old(self).position())
                        == Read::Done(node@, final(self).position())
                    &&& final(self).quiet(old(self))
                    &&& node@.start == keyword.start
                    &&& node@.end <= final(self).position()
                    &&& spans_within(node@, old(self).source().len() as int)
                    &&& old(self).position() < final(self).position()
                },
                None => match if_statement(
                    old(self).source(),
                    keyword.start as int,
                    old(self).position(),
                ) {
                    Read::Fault(faults) => final(self).reports(old(self), faults),
                    _ => false,
                },
            },
        decreases old(self).source().len() - old(self).position(), 6int,
    {
        let ghost len = self.source().len() as int;
        let start = keyword.start;
        let (expr, block) = match self.parse_conditional(keyword) {
            Some(c) => c,
            None => {
                return None;
            },
        };
        let block_end = self.lexer.end;
        let list = match self.parse_branches() {
            Some(b) => b,
            None => {
                return None;
            },
        };
        let end = if list.len() == 0 {
            block_end
        } else {
            list[list.len() - 1].range.end
        };
        proof {
            lemma_list_views(&block);
            lemma_list_views(&list);
            assert(list@.len() > 0 ==> views(list@).last() == list@[list@.len() - 1]@);
        }
        let node = AstMeta::new(start..end, Ast::IfStmnt { expr: Box::new(expr), block, branches: list });
        proof {
            lemma_children(node@, len);
        }
        Some(node)
    }

    /// Reads a `while` statement behind its keyword, which `keyword` spans.
    pub(crate) fn parse_while(&mut self, keyword: Range<usize>) -> (r: Option<AstMeta>)
        requires
            old(self).wf(),
            keyword.start < keyword.end,
            keyword.end == old(self).position(),
        ensures
            final(self).steps(old(self)),
            match r {
                Some(node) => {
                    &&& while_statement(old(self).source(), keyword.start as int, old(self).position())
                        == Read::Done(node@, final(self).position())
                    &&& final(self).quiet(old(self))
                    &&& node@.start == keyword.start
                    &&& node@.end <= final(self).position()
                    &&& spans_within(node@, old(self).source().len() as int)
                    &&& old(self).position() < final(self).position()
                },
                None => match while_statement(
                    old(self).source(),
                    keyword.start as int,
                    old(self).position(),
                ) {
                    Read::Fault(faults) => final(self).reports(old(self), faults),
                    _ => false,
                },
            },
        decreases old(self).source().len() - old(self).position(), 6int,
    {
        let ghost len = self.source().len() as int;
        let start = keyword.start;
        let (expr, block) = match self.parse_conditional(keyword) {
            Some(c) => c,
            None => {
                return None;
            },
        };
        let end = self.lexer.end;
        proof {
            lemma_list_views(&block);
        }
        let node = AstMeta::new(start..end, Ast::WhileStmnt { expr: Box::new(expr), block });
        proof {
            lemma_children(node@, len);
        }
        Some(node)
    }

    /// Reads one branch of an `if` statement behind its `else`, which `else_span` spans:
    /// `if` with a condition and a block, or a block. Tells whether further branches may
    /// follow.
    pub(crate) fn parse_branch(&mut self, else_span: Range<usize>) -> (r: Option<(AstMeta, bool)>)
        requires
            old(self).wf(),
            else_span.start < else_span.end,
            else_span.end == old(self).position(),
        ensures
            final(self).steps(old(self)),
            match r {
                Some((node, more)) => {
                    &&& branch(old(self).source(), else_span.start as int, old(self).position())
                        == Read::Done((node@, more), final(self).position())
                    &&& final(self).quiet(old(self))
                    &&& spans_within(node@, old(self).source().len() as int)
                    &&& node@.start == else_span.start
                    &&& node@.end == final(self).position()
                    &&& old(self).position() < final(self).position()
                },
                None => match branch(old(self).source(), else_span.start as int, old(self).position()) {
                    Read::Fault(faults) => final(self).reports(old(self), faults),
                    _ => false,
                },
            },
        decreases old(self).source().len() - old(self).position(), 6int,
    {
        let ghost len = self.source().len() as int;
        match self.peek_token() {
            Some(Token::IfKeyword) => {
                let keyword = self.bump();
                match self.parse_conditional(keyword) {
                    Some((expr, block)) => {
                        let end = self.lexer.end;
                        let nested: Vec<AstMeta> = Vec::new();
                        proof {
                            lemma_list_views(&block);
                            lemma_list_views(&nested);
                            assert(views(nested@) =~= seq![]);
                        }
                        let node = AstMeta::new(
                            else_span.start..end,
                            Ast::IfStmnt { expr: Box::new(expr), block, branches: nested },
                        );
                        proof {
                            lemma_children(node@, len);
                        }
                        Some((node, true))
                    },
                    None => None,
                }
            },
            Some(Token::LCurly) => {
                self.bump();
                match self.parse_block() {
                    Some(statements) => {
                        let end = self.lexer.end;
                        proof {
                            lemma_list_views(&statements);
                        }
                        let node = AstMeta::new(else_span.start..end, Ast::Block(statements));
                        proof {
                            lemma_children(node@, len);
                        }
                        Some((node, false))
                    },
                    None => None,
                }
            },
            _ => {
                self.fail(make_dangling_else(else_span));
                None
            },
        }
    }

    /// Reads the branches of an `if` statement, behind its block.
    pub(crate) fn parse_branches(&mut self) -> (r: Option<Vec<AstMeta>>)
        requires
            old(self).wf(),
        ensures
            final(self).steps(old(self)),
            match r {
                Some(found) => {
                    &&& branches(old(self).source(), old(self).position(), seq![]) == Read::Done(
                        views(found@),
                        final(self).position(),
                    )
                    &&& final(self).read_all(old(self), views(found@))
                },
                None => match branches(old(self).source(), old(self).position(), seq![]) {
                    Read::Fault(faults) => final(self).reports(old(self), faults),
                    _ => false,
                },
            },
        decreases old(self).source().len() - old(self).position(), 7int,
    {
        let ghost s = self.source();
        let ghost p = self.position();
        let mut found: Vec<AstMeta> = Vec::new();
        assert(views(found@) =~= seq![]);
        proof {
            self.context.lemma_extends_same(&old(self).context, s.len() as int);
        }
        loop
            invariant
                self.steps(old(self)),
                s == self.source(),
                p == old(self).position(),
                self.read_all(old(self), views(found@)),
                branches(s, p, seq![]) == branches(s, self.position(), views(found@)),
            decreases s.len() - self.position(),
        {
            match self.peek_token() {
                Some(Token::ElseKeyword) => {
                    let else_span = self.bump();
                    match self.parse_branch(else_span) {
                        Some((node, more)) => {
                            proof {
                                lemma_all_within_push(views(found@), node@, s.len() as int);
                            }
                            let ghost previous = views(found@);
                            found.push(node);
                            assert(views(found@) =~= previous.push(node@));
                            if !more {
                                return Some(found);
                            }
                        },
                        None => {
                            return None;
                        },
                    }
                },
                _ => {
                    return Some(found);
                },
            }
        }
    }

    /// The texts of the documentation comments that follow the position `from`.
    pub(crate) fn collect_docs(&self, from: usize) -> (r: Vec<String>)
        requires
            self.wf(),
            from <= self.source().len(),
        ensures
            Seq::new(r@.len(), |i: int| r@[i]@) == docs_at(self.source(), from as int),
    {
        let ghost s = self.source();
        let bytes = self.lexer.input.as_bytes();
        let mut texts: Vec<String> = Vec::new();
        let mut at: usize = from;
        let ghost mut passed: Seq<(int, int)> = seq![];
        proof {
            assert(passed + doc_spans(s, at as int) =~= doc_spans(s, from as int));
            assert(Seq::new(texts@.len(), |i: int| texts@[i]@) =~= doc_texts(s, passed));
        }
        loop
            invariant
                s == self.source(),
                bytes@ == s,
                from <= at <= s.len(),
                doc_spans(s, from as int) == passed + doc_spans(s, at as int),
                Seq::new(texts@.len(), |i: int| texts@[i]@) == doc_texts(s, passed),
            decreases s.len() - at,
        {
            proof {
                lemma_next_token_bounds(s, at as int);
            }
            match find_token(bytes, at) {
                Some((Token::DocComment, a, b)) => {
                    let text = comment_text(self.lexer.input, a, b);
                    let ghost before = Seq::new(texts@.len(), |i: int| texts@[i]@);
                    texts.push(text);
                    proof {
                        let item = (a as int, b as int);
                        let next = passed.push(item);
                        assert(doc_spans(s, at as int) =~= seq![item] + doc_spans(s, b as int));
                        assert(passed + doc_spans(s, at as int) =~= next + doc_spans(s, b as int));
                        assert(doc_texts(s, next) =~= doc_texts(s, passed).push(doc_text(s, item.0, item.1)));
                        assert(Seq::new(texts@.len(), |i: int| texts@[i]@) =~= before.push(text@));
                        passed = next;
                    }
                    at = b;
                },
                _ => {
                    proof {
                        assert(doc_spans(s, at as int) =~= seq![]);
                        assert(passed + doc_spans(s, at as int) =~= passed);
                    }
                    return texts;
                },
            }
        }
    }

    /// Reads a statement: an expression and the semicolon behind it, if there is one, and
    /// attaches the documentation comments that follow the position `docs`. A token has
    /// to lie ahead.
    pub(crate) fn parse_statement(&mut self, docs: usize) -> (r: Option<AstMeta>)
        requires
            old(self).wf(),
            look(old(self).source(), old(self).position()).token.is_some(),
            docs <= old(self).source().len(),
        ensures
            final(self).gives(
                old(self),
                r,
                statement(old(self).source(), old(self).position(), docs as int),
            ),
        decreases old(self).source().len() - old(self).position(), 5int,
    {
        let ghost len = self.source().len() as int;
        match self.parse_binary(0) {
            Some(node) => {
                let mut node = node;
                match self.peek_token() {
                    Some(Token::Semicolon) => {
                        self.bump();
                        node.semicolon();
                    },
                    _ => {},
                }
                node.comments = self.collect_docs(docs);
                proof {
                    reveal_with_fuel(children_within, 1);
                }
                Some(node)
            },
            None => None,
        }
    }

    /// Reads the rest of a block, behind its `{`, up to its `}`.
    pub(crate) fn parse_block(&mut self) -> (r: Option<Vec<AstMeta>>)
        requires
            old(self).wf(),
        ensures
            final(self).gives_all(
                old(self),
                r,
                block(old(self).source(), old(self).position(), seq![], old(self).position()),
            ),
        decreases old(self).source().len() - old(self).position(), 6int,
    {
        let ghost s = self.source();
        let ghost p = self.position();
        let mut found: Vec<AstMeta> = Vec::new();
        let mut docs: usize = self.lexer.end;
        assert(views(found@) =~= seq![]);
        proof {
            self.context.lemma_extends_same(&old(self).context, s.len() as int);
        }
        loop
            invariant
                self.steps(old(self)),
                s == self.source(),
                p == old(self).position(),
                docs <= s.len(),
                self.read_all(old(self), views(found@)),
                block(s, p, seq![], p) == block(s, self.position(), views(found@), docs as int),
            decreases s.len() - self.position(),
        {
            proof {
                lemma_skip_docs_settled(s, self.position());
            }
            match self.peek_token() {
                None => {
                    let end = self.lexer.input.as_bytes().len();
                    self.fail(make_unclosed_block(end..end));
                    return None;
                },
                Some(Token::RCurly) => {
                    self.bump();
                    return Some(found);
                },
                Some(Token::Semicolon) => {
                    self.bump();
                    docs = self.lexer.end;
                },
                Some(_) => match self.parse_statement(docs) {
                    Some(node) => {
                        proof {
                            lemma_all_within_push(views(found@), node@, s.len() as int);
                        }
                        docs = if node.semicolon {
                            self.lexer.end
                        } else {
                            node.range.end
                        };
                        let ghost previous = views(found@);
                        found.push(node);
                        assert(views(found@) =~= previous.push(node@));
                    },
                    None => {
                        return None;
                    },
                },
            }
        }
    }

    /// Reads all statements of the source.
    ///
    /// Where the grammar reads the source from the position of the parser to its end, and
    /// the parser was successful before, the result is the list of the trees, with every
    /// span within the source, and nothing is reported. Where the grammar finds a fault,
    /// the result is `None`, the diagnostics of the fault are reported, at least one, and
    /// the parser is unsuccessful. A parser that was unsuccessful before gives `None`.
    pub fn parse(&mut self) -> (r: Option<Vec<AstMeta>>)
        requires
            old(self).wf(),
        ensures
            final(self).steps(old(self)),
            match program(old(self).source(), old(self).position(), seq![], old(self).position()) {
                Read::Done(nodes, end) => {
                    &&& final(self).quiet(old(self))
                    &&& final(self).position() == end
                    &&& match r {
                        Some(found) => old(self).successful && views(found@) == nodes
                            && final(self).read_all(old(self), nodes),
                        None => !old(self).successful,
                    }
                },
                Read::Fault(faults) => r.is_none() && final(self).reports(old(self), faults),
                _ => false,
            },
    {
        let ghost s = self.source();
        let ghost p = self.position();
        let mut found: Vec<AstMeta> = Vec::new();
        let mut docs: usize = self.lexer.end;
        assert(views(found@) =~= seq![]);
        proof {
            self.context.lemma_extends_same(&old(self).context, s.len() as int);
        }
        loop
            invariant
                self.steps(old(self)),
                s == self.source(),
                p == old(self).position(),
                docs <= s.len(),
                self.read_all(old(self), views(found@)),
                program(s, p, seq![], p) == program(s, self.position(), views(found@), docs as int),
            decreases s.len() - self.position(),
        {
            proof {
                lemma_skip_docs_settled(s, self.position());
            }
            match self.peek_token() {
                None => {
                    if self.successful {
                        return Some(found);
                    } else {
                        return None;
                    }
                },
                Some(Token::Semicolon) => {
                    self.bump();
                    docs = self.lexer.end;
                },
                Some(_) => match self.parse_statement(docs) {
                    Some(node) => {
                        proof {
                            lemma_all_within_push(views(found@), node@, s.len() as int);
                        }
                        docs = if node.semicolon {
                            self.lexer.end
                        } else {
                            node.range.end
                        };
                        let ghost previous = views(found@);
                        found.push(node);
                        assert(views(found@) =~= previous.push(node@));
                    },
                    None => {
                        return None;
                    },
                },
            }
        }
    }
}

} // verus!
