//! The parsing functions of expressions. Each reads what the function of the same purpose
//! in the grammar describes, from the position at which the lexer stands.

use std::ops::Range;
use vstd::prelude::*;
use vstd::string::*;

use super::grammar::{
    array, continued, expression, group, lemma_skip_docs_settled, list, literal, literal_fault,
    look, operand, primary, step, subscript, Read, Step,
};
use super::report::{
    make_end_of_file, make_invalid_character, make_missing_operand, make_number_too_large,
    make_unclosed_list, make_unclosed_string, make_unclosed_subscript, make_value_expected,
};
use super::tokens::has_float_mark;
use super::Parser;
use crate::ast::{
    children_within, lemma_all_within_push, lemma_children, lemma_list_views, spans_within, views,
    Ast, AstMeta, MetaView, Opcode,
};
use crate::diagnostic::Context;
use crate::lexer::token::Token;
use crate::text::{parse_decimal, slice_text};

verus! {

broadcast use Context::lemma_extends_twice;

/// What one operator behind an operand has made of it.
pub enum Continuation {
    /// No operator follows that binds tightly enough; the operand is handed back.
    Stop(AstMeta),
    /// The operator and what belongs to it form a new operand.
    More(AstMeta),
    /// The source does not fit the grammar; the diagnostics are reported.
    Fail,
}

impl<'a> Parser<'a> {
    /// Reads the rest of a list, behind its opening bracket, up to the token `close`.
    pub(crate) fn parse_list(&mut self, close: Token) -> (r: Option<Vec<AstMeta>>)
        requires
            old(self).wf(),
        ensures
            final(self).gives_all(
                old(self),
                r,
                list(old(self).source(), old(self).position(), close, seq![], false),
            ),
        decreases old(self).source().len() - old(self).position(), 5int,
    {
        let ghost s = self.source();
        let ghost p = self.position();
        let mut items: Vec<AstMeta> = Vec::new();
        let mut comma = false;
        assert(views(items@) =~= seq![]);
        proof {
            self.context.lemma_extends_same(&old(self).context, s.len() as int);
        }
        loop
            invariant
                self.steps(old(self)),
                s == self.source(),
                p == old(self).position(),
                self.read_all(old(self), views(items@)),
                list(s, p, close, seq![], false) == list(s, self.position(), close, views(items@), comma),
            decreases s.len() - self.position(),
        {
            proof {
                lemma_skip_docs_settled(s, self.position());
            }
            match self.peek_token() {
                None => {
                    let end = self.lexer.input.as_bytes().len();
                    let name = match close.as_name() {
                        Some(n) => n,
                        None => String::from_str("bracket"),
                    };
                    self.fail(make_unclosed_list(name.as_str(), end..end));
                    return None;
                },
                Some(tok) => {
                    if tok == close {
                        self.bump();
                        return Some(items);
                    } else if comma {
                        match self.expect_token(Token::Comma) {
                            Some(_) => {
                                comma = false;
                            },
                            None => {
                                return None;
                            },
                        }
                    } else {
                        match self.parse_binary(0) {
                            Some(item) => {
                                proof {
                                    lemma_all_within_push(views(items@), item@, s.len() as int);
                                }
                                let ghost previous = views(items@);
                                items.push(item);
                                assert(views(items@) =~= previous.push(item@));
                                comma = true;
                            },
                            None => {
                                return None;
                            },
                        }
                    }
                },
            }
        }
    }

    /// Reads the item of a literal token that was just consumed. A token that is no literal
    /// is reported, and so is an integer that does not fit 64 bits.
    pub(crate) fn parse_literal(&mut self, tok: Token, span: Range<usize>) -> (r: Option<AstMeta>)
        requires
            old(self).wf(),
            span.start < span.end <= old(self).source().len(),
            span.start == old(self).lexer.span_start(),
            span.end == old(self).position(),
            tok != Token::IfKeyword && tok != Token::WhileKeyword && tok != Token::LBrack && tok
                != Token::LParen,
        ensures
            final(self).steps(old(self)),
            final(self).lexer == old(self).lexer,
            match r {
                Some(node) => {
                    &&& literal(old(self).source(), tok, span.start as int, span.end as int) == Some(
                        node@.item,
                    )
                    &&& node@ == MetaView::plain(span.start as int, span.end as int, node@.item)
                    &&& spans_within(node@, old(self).source().len() as int)
                    &&& final(self).quiet(old(self))
                },
                None => {
                    &&& literal(old(self).source(), tok, span.start as int, span.end as int).is_none()
                    &&& final(self).reports(
                        old(self),
                        seq![literal_fault(old(self).source(), tok, span.start as int, span.end as int)],
                    )
                },
            },
    {
        let ghost len = self.source().len() as int;
        proof {
            self.context.lemma_extends_same(&old(self).context, len);
        }
        let start = span.start;
        let end = span.end;
        let item = match tok {
            Token::Identifier => Ast::IdentifierLiteral(String::from_str(self.lexer.slice())),
            Token::TrueKeyword => Ast::BooleanLiteral(true),
            Token::FalseKeyword => Ast::BooleanLiteral(false),
            Token::String => Ast::StringLiteral(
                String::from_str(slice_text(self.lexer.input, start + 1, end - 1)),
            ),
            Token::Number => {
                let bytes = self.lexer.input.as_bytes();
                if has_float_mark(bytes, start, end) {
                    Ast::FloatLiteral(String::from_str(self.lexer.slice()))
                } else {
                    match parse_decimal(bytes, start, end) {
                        Some(value) => Ast::IntegerLiteral(value),
                        None => {
                            self.fail(make_number_too_large(span));
                            return None;
                        },
                    }
                }
            },
            Token::InvalidString => {
                self.fail(make_unclosed_string(span));
                return None;
            },
            Token::Invalid => {
                let text = self.lexer.slice();
                self.fail(make_invalid_character(None, text, span));
                return None;
            },
            _ => {
                let text = self.lexer.slice();
                self.fail(make_value_expected(text, span));
                return None;
            },
        };
        let node = AstMeta::new(start..end, item);
        proof {
            lemma_children(node@, len);
        }
        Some(node)
    }

    /// Reads an array literal behind its `[`, which starts at `start`.
    pub(crate) fn parse_array(&mut self, start: usize) -> (r: Option<AstMeta>)
        requires
            old(self).wf(),
            start <= old(self).position(),
        ensures
            final(self).steps(old(self)),
            match r {
                Some(node) => {
                    &&& array(old(self).source(), start as int, old(self).position()) == Read::Done(
                        node@,
                        final(self).position(),
                    )
                    &&& final(self).quiet(old(self))
                    &&& node@.start == start
                    &&& node@.end <= final(self).position()
                    &&& spans_within(node@, old(self).source().len() as int)
                    &&& old(self).position() < final(self).position()
                },
                None => match array(old(self).source(), start as int, old(self).position()) {
                    Read::Fault(faults) => final(self).reports(old(self), faults),
                    _ => false,
                },
            },
        decreases old(self).source().len() - old(self).position(), 6int,
    {
        let ghost len = self.source().len() as int;
        match self.parse_list(Token::RBrack) {
            Some(items) => {
                let end = self.lexer.end;
                proof {
                    lemma_list_views(&items);
                }
                let node = AstMeta::new(start..end, Ast::ArrayLiteral(items));
                proof {
                    lemma_children(node@, len);
                }
                Some(node)
            },
            None => None,
        }
    }

    /// Reads an expression in parentheses behind its `(`, which starts at `start`.
    pub(crate) fn parse_group(&mut self, start: usize) -> (r: Option<AstMeta>)
        requires
            old(self).wf(),
            start <= old(self).position(),
        ensures
            final(self).steps(old(self)),
            match r {
                Some(node) => {
                    &&& group(old(self).source(), start as int, old(self).position()) == Read::Done(
                        node@,
                        final(self).position(),
                    )
                    &&& final(self).quiet(old(self))
                    &&& node@.start == start
                    &&& node@.end <= final(self).position()
                    &&& spans_within(node@, old(self).source().len() as int)
                    &&& old(self).position() < final(self).position()
                },
                None => match group(old(self).source(), start as int, old(self).position()) {
                    Read::Fault(faults) => final(self).reports(old(self), faults),
                    _ => false,
                },
            },
        decreases old(self).source().len() - old(self).position(), 6int,
    {
        let ghost len = self.source().len() as int;
        let count = self.reported();
        match self.parse_binary(0) {
            Some(inner) => match self.expect_token(Token::RParen) {
                Some(close) => {
                    let node = AstMeta {
                        range: start..close.end,
                        semicolon: inner.semicolon,
                        comments: inner.comments,
                        item: inner.item,
                        parenthesis: true,
                    };
                    proof {
                        reveal_with_fuel(children_within, 1);
                        assert(spans_within(inner@, len));
                        assert(spans_within(node@, len));
                    }
                    Some(node)
                },
                None => None,
            },
            None => {
                if self.reported() == count {
                    let at = self.lexer.input.as_bytes().len();
                    self.fail(make_end_of_file(Token::RParen, at));
                }
                None
            },
        }
    }

    /// Reads an operand without operators before it: a literal, an array, an expression in
    /// parentheses, an `if` or a `while`. At the end of the source there is none, and
    /// nothing is reported.
    pub(crate) fn parse_primary(&mut self) -> (r: Option<AstMeta>)
        requires
            old(self).wf(),
        ensures
            final(self).gives_quietly(old(self), r, primary(old(self).source(), old(self).position())),
        decreases old(self).source().len() - old(self).position(), 2int,
    {
        let tok = match self.peek_token() {
            Some(t) => t,
            None => {
                return None;
            },
        };
        let span = self.bump();
        match tok {
            Token::IfKeyword => self.parse_if(span),
            Token::WhileKeyword => self.parse_while(span),
            Token::LBrack => self.parse_array(span.start),
            Token::LParen => self.parse_group(span.start),
            _ => self.parse_literal(tok, span),
        }
    }

    /// Reads an operand with the operators before it.
    pub(crate) fn parse_operand(&mut self) -> (r: Option<AstMeta>)
        requires
            old(self).wf(),
        ensures
            final(self).gives_quietly(old(self), r, operand(old(self).source(), old(self).position())),
        decreases old(self).source().len() - old(self).position(), 3int,
    {
        let ghost s = self.source();
        let ghost p = self.position();
        let ghost len = s.len() as int;
        proof {
            lemma_skip_docs_settled(s, p);
        }
        let tok = match self.peek_token() {
            Some(t) => t,
            None => {
                return None;
            },
        };
        let prefix = match Opcode::from_token(tok) {
            Some(op) => match op.prefix_precedence() {
                Some(power) => Some((op, power)),
                None => None,
            },
            None => None,
        };
        match prefix {
            Some((op, power)) => {
                let span = self.bump();
                let operator = String::from_str(self.lexer.slice());
                let count = self.reported();
                match self.parse_binary(power) {
                    Some(inner) => {
                        let end = inner.range.end;
                        let node = AstMeta::new(span.start..end, Ast::UnaryExpr(op, Box::new(inner)));
                        proof {
                            lemma_children(node@, len);
                        }
                        Some(node)
                    },
                    None => {
                        if self.reported() == count {
                            self.fail(make_missing_operand(operator.as_str(), span));
                        }
                        None
                    },
                }
            },
            None => self.parse_primary(),
        }
    }

    /// Reads the operator ahead, if it binds with at least the power `min`, and what
    /// belongs to it, and forms a new operand of it and of `left`.
    pub(crate) fn parse_step(&mut self, left: AstMeta, min: usize) -> (r: Continuation)
        requires
            old(self).wf(),
            spans_within(left@, old(self).source().len() as int),
            left@.end <= old(self).position(),
        ensures
            final(self).steps(old(self)),
            match r {
                Continuation::Stop(same) => {
                    &&& step(old(self).source(), left@, old(self).position(), min as int) == Step::Stop
                    &&& same == left
                    &&& final(self).position() == look(old(self).source(), old(self).position()).at
                    &&& final(self).quiet(old(self))
                },
                Continuation::More(node) => {
                    &&& step(old(self).source(), left@, old(self).position(), min as int) == Step::More(
                        node@,
                        final(self).position(),
                    )
                    &&& node@.start == left@.start
                    &&& node@.end <= final(self).position()
                    &&& spans_within(node@, old(self).source().len() as int)
                    &&& old(self).position() < final(self).position()
                    &&& final(self).quiet(old(self))
                },
                Continuation::Fail => match step(
                    old(self).source(),
                    left@,
                    old(self).position(),
                    min as int,
                ) {
                    Step::Fault(faults) => final(self).reports(old(self), faults),
                    _ => false,
                },
            },
        decreases old(self).source().len() - old(self).position(), 0int,
    {
        let ghost s = self.source();
        let ghost p = self.position();
        let ghost len = s.len() as int;
        let tok = match self.peek_token() {
            Some(t) => t,
            None => {
                return Continuation::Stop(left);
            },
        };
        let op = match Opcode::from_token(tok) {
            Some(op) => op,
            None => {
                return Continuation::Stop(left);
            },
        };
        match op.postfix_precedence() {
            Some(power) => {
                if power < min {
                    return Continuation::Stop(left);
                }
                let open = self.bump();
                if op == Opcode::Subscript {
                    match self.parse_subscript(left, open) {
                        Some(node) => Continuation::More(node),
                        None => Continuation::Fail,
                    }
                } else {
                    match self.parse_list(Token::RParen) {
                        Some(arguments) => {
                            let start = left.range.start;
                            let end = self.lexer.end;
                            proof {
                                lemma_list_views(&arguments);
                            }
                            let node = AstMeta::new(start..end, Ast::CallExpr(Box::new(left), arguments));
                            proof {
                                lemma_children(node@, len);
                            }
                            Continuation::More(node)
                        },
                        None => Continuation::Fail,
                    }
                }
            },
            None => match op.infix_precedence() {
                Some((lp, rp)) => {
                    if lp < min {
                        return Continuation::Stop(left);
                    }
                    let span = self.bump();
                    let operator = String::from_str(self.lexer.slice());
                    let count = self.reported();
                    match self.parse_binary(rp) {
                        Some(right) => {
                            let start = left.range.start;
                            let end = right.range.end;
                            let node = AstMeta::new(
                                start..end,
                                Ast::BinaryExpr(op, Box::new(left), Box::new(right)),
                            );
                            proof {
                                lemma_children(node@, len);
                            }
                            Continuation::More(node)
                        },
                        None => {
                            if self.reported() == count {
                                self.fail(make_missing_operand(operator.as_str(), span));
                            }
                            Continuation::Fail
                        },
                    }
                },
                None => Continuation::Stop(left),
            },
        }
    }

    /// Reads an expression whose operators all bind with at least the power `min`.
    ///
    /// Where the grammar reads an expression at the position of the parser, the result is
    /// its tree, the parser stands behind it, and nothing is reported. Where the grammar
    /// finds a fault, the result is `None`, the diagnostics of the fault are reported, and
    /// the parser is unsuccessful. Where the source has ended, the result is `None` and
    /// nothing is reported.
    pub fn parse_binary(&mut self, min: usize) -> (r: Option<AstMeta>)
        requires
            old(self).wf(),
        ensures
            final(self).gives_quietly(
                old(self),
                r,
                expression(old(self).source(), old(self).position(), min as int),
            ),
        decreases old(self).source().len() - old(self).position(), 4int,
    {
        let ghost s = self.source();
        let ghost p = self.position();
        let mut left: AstMeta = match self.parse_operand() {
            Some(node) => node,
            None => {
                return None;
            },
        };
        loop
            invariant
                self.steps(old(self)),
                s == self.source(),
                p == old(self).position(),
                self.read(old(self), left@),
                p < self.position(),
                expression(s, p, min as int) == continued(s, left@, self.position(), min as int),
            decreases s.len() - self.position(),
        {
            match self.parse_step(left, min) {
                Continuation::Stop(same) => {
                    return Some(same);
                },
                Continuation::More(node) => {
                    left = node;
                },
                Continuation::Fail => {
                    return None;
                },
            }
        }
    }

    /// Reads one expression: `parse_binary` without a bound on the binding powers.
    pub fn parse_expression(&mut self) -> (r: Option<AstMeta>)
        requires
            old(self).wf(),
        ensures
            final(self).gives_quietly(old(self), r, expression(old(self).source(), old(self).position(), 0)),
        decreases old(self).source().len() - old(self).position(), 5int,
    {
        self.parse_binary(0)
    }

    /// Reads the rest of an indexing of `left`, behind its `[`, which `open` spans.
    pub(crate) fn parse_subscript(&mut self, left: AstMeta, open: Range<usize>) -> (r: Option<AstMeta>)
        requires
            old(self).wf(),
            spans_within(left@, old(self).source().len() as int),
            left@.end <= old(self).position(),
            open.start < open.end,
            open.end == old(self).position(),
        ensures
            final(self).steps(old(self)),
            match r {
                Some(node) => {
                    &&& subscript(old(self).source(), left@, old(self).position(), open.start as int)
                        == Read::Done(node@, final(self).position())
                    &&& final(self).quiet(old(self))
                    &&& spans_within(node@, old(self).source().len() as int)
                    &&& node@.start == left@.start
                    &&& node@.end == final(self).position()
                    &&& old(self).position() < final(self).position()
                },
                None => match subscript(
                    old(self).source(),
                    left@,
                    old(self).position(),
                    open.start as int,
                ) {
                    Read::Fault(faults) => final(self).reports(old(self), faults),
                    _ => false,
                },
            },
        decreases old(self).source().len() - old(self).position(), 5int,
    {
        let ghost s = self.source();
        let ghost len = s.len() as int;
        let start = left.range.start;
        proof {
            lemma_skip_docs_settled(s, old(self).position());
        }
        match self.peek_token() {
            None => {
                self.fail(make_unclosed_subscript(open));
                None
            },
            Some(Token::RBrack) => {
                let close = self.bump();
                let node = AstMeta::new(start..close.end, Ast::SubscriptExpr(Box::new(left), None));
                proof {
                    lemma_children(node@, len);
                }
                Some(node)
            },
            Some(_) => {
                match self.parse_binary(0) {
                    Some(index) => match self.expect_token(Token::RBrack) {
                        Some(close) => {
                            let node = AstMeta::new(
                                start..close.end,
                                Ast::SubscriptExpr(Box::new(left), Some(Box::new(index))),
                            );
                            proof {
                                lemma_children(node@, len);
                            }
                            Some(node)
                        },
                        None => None,
                    },
                    None => None,
                }
            },
        }
    }
}

} // verus!
