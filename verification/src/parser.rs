//! The parser: from tokens to a syntax tree, with diagnostics for what does not fit.
//!
//! Expressions are read by precedence climbing, statements and blocks by recursive
//! descent. When the source does not fit the grammar the parser reports a diagnostic,
//! marks itself unsuccessful and gives up the phrase it was reading.
//!
//! Documentation comments may stand anywhere. Those that stand before a statement are
//! attached to the node of the statement; others are passed over.

pub mod eating;
pub mod grammar;
pub mod operands;
pub mod report;
pub mod statements;
pub mod tokens;

use std::ops::Range;
use vstd::prelude::*;
use vstd::string::*;

use crate::diagnostic::{Context, Diagnostic, DiagnosticView};
use crate::lexer::rules::{lemma_next_token_bounds, next_token};
use crate::lexer::token::Token;
use crate::lexer::Lexer;
use crate::text::text_of;
use grammar::{in_order, lemma_look_in_order, look, skip_docs};
use report::{
    invalid_character, misplaced_comment, unclosed_string, unexpected_string, unexpected_token,
    value_expected,
};

verus! {

broadcast use Context::lemma_extends_twice;

/// The position behind the slashes that open the documentation comment from `p` to `end`.
pub open spec fn slashes_end(s: Seq<u8>, p: int, end: int) -> int
    decreases end - p,
{
    if 0 <= p < end && p < s.len() && s[p] == 0x2f {
        slashes_end(s, p + 1, end)
    } else {
        p
    }
}

/// The text of the documentation comment from `start` to `end`: what follows its slashes
/// and one space behind them, if there is one.
pub open spec fn doc_text(s: Seq<u8>, start: int, end: int) -> Seq<char> {
    let k = slashes_end(s, start, end);
    if 0 <= k < end && k < s.len() && s[k] == 0x20 {
        text_of(s, k + 1, end)
    } else {
        text_of(s, k, end)
    }
}

/// The spans of the documentation comments that follow `p`, up to the first token that is
/// none.
pub open spec fn doc_spans(s: Seq<u8>, p: int) -> Seq<(int, int)>
    decreases s.len() - p,
{
    match next_token(s, p) {
        Some((Token::DocComment, a, b)) => if p < b <= s.len() {
            seq![(a, b)] + doc_spans(s, b)
        } else {
            seq![]
        },
        _ => seq![],
    }
}

/// The texts of the documentation comments that follow `p`.
pub open spec fn docs_at(s: Seq<u8>, p: int) -> Seq<Seq<char>> {
    doc_texts(s, doc_spans(s, p))
}

/// What `eat` passes on its way to the token `expect`: the documentation comments that it
/// passes over, and the token at which it stops, if the source does not end first.
pub open spec fn eaten(s: Seq<u8>, p: int, expect: Token) -> (Seq<(int, int)>, Option<(Token, int, int)>)
    decreases s.len() - p,
{
    match next_token(s, p) {
        None => (seq![], None),
        Some((t, a, b)) => if t != expect && t == Token::DocComment && p < b <= s.len() {
            let rest = eaten(s, b, expect);
            (seq![(a, b)] + rest.0, rest.1)
        } else {
            (seq![], Some((t, a, b)))
        },
    }
}

/// The texts of the documentation comments at the given spans.
pub open spec fn doc_texts(s: Seq<u8>, spans: Seq<(int, int)>) -> Seq<Seq<char>> {
    Seq::new(spans.len(), |i: int| doc_text(s, spans[i].0, spans[i].1))
}

/// The diagnostics for documentation comments at the given spans where none may stand;
/// none where they may.
pub open spec fn doc_errors(spans: Seq<(int, int)>, allowed: bool) -> Seq<DiagnosticView> {
    if allowed {
        seq![]
    } else {
        Seq::new(spans.len(), |i: int| misplaced_comment(spans[i].0, spans[i].1))
    }
}

/// The diagnostics for a token that stands where `expect` was expected.
pub open spec fn offence(s: Seq<u8>, expect: Token, tok: Token, start: int, end: int) -> Seq<
    DiagnosticView,
> {
    match tok {
        Token::InvalidString => if expect != Token::String {
            seq![unclosed_string(start, end), unexpected_string(expect, start, end)]
        } else {
            seq![unclosed_string(start, end)]
        },
        Token::Invalid => seq![invalid_character(Some(expect), text_of(s, start, end), start, end)],
        _ => seq![unexpected_token(expect, text_of(s, start, end), start, end)],
    }
}

/// The diagnostic for a token that stands where a value was expected.
pub open spec fn value_offence(s: Seq<u8>, tok: Token, start: int, end: int) -> DiagnosticView {
    match tok {
        Token::InvalidString => unclosed_string(start, end),
        Token::Invalid => invalid_character(None, text_of(s, start, end), start, end),
        _ => value_expected(text_of(s, start, end), start, end),
    }
}

/// A parser over the source of a reporter.
pub struct Parser<'a> {
    /// The reporter that takes the parser's diagnostics.
    pub context: Context<'a>,
    /// The documentation comments that `eat` and `eat_optional` have passed over.
    pub comments: Vec<String>,
    /// Whether no diagnostic has been reported yet.
    pub successful: bool,
    /// The lexer.
    pub lexer: Lexer<'a>,
}

impl<'a> Parser<'a> {
    /// The bytes of the source.
    pub open spec fn source(&self) -> Seq<u8> {
        self.lexer.bytes()
    }

    /// The position in the source up to which it has been read.
    pub open spec fn position(&self) -> int {
        self.lexer.cursor()
    }

    /// The values of the diagnostics reported so far.
    pub open spec fn gathered(&self) -> Seq<DiagnosticView> {
        self.context.gathered()
    }

    /// The texts of the comments gathered so far.
    pub open spec fn comment_texts(&self) -> Seq<Seq<char>> {
        Seq::new(self.comments@.len(), |i: int| self.comments@[i]@)
    }

    /// The lexer reads the source of the reporter and lies within it.
    pub open spec fn wf(&self) -> bool {
        self.lexer.wf() && self.lexer.input == self.context.source
    }

    /// The parser has moved on from the state `before`: over the same source and forward
    /// only. What was reported stays in place, what is new points into the source, and the
    /// parser is successful exactly as long as nothing is reported.
    pub open spec fn follows(&self, before: &Self) -> bool {
        &&& self.wf()
        &&& self.lexer.input == before.lexer.input
        &&& before.position() <= self.position()
        &&& self.context.extends(&before.context, self.source().len() as int)
        &&& before.gathered().len() <= self.gathered().len()
        &&& self.successful ==> before.successful && self.gathered() == before.gathered()
        &&& !self.successful && before.successful ==> self.gathered().len() > before.gathered().len()
    }

    /// The parser has moved on from the state `before`, and holds the comments that it held
    /// then.
    pub open spec fn steps(&self, before: &Self) -> bool {
        self.follows(before) && self.comments == before.comments
    }

    /// A parser at the start of the source of `context`.
    pub fn new(context: Context<'a>) -> (r: Self)
        ensures
            r.wf(),
            r.context == context,
            r.successful,
            r.position() == 0,
            r.comments@.len() == 0,
    {
        let lexer = Lexer::new(context.source);
        Parser { context, comments: Vec::new(), successful: true, lexer }
    }

    /// Reports `diagnostic` and marks the parser unsuccessful.
    pub(crate) fn fail(&mut self, diagnostic: Diagnostic)
        requires
            old(self).wf(),
            diagnostic@.within(old(self).source().len() as int),
        ensures
            final(self).steps(old(self)),
            final(self).gathered() == old(self).gathered().push(diagnostic@),
            final(self).gathered() == old(self).gathered() + seq![diagnostic@],
            !final(self).successful,
            final(self).lexer == old(self).lexer,
    {
        self.context.push(diagnostic);
        self.successful = false;
        assert(self.context.extends(&old(self).context, self.source().len() as int));
        assert(old(self).gathered().push(diagnostic@) =~= old(self).gathered() + seq![diagnostic@]);
    }

    /// Passes over the documentation comments ahead and tells which token follows them.
    pub fn peek_token(&mut self) -> (r: Option<Token>)
        requires
            old(self).wf(),
        ensures
            final(self).steps(old(self)),
            final(self).successful == old(self).successful,
            final(self).gathered() == old(self).gathered(),
            final(self).position() == look(old(self).source(), old(self).position()).at,
            in_order(old(self).source(), old(self).position(), look(old(self).source(), old(self).position())),
            next_token(old(self).source(), final(self).position()) == look(
                old(self).source(),
                old(self).position(),
            ).token,
            r == match look(old(self).source(), old(self).position()).token {
                Some(t) => Some(t.0),
                None => None,
            },
    {
        proof {
            lemma_look_in_order(self.source(), self.position());
            self.context.lemma_extends_same(&old(self).context, self.source().len() as int);
        }
        let mut found: Option<Token> = None;
        loop
            invariant
                self.steps(old(self)),
                self.successful == old(self).successful,
                self.gathered() == old(self).gathered(),
                skip_docs(self.source(), self.position()) == skip_docs(
                    old(self).source(),
                    old(self).position(),
                ),
            ensures
                self.steps(old(self)),
                self.successful == old(self).successful,
                self.gathered() == old(self).gathered(),
                self.position() == skip_docs(old(self).source(), old(self).position()),
                found == match next_token(self.source(), self.position()) {
                    Some(t) => Some(t.0),
                    None => None,
                },
            decreases self.source().len() - self.position(),
        {
            proof {
                lemma_next_token_bounds(self.source(), self.position());
            }
            match self.lexer.peek() {
                Some(Token::DocComment) => {
                    self.lexer.next();
                },
                other => {
                    found = other;
                    break ;
                },
            }
        }
        found
    }

    /// Consumes the token that `peek_token` has announced and gives its span.
    pub(crate) fn bump(&mut self) -> (r: Range<usize>)
        requires
            old(self).wf(),
            next_token(old(self).source(), old(self).position()).is_some(),
        ensures
            final(self).steps(old(self)),
            final(self).successful == old(self).successful,
            final(self).gathered() == old(self).gathered(),
            r.start == next_token(old(self).source(), old(self).position()).unwrap().1,
            r.end == next_token(old(self).source(), old(self).position()).unwrap().2,
            final(self).position() == r.end,
            final(self).lexer.span_start() == r.start,
            old(self).position() <= r.start < r.end <= old(self).source().len(),
    {
        proof {
            lemma_next_token_bounds(self.source(), self.position());
            self.context.lemma_extends_same(&old(self).context, self.source().len() as int);
        }
        self.lexer.next();
        self.lexer.span()
    }
}

} // verus!
