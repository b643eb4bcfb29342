//! Consuming one expected token, with the documentation comments before it.

use vstd::prelude::*;
use vstd::string::*;

use super::report::{end_of_file, make_end_of_file, make_misplaced_comment};
use super::{doc_errors, doc_text, doc_texts, eaten, offence, slashes_end, Parser};
use crate::diagnostic::{Context, DiagnosticView};
use crate::lexer::rules::lemma_next_token_bounds;
use crate::lexer::token::Token;
use crate::text::slice_text;

verus! {

broadcast use Context::lemma_extends_twice;

/// The text of the documentation comment between `start` and `end`.
pub fn comment_text(source: &str, start: usize, end: usize) -> (r: String)
    requires
        start <= end <= source.spec_bytes().len(),
    ensures
        r@ == doc_text(source.spec_bytes(), start as int, end as int),
{
    let bytes = source.as_bytes();
    let mut k: usize = start;
    while k < end && bytes[k] == 0x2f
        invariant
            start <= k <= end <= bytes@.len(),
            slashes_end(bytes@, start as int, end as int) == slashes_end(bytes@, k as int, end as int),
        decreases end - k,
    {
        k = k + 1;
    }
    if k < end && bytes[k] == 0x20 {
        String::from_str(slice_text(source, k + 1, end))
    } else {
        String::from_str(slice_text(source, k, end))
    }
}

/// What `eat` and `eat_optional` report for the token at which they stop.
pub open spec fn eat_errors(s: Seq<u8>, expect: Token, stop: Option<(Token, int, int)>) -> Seq<
    DiagnosticView,
> {
    match stop {
        Some((t, a, b)) => if t == expect {
            seq![]
        } else {
            offence(s, expect, t, a, b)
        },
        None => seq![end_of_file(expect, s.len() as int)],
    }
}

/// Whether `eat_optional` consumes the token at which it stops: the expected token, and a
/// token that is invalid in itself.
pub open spec fn taken(expect: Token, t: Token) -> bool {
    t == expect || t == Token::InvalidString || t == Token::Invalid
}

impl<'a> Parser<'a> {
    /// Consumes the next token, which has to be `expect`, and tells whether it was.
    ///
    /// Documentation comments before the token are passed over and gathered among the
    /// comments of the parser; where `doc` is false each of them is reported. A token
    /// other than `expect` is consumed and reported, and so is the end of the source.
    /// The parser stays successful only if nothing was reported.
    pub fn eat(&mut self, expect: Token, doc: bool) -> (r: bool)
        requires
            old(self).wf(),
        ensures
            final(self).follows(old(self)),
            ({
                let s = old(self).source();
                let e = eaten(s, old(self).position(), expect);
                &&& r == match e.1 {
                    Some((t, a, b)) => t == expect,
                    None => false,
                }
                &&& final(self).position() == match e.1 {
                    Some((t, a, b)) => b,
                    None => s.len() as int,
                }
                &&& final(self).comment_texts() == old(self).comment_texts() + doc_texts(s, e.0)
                &&& final(self).gathered() == old(self).gathered() + doc_errors(e.0, doc)
                    + eat_errors(s, expect, e.1)
                &&& final(self).successful == (old(self).successful && r && (doc || e.0.len() == 0))
            }),
    {
        let ghost s = self.source();
        let ghost p = self.position();
        let ghost mut passed: Seq<(int, int)> = seq![];
        proof {
            self.context.lemma_extends_same(&old(self).context, s.len() as int);
            assert(doc_texts(s, passed) =~= seq![]);
            assert(doc_errors(passed, doc) =~= seq![]);
            assert(self.comment_texts() =~= old(self).comment_texts() + doc_texts(s, passed));
            assert(self.gathered() =~= old(self).gathered() + doc_errors(passed, doc));
            assert(passed + eaten(s, p, expect).0 =~= eaten(s, p, expect).0);
        }
        loop
            invariant
                self.follows(old(self)),
                s == self.source(),
                s == old(self).source(),
                p == old(self).position(),
                eaten(s, p, expect).0 == passed + eaten(s, self.position(), expect).0,
                eaten(s, p, expect).1 == eaten(s, self.position(), expect).1,
                self.comment_texts() == old(self).comment_texts() + doc_texts(s, passed),
                self.gathered() == old(self).gathered() + doc_errors(passed, doc),
                self.successful == (old(self).successful && (doc || passed.len() == 0)),
            decreases s.len() - self.position(),
        {
            let ghost here = self.position();
            let ghost rest = eaten(s, here, expect);
            proof {
                lemma_next_token_bounds(s, here);
            }
            match self.lexer.next() {
                None => {
                    let len = self.lexer.input.as_bytes().len();
                    let ghost before = self.gathered();
                    self.fail(make_end_of_file(expect, len));
                    proof {
                        assert(rest.0 =~= seq![]);
                        assert(passed + rest.0 =~= passed);
                        assert(self.gathered() =~= old(self).gathered() + doc_errors(passed, doc)
                            + eat_errors(s, expect, None));
                    }
                    return false;
                },
                Some(tok) => {
                    let span = self.lexer.span();
                    if tok == expect {
                        proof {
                            assert(rest.0 =~= seq![]);
                            assert(passed + rest.0 =~= passed);
                            assert(self.gathered() =~= old(self).gathered() + doc_errors(passed, doc)
                                + eat_errors(s, expect, rest.1));
                        }
                        return true;
                    } else if tok == Token::DocComment {
                        let ghost errors = self.gathered();
                        if !doc {
                            self.fail(make_misplaced_comment(span.start..span.end));
                        }
                        let text = comment_text(self.lexer.input, span.start, span.end);
                        let ghost texts = self.comment_texts();
                        self.comments.push(text);
                        proof {
                            let item = (span.start as int, span.end as int);
                            let next = passed.push(item);
                            assert(rest.0 =~= seq![item] + eaten(s, self.position(), expect).0);
                            assert(passed + rest.0 =~= next + eaten(s, self.position(), expect).0);
                            assert(doc_texts(s, next) =~= doc_texts(s, passed).push(
                                doc_text(s, item.0, item.1),
                            ));
                            assert(self.comment_texts() =~= texts.push(text@));
                            assert(self.comment_texts() =~= old(self).comment_texts() + doc_texts(
                                s,
                                next,
                            ));
                            if !doc {
                                assert(doc_errors(next, doc) =~= doc_errors(passed, doc).push(
                                    super::report::misplaced_comment(item.0, item.1),
                                ));
                            }
                            assert(self.gathered() =~= old(self).gathered() + doc_errors(next, doc));
                            passed = next;
                        }
                    } else {
                        self.report_offence(expect, tok, span);
                        proof {
                            assert(rest.0 =~= seq![]);
                            assert(passed + rest.0 =~= passed);
                            assert(self.gathered() =~= old(self).gathered() + doc_errors(passed, doc)
                                + eat_errors(s, expect, rest.1));
                        }
                        return false;
                    }
                },
            }
        }
    }

    /// Consumes the next token if it is `expect`, and tells whether it was.
    ///
    /// Documentation comments before the token are passed over as `eat` does. A token
    /// other than `expect` stays where it is and nothing is reported, unless the token is
    /// invalid in itself, an unclosed string or a character that starts no token: that
    /// one is consumed and reported.
    pub fn eat_optional(&mut self, expect: Token, doc: bool) -> (r: bool)
        requires
            old(self).wf(),
        ensures
            final(self).follows(old(self)),
            ({
                let s = old(self).source();
                let e = eaten(s, old(self).position(), expect);
                let rest = if e.0.len() > 0 {
                    e.0.last().1
                } else {
                    old(self).position()
                };
                &&& r == match e.1 {
                    Some((t, a, b)) => t == expect,
                    None => false,
                }
                &&& final(self).position() == match e.1 {
                    Some((t, a, b)) => if taken(expect, t) {
                        b
                    } else {
                        rest
                    },
                    None => rest,
                }
                &&& final(self).comment_texts() == old(self).comment_texts() + doc_texts(s, e.0)
                &&& final(self).gathered() == old(self).gathered() + doc_errors(e.0, doc) + match e.1 {
                    Some((t, a, b)) => if taken(expect, t) {
                        eat_errors(s, expect, e.1)
                    } else {
                        seq![]
                    },
                    None => seq![],
                }
                &&& final(self).successful == (old(self).successful && (doc || e.0.len() == 0) && match e.1 {
                    Some((t, a, b)) => t == expect || !taken(expect, t),
                    None => true,
                })
            }),
    {
        let ghost s = self.source();
        let ghost p = self.position();
        let ghost mut passed: Seq<(int, int)> = seq![];
        proof {
            self.context.lemma_extends_same(&old(self).context, s.len() as int);
            assert(doc_texts(s, passed) =~= seq![]);
            assert(doc_errors(passed, doc) =~= seq![]);
            assert(self.comment_texts() =~= old(self).comment_texts() + doc_texts(s, passed));
            assert(self.gathered() =~= old(self).gathered() + doc_errors(passed, doc));
            assert(passed + eaten(s, p, expect).0 =~= eaten(s, p, expect).0);
        }
        loop
            invariant
                self.follows(old(self)),
                s == self.source(),
                s == old(self).source(),
                p == old(self).position(),
                eaten(s, p, expect).0 == passed + eaten(s, self.position(), expect).0,
                eaten(s, p, expect).1 == eaten(s, self.position(), expect).1,
                self.position() == if passed.len() > 0 {
                    passed.last().1
                } else {
                    p
                },
                self.comment_texts() == old(self).comment_texts() + doc_texts(s, passed),
                self.gathered() == old(self).gathered() + doc_errors(passed, doc),
                self.successful == (old(self).successful && (doc || passed.len() == 0)),
            decreases s.len() - self.position(),
        {
            let ghost here = self.position();
            let ghost rest = eaten(s, here, expect);
            proof {
                lemma_next_token_bounds(s, here);
            }
            let tok = match self.lexer.peek() {
                None => {
                    proof {
                        assert(rest.0 =~= seq![]);
                        assert(passed + rest.0 =~= passed);
                        assert(self.gathered() =~= self.gathered() + Seq::<DiagnosticView>::empty());
                    }
                    return false;
                },
                Some(t) => t,
            };
            if tok == expect {
                self.lexer.next();
                proof {
                    assert(rest.0 =~= seq![]);
                    assert(passed + rest.0 =~= passed);
                    assert(self.gathered() =~= self.gathered() + Seq::<DiagnosticView>::empty());
                }
                return true;
            } else if tok == Token::DocComment {
                self.lexer.next();
                let span = self.lexer.span();
                if !doc {
                    self.fail(make_misplaced_comment(span.start..span.end));
                }
                let text = comment_text(self.lexer.input, span.start, span.end);
                let ghost texts = self.comment_texts();
                self.comments.push(text);
                proof {
                    let item = (span.start as int, span.end as int);
                    let next = passed.push(item);
                    assert(rest.0 =~= seq![item] + eaten(s, self.position(), expect).0);
                    assert(passed + rest.0 =~= next + eaten(s, self.position(), expect).0);
                    assert(doc_texts(s, next) =~= doc_texts(s, passed).push(doc_text(s, item.0, item.1)));
                    assert(self.comment_texts() =~= texts.push(text@));
                    assert(self.comment_texts() =~= old(self).comment_texts() + doc_texts(s, next));
                    if !doc {
                        assert(doc_errors(next, doc) =~= doc_errors(passed, doc).push(
                            super::report::misplaced_comment(item.0, item.1),
                        ));
                    }
                    assert(self.gathered() =~= old(self).gathered() + doc_errors(next, doc));
                    passed = next;
                }
            } else if tok == Token::InvalidString || tok == Token::Invalid {
                self.lexer.next();
                let span = self.lexer.span();
                self.report_offence(expect, tok, span);
                proof {
                    assert(rest.0 =~= seq![]);
                    assert(passed + rest.0 =~= passed);
                }
                return false;
            } else {
                proof {
                    assert(rest.0 =~= seq![]);
                    assert(passed + rest.0 =~= passed);
                    assert(self.gathered() =~= self.gathered() + Seq::<DiagnosticView>::empty());
                }
                return false;
            }
        }
    }
}

} // verus!
