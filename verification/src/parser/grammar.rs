//! The grammar, as functions from a position in the source to what is read there.
//!
//! Each function takes the bytes of the source and the position at which reading starts. It
//! yields what is read and the position behind it, or, where the source does not fit the
//! grammar at that position, the diagnostics that say why.

use vstd::prelude::*;
use super::report::{
    dangling_else, end_of_file, missing_condition, missing_operand, number_too_large,
    unclosed_block, unclosed_list, unclosed_subscript,
};
use super::{docs_at, offence, value_offence};
use crate::ast::{AstView, MetaView, Opcode};
use crate::diagnostic::DiagnosticView;
use crate::lexer::rules::{lemma_next_token_bounds, next_token};
use crate::lexer::token::Token;
use crate::text::{decimal_value, text_of};

verus! {

/// The position behind the documentation comments that follow `p`.
pub open spec fn skip_docs(s: Seq<u8>, p: int) -> int
    decreases s.len() - p,
{
    match next_token(s, p) {
        Some((Token::DocComment, a, b)) => if p < b <= s.len() {
            skip_docs(s, b)
        } else {
            p
        },
        _ => p,
    }
}

/// What lies ahead of a position: where the documentation comments behind it end, and the
/// token that follows them.
pub ghost struct Ahead {
    pub at: int,
    pub token: Option<(Token, int, int)>,
}

/// What lies ahead of `p`.
pub open spec fn look(s: Seq<u8>, p: int) -> Ahead {
    Ahead { at: skip_docs(s, p), token: next_token(s, skip_docs(s, p)) }
}

/// `look` goes forward only, and stays within the source.
pub open spec fn in_order(s: Seq<u8>, p: int, a: Ahead) -> bool {
    &&& p <= a.at <= s.len()
    &&& match a.token {
        Some((t, start, end)) => a.at <= start < end <= s.len() && t != Token::DocComment
            && !t.is_skipped(),
        None => true,
    }
}

/// `q` lies behind `p` and within the source.
pub open spec fn advanced(s: Seq<u8>, p: int, q: int) -> bool {
    p < q <= s.len()
}

/// Whether the number literal from `start` to `end` is a floating point literal: it holds
/// a `.`, an `e` or an `E`.
pub open spec fn is_float_text(s: Seq<u8>, start: int, end: int) -> bool {
    exists|i: int| start <= i < end && (s[i] == 0x2e || s[i] == 0x65 || s[i] == 0x45)
}

/// The item that a literal token stands for.
pub open spec fn literal(s: Seq<u8>, tok: Token, start: int, end: int) -> Option<AstView> {
    match tok {
        Token::Identifier => Some(AstView::IdentifierLiteral(text_of(s, start, end))),
        Token::TrueKeyword => Some(AstView::BooleanLiteral(true)),
        Token::FalseKeyword => Some(AstView::BooleanLiteral(false)),
        Token::String => Some(AstView::StringLiteral(text_of(s, start + 1, end - 1))),
        Token::Number => if is_float_text(s, start, end) {
            Some(AstView::FloatLiteral(text_of(s, start, end)))
        } else {
            match decimal_value(s.subrange(start, end)) {
                Some(v) => if v <= u64::MAX {
                    Some(AstView::IntegerLiteral(v as u64))
                } else {
                    None
                },
                None => None,
            }
        },
        _ => None,
    }
}

/// The operator that the token stands for before an operand, with its binding power.
pub open spec fn prefix_operator(tok: Token) -> Option<(Opcode, usize)> {
    match Opcode::of_token(tok) {
        Some(op) => match op.prefix_power() {
            Some(power) => Some((op, power)),
            None => None,
        },
        None => None,
    }
}

/// What reading at a position yields.
pub ghost enum Read<T> {
    /// The source fits the grammar: what is read, and the position behind it.
    Done(T, int),
    /// The source has ended, and nothing is reported.
    End,
    /// The source does not fit the grammar: the diagnostics that are reported.
    Fault(Seq<DiagnosticView>),
    /// Reading cannot go on. This never comes about: the lexer always moves forward.
    Stuck,
}

/// The description of the token that closes a list, as diagnostics show it.
pub open spec fn closing_name(close: Token) -> Seq<char> {
    match close.description() {
        Some(n) => n,
        None => "bracket"@,
    }
}

/// The token `expect`, which has to come next: its span. Any other token is a fault, and
/// so is the end of the source.
pub open spec fn expected(s: Seq<u8>, p: int, expect: Token) -> Read<(int, int)> {
    match look(s, p).token {
        Some((t, start, end)) => if t == expect {
            Read::Done((start, end), end)
        } else {
            Read::Fault(offence(s, expect, t, start, end))
        },
        None => Read::Fault(seq![end_of_file(expect, s.len() as int)]),
    }
}

/// The diagnostic for a token that is no literal, or a literal without a value, where a
/// value is expected.
pub open spec fn literal_fault(s: Seq<u8>, tok: Token, start: int, end: int) -> DiagnosticView {
    if tok == Token::Number {
        number_too_large(start, end)
    } else {
        value_offence(s, tok, start, end)
    }
}

/// An expression whose operators all bind with at least the power `min`: an operand and
/// what follows it.
pub open spec fn expression(s: Seq<u8>, p: int, min: int) -> Read<MetaView>
    decreases s.len() - p, 4int,
{
    match operand(s, p) {
        Read::Done(left, q) => if advanced(s, p, q) {
            continued(s, left, q, min)
        } else {
            Read::Stuck
        },
        other => other,
    }
}

/// An operand with the operators before it. An operator without an operand is a fault.
pub open spec fn operand(s: Seq<u8>, p: int) -> Read<MetaView>
    decreases s.len() - p, 3int,
{
    let a = look(s, p);
    if !in_order(s, p, a) {
        Read::Stuck
    } else {
        match a.token {
            None => Read::End,
            Some((tok, start, end)) => match prefix_operator(tok) {
                Some((op, power)) => match expression(s, end, power as int) {
                    Read::Done(inner, q) => Read::Done(
                        MetaView::plain(start, inner.end, AstView::UnaryExpr(op, Box::new(inner))),
                        q,
                    ),
                    Read::End => Read::Fault(
                        seq![missing_operand(text_of(s, start, end), start, end)],
                    ),
                    other => other,
                },
                None => primary(s, a.at),
            },
        }
    }
}

/// An operand without operators before it: a literal, an array, an expression in
/// parentheses, an `if` or a `while`. Any other token is a fault.
pub open spec fn primary(s: Seq<u8>, p: int) -> Read<MetaView>
    decreases s.len() - p, 2int,
{
    let a = look(s, p);
    if !in_order(s, p, a) {
        Read::Stuck
    } else {
        match a.token {
            None => Read::End,
            Some((tok, start, end)) => match tok {
                Token::IfKeyword => if_statement(s, start, end),
                Token::WhileKeyword => while_statement(s, start, end),
                Token::LBrack => array(s, start, end),
                Token::LParen => group(s, start, end),
                _ => match literal(s, tok, start, end) {
                    Some(item) => Read::Done(MetaView::plain(start, end, item), end),
                    None => Read::Fault(seq![literal_fault(s, tok, start, end)]),
                },
            },
        }
    }
}

/// An `if` statement whose keyword starts at `start` and ends at `p`.
pub open spec fn if_statement(s: Seq<u8>, start: int, p: int) -> Read<MetaView>
    decreases s.len() - p, 6int,
{
    match conditional(s, p, start) {
        Read::Done((expr, block), q) => if advanced(s, p, q) {
            match branches(s, q, seq![]) {
                Read::Done(list, r) => Read::Done(
                    MetaView::plain(
                        start,
                        if list.len() == 0 {
                            q
                        } else {
                            list.last().end
                        },
                        AstView::IfStmnt { expr: Box::new(expr), block, branches: list },
                    ),
                    r,
                ),
                Read::Fault(d) => Read::Fault(d),
                _ => Read::Stuck,
            }
        } else {
            Read::Stuck
        },
        Read::Fault(d) => Read::Fault(d),
        _ => Read::Stuck,
    }
}

/// A `while` statement whose keyword starts at `start` and ends at `p`.
pub open spec fn while_statement(s: Seq<u8>, start: int, p: int) -> Read<MetaView>
    decreases s.len() - p, 6int,
{
    match conditional(s, p, start) {
        Read::Done((expr, block), q) => Read::Done(
            MetaView::plain(start, q, AstView::WhileStmnt { expr: Box::new(expr), block }),
            q,
        ),
        Read::Fault(d) => Read::Fault(d),
        _ => Read::Stuck,
    }
}

/// An array literal whose `[` starts at `start` and ends at `p`.
pub open spec fn array(s: Seq<u8>, start: int, p: int) -> Read<MetaView>
    decreases s.len() - p, 6int,
{
    match list(s, p, Token::RBrack, seq![], false) {
        Read::Done(items, q) => Read::Done(MetaView::plain(start, q, AstView::ArrayLiteral(items)), q),
        Read::Fault(d) => Read::Fault(d),
        _ => Read::Stuck,
    }
}

/// An expression in parentheses whose `(` starts at `start` and ends at `p`. The node of
/// the expression is marked, and its span is that of the parentheses.
pub open spec fn group(s: Seq<u8>, start: int, p: int) -> Read<MetaView>
    decreases s.len() - p, 6int,
{
    match expression(s, p, 0) {
        Read::Done(inner, q) => match expected(s, q, Token::RParen) {
            Read::Done(close, d) => Read::Done(MetaView { start, end: d, parenthesis: true, ..inner }, d),
            Read::Fault(d) => Read::Fault(d),
            _ => Read::Stuck,
        },
        Read::End => Read::Fault(seq![end_of_file(Token::RParen, s.len() as int)]),
        other => other,
    }
}

/// What one operator behind an operand does to it.
pub ghost enum Step {
    /// No operator follows that binds tightly enough: the operand stands as it is.
    Stop,
    /// The operator and what belongs to it form a new operand, which ends at the position.
    More(MetaView, int),
    /// The source does not fit the grammar: the diagnostics that are reported.
    Fault(Seq<DiagnosticView>),
    /// Reading cannot go on. This never comes about.
    Stuck,
}

/// The step that the token ahead of `p` makes of the operand `left`.
pub open spec fn step(s: Seq<u8>, left: MetaView, p: int, min: int) -> Step
    decreases s.len() - p, 0int,
{
    let a = look(s, p);
    if !in_order(s, p, a) {
        Step::Stuck
    } else {
        match a.token {
            None => Step::Stop,
            Some((tok, start, end)) => match Opcode::of_token(tok) {
                None => Step::Stop,
                Some(op) => match op.postfix_power() {
                    Some(power) => if power < min {
                        Step::Stop
                    } else if op == Opcode::Subscript {
                        match subscript(s, left, end, start) {
                            Read::Done(node, q) => Step::More(node, q),
                            Read::Fault(d) => Step::Fault(d),
                            _ => Step::Stuck,
                        }
                    } else {
                        match list(s, end, Token::RParen, seq![], false) {
                            Read::Done(arguments, q) => Step::More(
                                MetaView::plain(left.start, q, AstView::CallExpr(Box::new(left), arguments)),
                                q,
                            ),
                            Read::Fault(d) => Step::Fault(d),
                            _ => Step::Stuck,
                        }
                    },
                    None => match op.infix_power() {
                        Some((lp, rp)) => if lp < min {
                            Step::Stop
                        } else {
                            match expression(s, end, rp as int) {
                                Read::Done(right, q) => Step::More(
                                    MetaView::plain(
                                        left.start,
                                        right.end,
                                        AstView::BinaryExpr(op, Box::new(left), Box::new(right)),
                                    ),
                                    q,
                                ),
                                Read::End => Step::Fault(
                                    seq![missing_operand(text_of(s, start, end), start, end)],
                                ),
                                Read::Fault(d) => Step::Fault(d),
                                Read::Stuck => Step::Stuck,
                            }
                        },
                        None => Step::Stop,
                    },
                },
            },
        }
    }
}

/// What follows an operand: operators behind it, and operators between it and a further
/// operand, as long as they bind with at least the power `min`.
pub open spec fn continued(s: Seq<u8>, left: MetaView, p: int, min: int) -> Read<MetaView>
    decreases s.len() - p, 1int,
{
    match step(s, left, p, min) {
        Step::Stop => Read::Done(left, look(s, p).at),
        Step::More(node, q) => if advanced(s, p, q) {
            continued(s, node, q, min)
        } else {
            Read::Stuck
        },
        Step::Fault(d) => Read::Fault(d),
        Step::Stuck => Read::Stuck,
    }
}

/// The rest of an indexing, behind its `[`, which starts at `open`: `]`, or an expression
/// and `]`.
pub open spec fn subscript(s: Seq<u8>, left: MetaView, p: int, open: int) -> Read<MetaView>
    decreases s.len() - p, 5int,
{
    let a = look(s, p);
    if !in_order(s, p, a) {
        Read::Stuck
    } else {
        match a.token {
            None => Read::Fault(seq![unclosed_subscript(open, p)]),
            Some((Token::RBrack, start, end)) => Read::Done(
                MetaView::plain(left.start, end, AstView::SubscriptExpr(Box::new(left), None)),
                end,
            ),
            Some(_) => match expression(s, a.at, 0) {
                Read::Done(index, q) => match expected(s, q, Token::RBrack) {
                    Read::Done(close, d) => Read::Done(
                        MetaView::plain(
                            left.start,
                            d,
                            AstView::SubscriptExpr(Box::new(left), Some(Box::new(index))),
                        ),
                        d,
                    ),
                    Read::Fault(d) => Read::Fault(d),
                    _ => Read::Stuck,
                },
                Read::Fault(d) => Read::Fault(d),
                _ => Read::Stuck,
            },
        }
    }
}

/// The rest of a list, behind its opening bracket: expressions with commas between them,
/// up to the token `close`. A comma may follow the last expression. `items` holds the
/// expressions read so far; `comma` says whether a comma has to come before the next.
pub open spec fn list(s: Seq<u8>, p: int, close: Token, items: Seq<MetaView>, comma: bool) -> Read<
    Seq<MetaView>,
>
    decreases s.len() - p, 5int,
{
    let a = look(s, p);
    if !in_order(s, p, a) {
        Read::Stuck
    } else {
        match a.token {
            None => Read::Fault(
                seq![unclosed_list(closing_name(close), s.len() as int, s.len() as int)],
            ),
            Some((tok, start, end)) => if tok == close {
                Read::Done(items, end)
            } else if comma {
                if tok == Token::Comma {
                    list(s, end, close, items, false)
                } else {
                    Read::Fault(offence(s, Token::Comma, tok, start, end))
                }
            } else {
                match expression(s, a.at, 0) {
                    Read::Done(item, q) => if advanced(s, p, q) {
                        list(s, q, close, items.push(item), true)
                    } else {
                        Read::Stuck
                    },
                    Read::Fault(d) => Read::Fault(d),
                    _ => Read::Stuck,
                }
            },
        }
    }
}

/// The condition and the block of an `if` or a `while`, behind the keyword, which starts
/// at `keyword`: an expression, `{`, statements and `}`.
pub open spec fn conditional(s: Seq<u8>, p: int, keyword: int) -> Read<(MetaView, Seq<MetaView>)>
    decreases s.len() - p, 5int,
{
    match expression(s, p, 0) {
        Read::Done(expr, q) => if advanced(s, p, q) {
            match expected(s, q, Token::LCurly) {
                Read::Done(open, d) => if advanced(s, p, d) {
                    match block(s, d, seq![], d) {
                        Read::Done(statements, r) => Read::Done((expr, statements), r),
                        Read::Fault(x) => Read::Fault(x),
                        _ => Read::Stuck,
                    }
                } else {
                    Read::Stuck
                },
                Read::Fault(x) => Read::Fault(x),
                _ => Read::Stuck,
            }
        } else {
            Read::Stuck
        },
        Read::End => Read::Fault(seq![missing_condition(keyword, p)]),
        Read::Fault(x) => Read::Fault(x),
        Read::Stuck => Read::Stuck,
    }
}

/// One branch of an `if` statement, behind its `else`, which starts at `start` and ends
/// at `p`: `if` with a condition and a block, after which further branches may follow, or
/// a block, which is the last branch.
pub open spec fn branch(s: Seq<u8>, start: int, p: int) -> Read<(MetaView, bool)>
    decreases s.len() - p, 6int,
{
    let b = look(s, p);
    if !in_order(s, p, b) {
        Read::Stuck
    } else {
        match b.token {
            Some((Token::IfKeyword, c, d)) => match conditional(s, d, c) {
                Read::Done((expr, block), q) => Read::Done(
                    (
                        MetaView::plain(
                            start,
                            q,
                            AstView::IfStmnt { expr: Box::new(expr), block, branches: seq![] },
                        ),
                        true,
                    ),
                    q,
                ),
                Read::Fault(x) => Read::Fault(x),
                _ => Read::Stuck,
            },
            Some((Token::LCurly, c, d)) => match block(s, d, seq![], d) {
                Read::Done(statements, q) => Read::Done(
                    (MetaView::plain(start, q, AstView::Block(statements)), false),
                    q,
                ),
                Read::Fault(x) => Read::Fault(x),
                _ => Read::Stuck,
            },
            _ => Read::Fault(seq![dangling_else(start, p)]),
        }
    }
}

/// The branches of an `if` statement, behind its block: any number of `else if` with a
/// condition and a block, and then at most one `else` with a block.
pub open spec fn branches(s: Seq<u8>, p: int, found: Seq<MetaView>) -> Read<Seq<MetaView>>
    decreases s.len() - p, 7int,
{
    let a = look(s, p);
    if !in_order(s, p, a) {
        Read::Stuck
    } else {
        match a.token {
            Some((Token::ElseKeyword, start, end)) => match branch(s, start, end) {
                Read::Done((node, more), q) => if !more {
                    Read::Done(found.push(node), q)
                } else if advanced(s, p, q) {
                    branches(s, q, found.push(node))
                } else {
                    Read::Stuck
                },
                Read::Fault(x) => Read::Fault(x),
                _ => Read::Stuck,
            },
            _ => Read::Done(found, a.at),
        }
    }
}

/// The statement that starts at `p`: an expression, and the semicolon behind it if there
/// is one. The documentation comments that follow `docs`, which is where the statement
/// before it ended, are attached to the statement.
pub open spec fn statement(s: Seq<u8>, p: int, docs: int) -> Read<MetaView>
    decreases s.len() - p, 5int,
{
    match expression(s, p, 0) {
        Read::Done(node, q) => if advanced(s, p, q) {
            let b = look(s, q);
            if !in_order(s, q, b) {
                Read::Stuck
            } else {
                match b.token {
                    Some((Token::Semicolon, c, d)) => Read::Done(
                        MetaView { semicolon: true, comments: docs_at(s, docs), ..node },
                        d,
                    ),
                    _ => Read::Done(MetaView { comments: docs_at(s, docs), ..node }, b.at),
                }
            }
        } else {
            Read::Stuck
        },
        Read::Fault(x) => Read::Fault(x),
        _ => Read::Stuck,
    }
}

/// Where a statement that was read up to `q` ends: behind its semicolon if it has one, and
/// behind its last token otherwise. The documentation comments of the next statement
/// follow that place.
pub open spec fn statement_end(node: MetaView, q: int) -> int {
    if node.semicolon {
        q
    } else {
        node.end
    }
}

/// The rest of a block, behind its `{`: statements up to `}`. Semicolons that stand alone
/// are passed over. A block that the source ends in is a fault. `docs` is where the last
/// statement ended, or the block began.
pub open spec fn block(s: Seq<u8>, p: int, found: Seq<MetaView>, docs: int) -> Read<Seq<MetaView>>
    decreases s.len() - p, 6int,
{
    let a = look(s, p);
    if !in_order(s, p, a) {
        Read::Stuck
    } else {
        match a.token {
            None => Read::Fault(seq![unclosed_block(s.len() as int, s.len() as int)]),
            Some((Token::RCurly, start, end)) => Read::Done(found, end),
            Some((Token::Semicolon, start, end)) => block(s, end, found, end),
            Some(_) => match statement(s, a.at, docs) {
                Read::Done(node, q) => if advanced(s, p, q) {
                    block(s, q, found.push(node), statement_end(node, q))
                } else {
                    Read::Stuck
                },
                Read::Fault(x) => Read::Fault(x),
                _ => Read::Stuck,
            },
        }
    }
}

/// The statements of a whole source, from `p` to its end. `docs` is where the last
/// statement ended, or reading began.
pub open spec fn program(s: Seq<u8>, p: int, found: Seq<MetaView>, docs: int) -> Read<Seq<MetaView>>
    decreases s.len() - p, 6int,
{
    let a = look(s, p);
    if !in_order(s, p, a) {
        Read::Stuck
    } else {
        match a.token {
            None => Read::Done(found, a.at),
            Some((Token::Semicolon, start, end)) => program(s, end, found, end),
            Some(_) => match statement(s, a.at, docs) {
                Read::Done(node, q) => if advanced(s, p, q) {
                    program(s, q, found.push(node), statement_end(node, q))
                } else {
                    Read::Stuck
                },
                Read::Fault(x) => Read::Fault(x),
                _ => Read::Stuck,
            },
        }
    }
}

/// `skip_docs` goes forward only, stays within the source, and stops before a token that
/// is no documentation comment.
pub proof fn lemma_look_in_order(s: Seq<u8>, p: int)
    requires
        0 <= p <= s.len(),
    ensures
        in_order(s, p, look(s, p)),
    decreases s.len() - p,
{
    lemma_next_token_bounds(s, p);
    match next_token(s, p) {
        Some((Token::DocComment, a, b)) => {
            lemma_look_in_order(s, b);
        },
        _ => {},
    }
}

/// Behind the documentation comments that `skip_docs` passes no further ones follow.
pub proof fn lemma_skip_docs_settled(s: Seq<u8>, p: int)
    requires
        0 <= p <= s.len(),
    ensures
        skip_docs(s, skip_docs(s, p)) == skip_docs(s, p),
        look(s, look(s, p).at) == look(s, p),
    decreases s.len() - p,
{
    lemma_next_token_bounds(s, p);
    match next_token(s, p) {
        Some((Token::DocComment, a, b)) => {
            lemma_skip_docs_settled(s, b);
        },
        _ => {},
    }
}

} // verus!
