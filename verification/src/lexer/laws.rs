//! What holds of every source: the tokens tile it, and the lexer yields them in order.

use vstd::prelude::*;
use super::rules::{lemma_token_at_bounds, next_token, token_at};
use super::token::Token;

verus! {

/// All tokens of the source from `p` on, the skipped ones included, each with its start and
/// its end.
pub open spec fn all_tokens(s: Seq<u8>, p: int) -> Seq<(Token, int, int)>
    decreases s.len() - p,
{
    if !(0 <= p < s.len()) {
        seq![]
    } else {
        let t = token_at(s, p);
        if !(p < t.1 <= s.len()) {
            seq![]
        } else {
            seq![(t.0, p, t.1)] + all_tokens(s, t.1)
        }
    }
}

/// The slices of the tokens, one behind the other.
pub open spec fn joined(s: Seq<u8>, tokens: Seq<(Token, int, int)>) -> Seq<u8>
    decreases tokens.len(),
{
    if tokens.len() == 0 {
        seq![]
    } else {
        s.subrange(tokens[0].1, tokens[0].2) + joined(s, tokens.drop_first())
    }
}

/// The first token of the list that the lexer does not skip.
pub open spec fn first_kept(tokens: Seq<(Token, int, int)>) -> Option<(Token, int, int)>
    decreases tokens.len(),
{
    if tokens.len() == 0 {
        None
    } else if tokens[0].0.is_skipped() {
        first_kept(tokens.drop_first())
    } else {
        Some(tokens[0])
    }
}

/// The tokens from `p` on, skipped ones included, cover every byte from `p` to the end of
/// the source exactly once: their slices, joined, are that part of the source.
pub proof fn tokens_cover_source(s: Seq<u8>, p: int)
    requires
        0 <= p <= s.len(),
    ensures
        joined(s, all_tokens(s, p)) =~= s.subrange(p, s.len() as int),
    decreases s.len() - p,
{
    if p < s.len() {
        lemma_token_at_bounds(s, p);
        let t = token_at(s, p);
        tokens_cover_source(s, t.1);
        assert(all_tokens(s, p).drop_first() =~= all_tokens(s, t.1));
    }
}

/// All tokens of a source tile it: joined, their slices are the source.
pub proof fn lexing_is_total(s: Seq<u8>)
    ensures
        joined(s, all_tokens(s, 0)) =~= s,
{
    tokens_cover_source(s, 0);
}

/// What the lexer yields at `p` is the first of the tokens from `p` on that is not skipped.
pub proof fn next_is_first_kept(s: Seq<u8>, p: int)
    requires
        0 <= p <= s.len(),
    ensures
        next_token(s, p) == first_kept(all_tokens(s, p)),
    decreases s.len() - p,
{
    if p < s.len() {
        lemma_token_at_bounds(s, p);
        let t = token_at(s, p);
        assert(all_tokens(s, p).drop_first() =~= all_tokens(s, t.1));
        if t.0.is_skipped() {
            next_is_first_kept(s, t.1);
        }
    }
}

} // verus!
