//! Pieces of the source text: the characters between two byte offsets, and the value of a
//! run of decimal digits.

use vstd::prelude::*;
use vstd::string::*;
use vstd::utf8::*;

verus! {

/// The characters that the bytes from `start` to `end` encode. Both offsets have to fall
/// between characters; where they do not, or do not form a range within the bytes, the text
/// is empty.
pub open spec fn text_of(bytes: Seq<u8>, start: int, end: int) -> Seq<char> {
    if 0 <= start <= end <= bytes.len() && is_char_boundary(bytes, end) && is_char_boundary(
        bytes.subrange(0, end),
        start,
    ) {
        decode_utf8(bytes.subrange(start, end))
    } else {
        Seq::empty()
    }
}

/// The part of `s` between the byte offsets `start` and `end`.
pub fn slice_text<'a>(s: &'a str, start: usize, end: usize) -> (r: &'a str)
    ensures
        r@ == text_of(s.spec_bytes(), start as int, end as int),
{
    let ghost bytes = s.spec_bytes();
    proof {
        reveal_strlit("");
    }
    assert(""@ =~= Seq::<char>::empty());
    let len = s.as_bytes().len();
    if start <= end && end <= len && s.is_char_boundary(end) {
        let (head, _) = s.split_at(end);
        assert(head.spec_bytes() == bytes.subrange(0, end as int));
        if head.is_char_boundary(start) {
            let (_, tail) = head.split_at(start);
            proof {
                assert(tail.spec_bytes() =~= bytes.subrange(start as int, end as int));
                encode_utf8_decode_utf8(tail@);
            }
            tail
        } else {
            ""
        }
    } else {
        ""
    }
}

/// The number that a run of decimal digits writes; `None` where the run is empty or holds
/// a byte that is no digit.
pub open spec fn decimal_value(w: Seq<u8>) -> Option<nat>
    decreases w.len(),
{
    if w.len() == 0 {
        None
    } else if !(0x30 <= w.last() <= 0x39) {
        None
    } else if w.len() == 1 {
        Some((w.last() - 0x30) as nat)
    } else {
        match decimal_value(w.drop_last()) {
            Some(v) => Some(v * 10 + (w.last() - 0x30) as nat),
            None => None,
        }
    }
}

/// The number that the digits from `start` to `end` write, where it fits 64 bits.
pub fn parse_decimal(s: &[u8], start: usize, end: usize) -> (r: Option<u64>)
    requires
        start <= end <= s.len(),
    ensures
        r == match decimal_value(s@.subrange(start as int, end as int)) {
            Some(v) => if v <= u64::MAX { Some(v as u64) } else { None },
            None => None,
        },
{
    let ghost w = s@.subrange(start as int, end as int);
    if start == end {
        return None;
    }
    let mut i: usize = start;
    let mut v: u64 = 0;
    let mut overflow = false;
    while i < end
        invariant
            start <= i <= end <= s.len(),
            w == s@.subrange(start as int, end as int),
            i > start ==> (match decimal_value(w.take(i - start)) {
                Some(x) => if overflow { x > u64::MAX } else { x == v },
                None => false,
            }),
            i == start ==> v == 0 && !overflow,
        decreases end - i,
    {
        let b = s[i];
        let ghost prev = w.take(i - start);
        let ghost cur = w.take(i + 1 - start);
        proof {
            assert(cur.drop_last() =~= prev);
            assert(cur.last() == b);
        }
        if !(0x30 <= b && b <= 0x39) {
            proof {
                lemma_decimal_prefix(w, i + 1 - start);
            }
            return None;
        }
        let d: u64 = (b - 0x30) as u64;
        if !overflow {
            match v.checked_mul(10) {
                Some(m) => match m.checked_add(d) {
                    Some(a) => {
                        v = a;
                    },
                    None => {
                        overflow = true;
                    },
                },
                None => {
                    overflow = true;
                },
            }
        }
        i = i + 1;
    }
    assert(w.take(end - start) =~= w);
    if overflow {
        None
    } else {
        Some(v)
    }
}

/// A run of digits with a prefix that writes no number writes none itself.
pub proof fn lemma_decimal_prefix(w: Seq<u8>, k: int)
    requires
        1 <= k <= w.len(),
        decimal_value(w.take(k)).is_none(),
    ensures
        decimal_value(w).is_none(),
    decreases w.len(),
{
    if k < w.len() {
        assert(w.drop_last().take(k) =~= w.take(k));
        lemma_decimal_prefix(w.drop_last(), k);
    } else {
        assert(w.take(k) =~= w);
    }
}

} // verus!
