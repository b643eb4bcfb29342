//! Rounding of offsets to alignment boundaries.

use vstd::prelude::*;

verus! {

/// The smallest multiple of `mul` that is not below `x`.
pub open spec fn round_up(x: nat, mul: nat) -> nat
    recommends
        mul > 0,
{
    (((x + mul - 1) / (mul as int)) * mul) as nat
}

/// What `round_up` yields is the multiple of `mul` between `x` and `x + mul`.
pub proof fn lemma_round_up(x: nat, mul: nat)
    requires
        mul > 0,
    ensures
        x <= round_up(x, mul) < x + mul,
        round_up(x, mul) % mul == 0,
{
    let q = (x + mul - 1) / (mul as int);
    assert(q * mul <= x + mul - 1 < q * mul + mul && (q * mul) % (mul as int) == 0 && q >= 0)
        by (nonlinear_arith)
        requires
            q == (x + mul - 1) / (mul as int),
            mul > 0,
            x >= 0,
    ;
}

/// Rounds `x` up to the nearest multiple of `mul`.
pub fn round(x: usize, mul: usize) -> (r: usize)
    requires
        mul > 0,
        x + mul <= usize::MAX,
    ensures
        r == round_up(x as nat, mul as nat),
        x <= r < x + mul,
        r % mul == 0,
{
    proof {
        lemma_round_up(x as nat, mul as nat);
    }
    let q: usize = (x + mul - 1) / mul;
    assert(q * mul == round_up(x as nat, mul as nat)) by (nonlinear_arith)
        requires
            q == (x + mul - 1) / (mul as int),
            mul > 0,
    ;
    q * mul
}

} // verus!
