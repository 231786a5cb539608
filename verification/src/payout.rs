//! The pooled-stake payout formula and the arithmetic facts behind
//! conservation: the floor in each winner's share only loses value, so
//! the shares of any set of winners never exceed the whole pool.

use vstd::prelude::*;
use vstd::arithmetic::div_mod::lemma_div_is_ordered;
use vstd::arithmetic::div_mod::lemma_div_multiples_vanish;
use vstd::arithmetic::div_mod::lemma_div_pos_is_pos;
use vstd::arithmetic::div_mod::lemma_fundamental_div_mod;
use vstd::arithmetic::div_mod::lemma_fundamental_div_mod_converse_mod;
use vstd::arithmetic::mul::lemma_mul_is_distributive_add_other_way;
use vstd::arithmetic::mul::lemma_mul_nonnegative;

verus! {

/// A winner's payout: `floor(amount * (yes + no) / winning_pool)`, in the
/// unbounded domain. Meaningful only when the winning pool is nonzero,
/// which every caller guards.
pub open spec fn spec_payout(amount: u64, yes: u64, no: u64, outcome: bool) -> int {
    amount * (yes + no) / (if outcome { yes as int } else { no as int })
}

/// Floored proportional shares are superadditive: splitting a stake into
/// two never gains value, i.e. `a*t/w + b*t/w <= (a+b)*t/w`.
pub proof fn lemma_share_superadditive(a: int, b: int, t: int, w: int)
    requires
        0 <= a,
        0 <= b,
        0 <= t,
        0 < w,
    ensures
        a * t / w + b * t / w <= (a + b) * t / w,
{
    let qa = a * t / w;
    let qb = b * t / w;
    lemma_mul_nonnegative(a, t);
    lemma_mul_nonnegative(b, t);
    lemma_fundamental_div_mod(a * t, w);
    lemma_fundamental_div_mod(b * t, w);
    lemma_fundamental_div_mod_converse_mod(a * t, w, qa, a * t - w * qa);
    lemma_fundamental_div_mod_converse_mod(b * t, w, qb, b * t - w * qb);
    lemma_mul_is_distributive_add_other_way(t, a, b);
    assert(w * (qa + qb) == w * qa + w * qb) by (nonlinear_arith);
    assert(w * (qa + qb) <= (a + b) * t);
    lemma_div_multiples_vanish(qa + qb, w);
    lemma_div_is_ordered(w * (qa + qb), (a + b) * t, w);
}

/// A stake no larger than the winning pool is paid at most the whole
/// pool: `a <= w` gives `a*t/w <= t`.
pub proof fn lemma_share_bounded(a: int, t: int, w: int)
    requires
        0 <= a <= w,
        0 < w,
        0 <= t,
    ensures
        a * t / w <= t,
{
    assert(a * t <= w * t) by (nonlinear_arith)
        requires
            0 <= a <= w,
            0 <= t,
    ;
    lemma_div_is_ordered(a * t, w * t, w);
    lemma_div_multiples_vanish(t, w);
}

/// Each share is nonnegative: the rounding dust left in the pool can
/// never be negative.
pub proof fn lemma_share_nonnegative(a: int, t: int, w: int)
    requires
        0 <= a,
        0 <= t,
        0 < w,
    ensures
        0 <= a * t / w,
{
    lemma_mul_nonnegative(a, t);
    lemma_div_pos_is_pos(a * t, w);
}

} // verus!
