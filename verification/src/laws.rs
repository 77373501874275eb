//! Monotonicity of the exchange rate. Without slashing — that is, as long as
//! the reconciled bonded amount is never written down — no bond, reward
//! redeposit or batch closure can lower the recomputed rate: reward
//! redeposits only ever raise it, and the rounding in minting and in
//! undelegation always favours the remaining holders.

use vstd::prelude::*;

use crate::hub::spec_rate_atomics;
use crate::math::SCALE;

use vstd::arithmetic::div_mod::{
    lemma_div_is_ordered, lemma_div_multiples_vanish, lemma_fundamental_div_mod,
    lemma_remainder_lower,
};
use vstd::arithmetic::mul::{
    lemma_mul_inequality, lemma_mul_is_commutative, lemma_mul_is_distributive_add,
    lemma_mul_is_distributive_sub, lemma_mul_nonnegative,
};

verus! {

/// The numerator of the rate never shrinks it: adding `d` to the backing
/// while the supply stays put — a reward redeposit — cannot lower the
/// recomputed exchange rate.
pub proof fn lemma_rate_nondecreasing_on_rewards(bonded: int, supply: int, d: int)
    requires
        0 < bonded,
        0 < supply,
        0 <= d,
    ensures
        spec_rate_atomics(bonded + d, supply) >= spec_rate_atomics(bonded, supply),
{
    lemma_mul_inequality(bonded, bonded + d, SCALE as int);
    lemma_mul_is_commutative(bonded, SCALE as int);
    lemma_mul_is_commutative(bonded + d, SCALE as int);
    lemma_div_is_ordered(bonded * (SCALE as int), (bonded + d) * (SCALE as int), supply);
}

/// A deposit `d` that mints no more than `d / rate` derivative units —
/// `m * rate <= d` in atomic units — cannot lower the recomputed exchange
/// rate: the backing grows at least as fast as the supply, relative to the
/// rate both were priced at.
pub proof fn lemma_rate_nondecreasing_on_bond(bonded: int, supply: int, d: int, m: int, r: int)
    requires
        0 < bonded,
        0 < supply,
        0 <= d,
        0 <= m,
        r == spec_rate_atomics(bonded, supply),
        m * r <= d * (SCALE as int),
    ensures
        spec_rate_atomics(bonded + d, supply + m) >= r,
{
    let s = SCALE as int;
    // r * supply <= bonded * SCALE, because r is the rounded-down ratio
    lemma_mul_nonnegative(bonded, s);
    lemma_fundamental_div_mod(bonded * s, supply);
    lemma_remainder_lower(bonded * s, supply);
    assert(supply * r <= bonded * s);
    // hence (bonded + d) * SCALE >= r * (supply + m)
    lemma_mul_is_distributive_add(s, bonded, d);
    lemma_mul_is_commutative(s, bonded);
    lemma_mul_is_commutative(s, d);
    lemma_mul_is_commutative(s, bonded + d);
    lemma_mul_is_distributive_add(r, supply, m);
    lemma_mul_is_commutative(r, supply);
    lemma_mul_is_commutative(r, m);
    assert(r * (supply + m) <= (bonded + d) * s);
    // dividing both sides by the new supply keeps the order
    lemma_mul_is_commutative(r, supply + m);
    lemma_div_is_ordered(r * (supply + m), (bonded + d) * s, supply + m);
    lemma_div_multiples_vanish(r, supply + m);
}

/// A user bond at the exact rounded-down mint amount, `floor(d / rate)`,
/// cannot lower the recomputed exchange rate.
pub proof fn lemma_rate_nondecreasing_after_user_bond(bonded: int, supply: int, d: int, r: int)
    requires
        0 < bonded,
        0 < supply,
        0 <= d,
        0 < r,
        r == spec_rate_atomics(bonded, supply),
    ensures
        spec_rate_atomics(bonded + d, supply + (d * (SCALE as int)) / r) >= r,
{
    let s = SCALE as int;
    let m = (d * s) / r;
    lemma_mul_nonnegative(d, s);
    vstd::arithmetic::div_mod::lemma_div_pos_is_pos(d * s, r);
    lemma_fundamental_div_mod(d * s, r);
    lemma_remainder_lower(d * s, r);
    assert(r * m <= d * s);
    lemma_mul_is_commutative(r, m);
    lemma_rate_nondecreasing_on_bond(bonded, supply, d, m, r);
}

/// Closing a batch undelegates at most `requested * rate` underlying units —
/// `u * SCALE <= requested * rate` — while the pending supply drops by the
/// full `requested`: the recomputed exchange rate cannot fall.
pub proof fn lemma_rate_nondecreasing_on_batch_close(
    bonded: int,
    supply: int,
    req: int,
    u: int,
    r: int,
)
    requires
        0 < bonded,
        0 < supply,
        0 <= req,
        0 <= u,
        u < bonded,
        req < supply,
        r == spec_rate_atomics(bonded, supply),
        u * (SCALE as int) <= req * r,
    ensures
        spec_rate_atomics(bonded - u, supply - req) >= r,
{
    let s = SCALE as int;
    lemma_mul_nonnegative(bonded, s);
    lemma_fundamental_div_mod(bonded * s, supply);
    lemma_remainder_lower(bonded * s, supply);
    assert(supply * r <= bonded * s);
    lemma_mul_is_distributive_sub(s, bonded, u);
    lemma_mul_is_commutative(s, bonded);
    lemma_mul_is_commutative(s, u);
    lemma_mul_is_commutative(s, bonded - u);
    lemma_mul_is_distributive_sub(r, supply, req);
    lemma_mul_is_commutative(r, supply);
    lemma_mul_is_commutative(r, req);
    assert(r * (supply - req) <= (bonded - u) * s);
    lemma_mul_is_commutative(r, supply - req);
    lemma_div_is_ordered(r * (supply - req), (bonded - u) * s, supply - req);
    lemma_div_multiples_vanish(r, supply - req);
}

/// A batch closure at the exact rounded-down underlying equivalent,
/// `floor(requested * rate)`, cannot lower the recomputed exchange rate.
pub proof fn lemma_rate_nondecreasing_after_batch_close(
    bonded: int,
    supply: int,
    req: int,
    r: int,
)
    requires
        0 < bonded,
        0 < supply,
        0 <= req < supply,
        0 <= r,
        (req * r) / (SCALE as int) < bonded,
        r == spec_rate_atomics(bonded, supply),
    ensures
        spec_rate_atomics(bonded - (req * r) / (SCALE as int), supply - req) >= r,
{
    let s = SCALE as int;
    let u = (req * r) / s;
    lemma_mul_nonnegative(req, r);
    vstd::arithmetic::div_mod::lemma_div_pos_is_pos(req * r, s);
    lemma_fundamental_div_mod(req * r, s);
    lemma_remainder_lower(req * r, s);
    assert(s * u <= req * r);
    lemma_mul_is_commutative(s, u);
    lemma_rate_nondecreasing_on_batch_close(bonded, supply, req, u, r);
}

} // verus!
