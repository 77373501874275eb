//! The unbond batch manager: accumulates burn requests into the open batch,
//! closes the batch once an epoch has passed (the closing batch absorbs the
//! requests that preceded the trigger; the triggering request opens the next
//! batch), and keeps the per-requester wait list in step with the batch
//! ledger.

use vstd::prelude::*;

use crate::contract::{
    addr_wait_amount, reconcile_fits, spec_reconciled_state, wait_sum, Hub, WaitListEntry,
};
use crate::error::ContractError;
use crate::hub::{
    spec_is_paused, AllHistoryResponse, Coin, CurrentBatch, State, UnbondHistory,
    UnbondHistoryResponse, UnbondRequestsResponse, UnbondWaitEntity, WithdrawableUnbondedResponse,
};
use crate::math::{mul_floor, Dec, SCALE};

verus! {

/// What an unbond call asks the chain to do: always burn the received
/// derivative tokens; additionally undelegate the closed batch's underlying
/// equivalent when this call closed a batch.
#[derive(Clone, Copy, Debug, PartialEq, Eq, Structural)]
pub struct UnbondReceipt {
    pub burn_amount: u128,
    pub undelegate_amount: Option<u128>,
}

pub proof fn lemma_wait_sum_push(s: Seq<WaitListEntry>, e: WaitListEntry, b: u64)
    ensures
        wait_sum(s.push(e), b) == wait_sum(s, b) + if e.batch_id == b {
            e.statom_amount as int
        } else {
            0
        },
{
    assert(s.push(e).drop_last() =~= s);
    assert(s.push(e).last() == e);
}

pub proof fn lemma_addr_wait_push(s: Seq<WaitListEntry>, e: WaitListEntry, b: u64, a: Seq<char>)
    ensures
        addr_wait_amount(s.push(e), b, a) == addr_wait_amount(s, b, a) + if e.batch_id == b
            && e.address@ == a {
            e.statom_amount as int
        } else {
            0
        },
{
    assert(s.push(e).drop_last() =~= s);
    assert(s.push(e).last() == e);
}

pub proof fn lemma_wait_sum_update(s: Seq<WaitListEntry>, j: int, e: WaitListEntry, b: u64)
    requires
        0 <= j < s.len(),
    ensures
        wait_sum(s.update(j, e), b) == wait_sum(s, b) - (if s[j].batch_id == b {
            s[j].statom_amount as int
        } else {
            0
        }) + (if e.batch_id == b {
            e.statom_amount as int
        } else {
            0
        }),
    decreases s.len(),
{
    if j == s.len() - 1 {
        assert(s.update(j, e).drop_last() =~= s.drop_last());
        assert(s.update(j, e).last() == e);
    } else {
        assert(s.update(j, e).drop_last() =~= s.drop_last().update(j, e));
        assert(s.update(j, e).last() == s.last());
        lemma_wait_sum_update(s.drop_last(), j, e, b);
    }
}

pub proof fn lemma_addr_wait_update(
    s: Seq<WaitListEntry>,
    j: int,
    e: WaitListEntry,
    b: u64,
    a: Seq<char>,
)
    requires
        0 <= j < s.len(),
    ensures
        addr_wait_amount(s.update(j, e), b, a) == addr_wait_amount(s, b, a) - (if s[j].batch_id
            == b && s[j].address@ == a {
            s[j].statom_amount as int
        } else {
            0
        }) + (if e.batch_id == b && e.address@ == a {
            e.statom_amount as int
        } else {
            0
        }),
    decreases s.len(),
{
    if j == s.len() - 1 {
        assert(s.update(j, e).drop_last() =~= s.drop_last());
        assert(s.update(j, e).last() == e);
    } else {
        assert(s.update(j, e).drop_last() =~= s.drop_last().update(j, e));
        assert(s.update(j, e).last() == s.last());
        lemma_addr_wait_update(s.drop_last(), j, e, b, a);
    }
}

/// A batch no entry belongs to carries no wait-list liability.
pub proof fn lemma_wait_sum_absent(s: Seq<WaitListEntry>, b: u64)
    requires
        forall|j: int| 0 <= j < s.len() ==> (#[trigger] s[j]).batch_id != b,
    ensures
        wait_sum(s, b) == 0,
    decreases s.len(),
{
    if s.len() > 0 {
        assert(forall|j: int|
            0 <= j < s.drop_last().len() ==> (#[trigger] s.drop_last()[j]).batch_id != b);
        lemma_wait_sum_absent(s.drop_last(), b);
    }
}

/// With unique wait-list keys, a requester's claim on batch `b` is the
/// amount of their single entry, or zero when they have none.
pub proof fn lemma_addr_wait_entry(s: Seq<WaitListEntry>, j: int, b: u64, a: Seq<char>)
    requires
        forall|p: int, q: int|
            0 <= p < q < s.len() ==> !((#[trigger] s[p]).batch_id == (#[trigger] s[q]).batch_id
                && s[p].address@ == s[q].address@),
        0 <= j < s.len(),
        s[j].batch_id == b,
        s[j].address@ == a,
    ensures
        addr_wait_amount(s, b, a) == s[j].statom_amount as int,
    decreases s.len(),
{
    if j == s.len() - 1 {
        lemma_addr_wait_absent(s.drop_last(), b, a);
    } else {
        lemma_addr_wait_entry(s.drop_last(), j, b, a);
    }
}

pub proof fn lemma_addr_wait_absent(s: Seq<WaitListEntry>, b: u64, a: Seq<char>)
    requires
        forall|j: int|
            0 <= j < s.len() ==> !((#[trigger] s[j]).batch_id == b && s[j].address@ == a),
    ensures
        addr_wait_amount(s, b, a) == 0,
    decreases s.len(),
{
    if s.len() > 0 {
        lemma_addr_wait_absent(s.drop_last(), b, a);
    }
}

/// Index of the wait-list entry keyed by `(b, addr)`, if one exists.
fn find_wait_index(list: &Vec<WaitListEntry>, b: u64, addr: &String) -> (r: Option<usize>)
    ensures
        r matches Some(j) ==> j < list@.len() && list@[j as int].batch_id == b && list@[
            j as int
        ].address@ == addr@,
        r is None ==> forall|j: int|
            0 <= j < list@.len() ==> !((#[trigger] list@[j]).batch_id == b && list@[j].address@
                == addr@),
{
    let n = list.len();
    for i in 0..n
        invariant
            n == list@.len(),
            forall|j: int|
                0 <= j < i ==> !((#[trigger] list@[j]).batch_id == b && list@[j].address@
                    == addr@),
    {
        if list[i].batch_id == b && list[i].address == *addr {
            return Some(i);
        }
    }
    None
}

/// Whether an unbond call at `now` closes the open batch before folding the
/// triggering request into the next one.
pub open spec fn spec_close_condition(
    state: State,
    batch: CurrentBatch,
    epoch_period: u64,
    now: u64,
) -> bool {
    now >= state.last_unbonded_time + epoch_period && batch.requested_statom > 0
}

/// floor(requested * applied_rate): the underlying equivalent undelegated
/// for a closing batch.
pub open spec fn spec_undelegate_amount(requested: u128, applied: Dec) -> int {
    (requested * applied.atomics) / (SCALE as int)
}

/// Whether the checked arithmetic of the closing step fits: the
/// underlying equivalent's product, the write-down of the bonded total, and
/// the next batch id.
pub open spec fn spec_close_fits(s1: State, batch: CurrentBatch) -> bool {
    &&& batch.requested_statom * s1.statom_exchange_rate.atomics <= u128::MAX
    &&& spec_undelegate_amount(batch.requested_statom, s1.statom_exchange_rate)
        <= s1.total_bond_statom_amount
    &&& batch.id + 1 <= u64::MAX
}

/// Burn `amount` derivative tokens for `sender`. `delegations` and
/// `total_statom_issued` are the externally observed delegation coins and
/// derivative supply: the slashing detector reconciles against them first.
/// The call then closes the open batch if an epoch has passed since the
/// last closure and it holds requests, folds the request into the (possibly
/// fresh) open batch, and coalesces it into the sender's wait-list entry
/// for that batch.
/// On any error the hub is left untouched.
pub fn execute_unbond_statom(
    hub: &mut Hub,
    now: u64,
    amount: u128,
    sender: String,
    delegations: &Vec<Coin>,
    total_statom_issued: u128,
) -> (r: Result<UnbondReceipt, ContractError>)
    requires
        old(hub).wf(),
    ensures
        final(hub).wf(),
        final(hub).config == old(hub).config,
        final(hub).parameters == old(hub).parameters,
        final(hub).guardians == old(hub).guardians,
        r is Err ==> *final(hub) == *old(hub),
        spec_is_paused(old(hub).parameters) ==> r == Err::<UnbondReceipt, ContractError>(
            ContractError::Paused,
        ),
        !spec_is_paused(old(hub).parameters) && !reconcile_fits(
            old(hub).state,
            old(hub).parameters.underlying_coin_denom@,
            delegations@,
            total_statom_issued,
            old(hub).current_batch.requested_statom,
        ) ==> r == Err::<UnbondReceipt, ContractError>(ContractError::Arithmetic),
        ({
            let s1 = spec_reconciled_state(
                old(hub).state,
                old(hub).parameters.underlying_coin_denom@,
                delegations@,
                total_statom_issued,
                old(hub).current_batch.requested_statom,
            );
            let closed = spec_close_condition(
                s1,
                old(hub).current_batch,
                old(hub).parameters.epoch_period,
                now,
            );
            let fold_requested: int = if closed {
                amount as int
            } else {
                old(hub).current_batch.requested_statom + amount
            };
            let fold_id: int = if closed {
                old(hub).current_batch.id + 1
            } else {
                old(hub).current_batch.id as int
            };
            &&& (!spec_is_paused(old(hub).parameters) && reconcile_fits(
                old(hub).state,
                old(hub).parameters.underlying_coin_denom@,
                delegations@,
                total_statom_issued,
                old(hub).current_batch.requested_statom,
            ) ==> {
                let entry_ok = fold_requested <= u128::MAX && addr_wait_amount(
                    old(hub).wait_list@,
                    fold_id as u64,
                    sender@,
                ) + amount <= u128::MAX;
                let close_ok = !closed || spec_close_fits(s1, old(hub).current_batch);
                &&& (r is Ok <==> close_ok && entry_ok)
                &&& (r is Err ==> r == Err::<UnbondReceipt, ContractError>(
                    ContractError::Arithmetic,
                ))
            })
            &&& (r matches Ok(receipt) ==> {
                let u = spec_undelegate_amount(
                    old(hub).current_batch.requested_statom,
                    s1.statom_exchange_rate,
                );
                &&& receipt.burn_amount == amount
                &&& receipt.undelegate_amount == (if closed {
                    Some(u as u128)
                } else {
                    None::<u128>
                })
                &&& final(hub).current_batch.id == fold_id
                &&& final(hub).current_batch.requested_statom == fold_requested
                &&& final(hub).unbond_history@ == (if closed {
                    old(hub).unbond_history@.push(
                        UnbondHistory {
                            batch_id: old(hub).current_batch.id,
                            time: now,
                            statom_amount: old(hub).current_batch.requested_statom,
                            statom_applied_exchange_rate: s1.statom_exchange_rate,
                            statom_withdraw_rate: Dec { atomics: 0 },
                            released: false,
                        },
                    )
                } else {
                    old(hub).unbond_history@
                })
                &&& final(hub).state == (State {
                    total_bond_statom_amount: (if closed {
                        (s1.total_bond_statom_amount - u) as u128
                    } else {
                        s1.total_bond_statom_amount
                    }),
                    last_unbonded_time: (if closed {
                        now
                    } else {
                        s1.last_unbonded_time
                    }),
                    ..s1
                })
                &&& addr_wait_amount(final(hub).wait_list@, fold_id as u64, sender@)
                    == addr_wait_amount(old(hub).wait_list@, fold_id as u64, sender@) + amount
                &&& forall|b: u64, a: Seq<char>|
                    !(b == fold_id as u64 && a == sender@) ==> #[trigger] addr_wait_amount(
                        final(hub).wait_list@,
                        b,
                        a,
                    ) == addr_wait_amount(old(hub).wait_list@, b, a)
            })
        }),
{
    if crate::hub::is_paused(&hub.parameters) {
        return Err(ContractError::Paused);
    }
    let s1 = match crate::contract::query_actual_state(
        &hub.state,
        &hub.parameters,
        &hub.current_batch,
        delegations,
        total_statom_issued,
    ) {
        Ok(s) => s,
        Err(e) => {
            return Err(e);
        },
    };
    let closed: bool = (now as u128) >= (s1.last_unbonded_time as u128) + (
    hub.parameters.epoch_period as u128) && hub.current_batch.requested_statom > 0;

    let mut s2 = s1;
    let mut undelegate_amount: Option<u128> = None;
    let mut new_id = hub.current_batch.id;
    if closed {
        let u = match mul_floor(hub.current_batch.requested_statom, s1.statom_exchange_rate) {
            Some(v) => v,
            None => {
                return Err(ContractError::Arithmetic);
            },
        };
        let bonded2 = match s1.total_bond_statom_amount.checked_sub(u) {
            Some(b) => b,
            None => {
                return Err(ContractError::Arithmetic);
            },
        };
        new_id = match hub.current_batch.id.checked_add(1) {
            Some(i) => i,
            None => {
                return Err(ContractError::Arithmetic);
            },
        };
        s2.total_bond_statom_amount = bonded2;
        s2.last_unbonded_time = now;
        undelegate_amount = Some(u);
    }
    let base_requested: u128 = if closed {
        0
    } else {
        hub.current_batch.requested_statom
    };
    let new_requested = match base_requested.checked_add(amount) {
        Some(v) => v,
        None => {
            return Err(ContractError::Arithmetic);
        },
    };
    let found = find_wait_index(&hub.wait_list, new_id, &sender);
    let entry_amount: u128 = match found {
        Some(j) => {
            proof {
                lemma_addr_wait_entry(hub.wait_list@, found.unwrap() as int, new_id, sender@);
            }
            match hub.wait_list[j].statom_amount.checked_add(amount) {
                Some(v) => v,
                None => {
                    return Err(ContractError::Arithmetic);
                },
            }
        },
        None => {
            proof {
                lemma_addr_wait_absent(hub.wait_list@, new_id, sender@);
            }
            amount
        },
    };
    // every check passed: commit
    let ghost wait0 = hub.wait_list@;
    let ghost hist0 = hub.unbond_history@;
    let ghost batch0 = hub.current_batch;
    if closed {
        hub.unbond_history.push(
            UnbondHistory {
                batch_id: hub.current_batch.id,
                time: now,
                statom_amount: hub.current_batch.requested_statom,
                statom_applied_exchange_rate: s1.statom_exchange_rate,
                statom_withdraw_rate: Dec { atomics: 0 },
                released: false,
            },
        );
    }
    hub.state = s2;
    hub.current_batch = CurrentBatch { id: new_id, requested_statom: new_requested };
    let new_entry = WaitListEntry { batch_id: new_id, address: sender, statom_amount: entry_amount };
    match found {
        Some(j) => {
            hub.wait_list.set(j, new_entry);
            proof {
                let ghost j_ = j as int;
                assert forall|b: u64, a: Seq<char>| true implies #[trigger] addr_wait_amount(
                    hub.wait_list@,
                    b,
                    a,
                ) == addr_wait_amount(wait0, b, a) + (if b == new_id && a == sender@ {
                    amount as int
                } else {
                    0
                }) by {
                    lemma_addr_wait_update(wait0, j_, new_entry, b, a);
                }
                assert forall|b: u64| true implies #[trigger] wait_sum(hub.wait_list@, b)
                    == wait_sum(wait0, b) + (if b == new_id {
                    amount as int
                } else {
                    0
                }) by {
                    lemma_wait_sum_update(wait0, j_, new_entry, b);
                }
            }
        },
        None => {
            hub.wait_list.push(new_entry);
            proof {
                assert forall|b: u64, a: Seq<char>| true implies #[trigger] addr_wait_amount(
                    hub.wait_list@,
                    b,
                    a,
                ) == addr_wait_amount(wait0, b, a) + (if b == new_id && a == sender@ {
                    amount as int
                } else {
                    0
                }) by {
                    lemma_addr_wait_push(wait0, new_entry, b, a);
                    if b == new_id && a == sender@ {
                        lemma_addr_wait_absent(wait0, b, a);
                    }
                }
                assert forall|b: u64| true implies #[trigger] wait_sum(hub.wait_list@, b)
                    == wait_sum(wait0, b) + (if b == new_id {
                    new_entry.statom_amount as int
                } else {
                    0
                }) by {
                    lemma_wait_sum_push(wait0, new_entry, b);
                }
            }
        },
    }
    proof {
        if closed {
            lemma_wait_sum_absent(wait0, new_id);
            assert(hub.unbond_history@ == hist0.push(
                UnbondHistory {
                    batch_id: batch0.id,
                    time: now,
                    statom_amount: batch0.requested_statom,
                    statom_applied_exchange_rate: s1.statom_exchange_rate,
                    statom_withdraw_rate: Dec { atomics: 0 },
                    released: false,
                },
            ));
        }
    }
    Ok(UnbondReceipt { burn_amount: amount, undelegate_amount })
}

/// The wait-list claim of `address` in batch `batch_id`, if any.
pub fn read_unbond_wait_list(hub: &Hub, batch_id: u64, address: String) -> (r: Option<
    UnbondWaitEntity,
>)
    requires
        hub.wf(),
    ensures
        r matches Some(e) ==> e.statom_amount == addr_wait_amount(
            hub.wait_list@,
            batch_id,
            address@,
        ),
        r is None ==> addr_wait_amount(hub.wait_list@, batch_id, address@) == 0,
{
    match find_wait_index(&hub.wait_list, batch_id, &address) {
        Some(j) => {
            proof {
                lemma_addr_wait_entry(hub.wait_list@, j as int, batch_id, address@);
            }
            Some(UnbondWaitEntity { statom_amount: hub.wait_list[j].statom_amount })
        },
        None => {
            proof {
                lemma_addr_wait_absent(hub.wait_list@, batch_id, address@);
            }
            None
        },
    }
}

/// A closed batch has passed its unbonding wait at `now`.
pub open spec fn spec_matured(h: UnbondHistory, unbonding_period: u64, now: u64) -> bool {
    h.time + unbonding_period <= now
}

/// A batch to be settled: matured and not yet released.
pub open spec fn spec_maturable(h: UnbondHistory, unbonding_period: u64, now: u64) -> bool {
    !h.released && spec_matured(h, unbonding_period, now)
}

/// The total promised to the maturable batches:
/// Σ floor(requested × applied_rate).
pub open spec fn spec_promised_total(hist: Seq<UnbondHistory>, period: u64, now: u64) -> int
    decreases hist.len(),
{
    if hist.len() == 0 {
        0
    } else {
        spec_promised_total(hist.drop_last(), period, now) + if spec_maturable(
            hist.last(),
            period,
            now,
        ) {
            spec_undelegate_amount(
                hist.last().statom_amount,
                hist.last().statom_applied_exchange_rate,
            )
        } else {
            0
        }
    }
}

proof fn lemma_promised_take_step(hist: Seq<UnbondHistory>, period: u64, now: u64, i: int)
    requires
        0 <= i < hist.len(),
    ensures
        spec_promised_total(hist.take(i + 1), period, now) == spec_promised_total(
            hist.take(i),
            period,
            now,
        ) + if spec_maturable(hist[i], period, now) {
            spec_undelegate_amount(hist[i].statom_amount, hist[i].statom_applied_exchange_rate)
        } else {
            0
        },
{
    assert(hist.take(i + 1).drop_last() =~= hist.take(i));
    assert(hist.take(i + 1).last() == hist[i]);
}

proof fn lemma_promised_total_take_le(hist: Seq<UnbondHistory>, period: u64, now: u64, i: int)
    requires
        0 <= i <= hist.len(),
    ensures
        spec_promised_total(hist.take(i), period, now) <= spec_promised_total(hist, period, now),
    decreases hist.len() - i,
{
    if i < hist.len() {
        lemma_promised_take_step(hist, period, now, i);
        lemma_promised_total_take_le(hist, period, now, i + 1);
    } else {
        assert(hist.take(i) =~= hist);
    }
}

/// The shared shortfall ratio: min(1, available / promised), rounded down to
/// an atomic unit.
pub open spec fn spec_settle_factor(available: int, promised: int) -> Dec {
    if promised == 0 || available >= promised {
        Dec { atomics: SCALE }
    } else {
        Dec { atomics: ((available * (SCALE as int)) / promised) as u128 }
    }
}

/// A record as the settlement releases it: the withdraw rate is the applied
/// rate scaled by the shared factor, and the record is released for good.
pub open spec fn spec_released_record(h: UnbondHistory, factor: Dec) -> UnbondHistory {
    UnbondHistory {
        statom_withdraw_rate: Dec {
            atomics: ((h.statom_applied_exchange_rate.atomics * factor.atomics) / (
            SCALE as int)) as u128,
        },
        released: true,
        ..h
    }
}

/// The history after settlement: every maturable record released at the
/// factor-scaled rate, every other record untouched.
pub open spec fn spec_settled_history(
    hist: Seq<UnbondHistory>,
    period: u64,
    now: u64,
    factor: Dec,
) -> Seq<UnbondHistory> {
    Seq::new(
        hist.len(),
        |i: int|
            if spec_maturable(hist[i], period, now) {
                spec_released_record(hist[i], factor)
            } else {
                hist[i]
            },
    )
}

/// Whether batch `b` is recorded and released in `hist` (record of batch `b`
/// sits at index `b - 1`).
pub open spec fn spec_batch_released(hist: Seq<UnbondHistory>, b: u64) -> bool {
    1 <= b <= hist.len() && hist[b - 1].released
}

/// What one wait-list entry pays at the rates in `hist`:
/// floor(amount × withdraw_rate) of its batch, or nothing while the batch is
/// unreleased.
pub open spec fn spec_entry_payout(e: WaitListEntry, hist: Seq<UnbondHistory>) -> int {
    if spec_batch_released(hist, e.batch_id) {
        (e.statom_amount * hist[e.batch_id - 1].statom_withdraw_rate.atomics) / (SCALE as int)
    } else {
        0
    }
}

/// The aggregate a requester collects: the sum of their wait-list claims
/// over all released batches, at each batch's fixed withdraw rate.
pub open spec fn spec_user_payout(
    s: Seq<WaitListEntry>,
    hist: Seq<UnbondHistory>,
    addr: Seq<char>,
) -> int
    decreases s.len(),
{
    if s.len() == 0 {
        0
    } else {
        spec_user_payout(s.drop_last(), hist, addr) + if s.last().address@ == addr {
            spec_entry_payout(s.last(), hist)
        } else {
            0
        }
    }
}

proof fn lemma_user_payout_take_step(
    s: Seq<WaitListEntry>,
    hist: Seq<UnbondHistory>,
    addr: Seq<char>,
    i: int,
)
    requires
        0 <= i < s.len(),
    ensures
        spec_user_payout(s.take(i + 1), hist, addr) == spec_user_payout(s.take(i), hist, addr)
            + if s[i].address@ == addr {
            spec_entry_payout(s[i], hist)
        } else {
            0
        },
{
    assert(s.take(i + 1).drop_last() =~= s.take(i));
    assert(s.take(i + 1).last() == s[i]);
}

proof fn lemma_user_payout_take_le(
    s: Seq<WaitListEntry>,
    hist: Seq<UnbondHistory>,
    addr: Seq<char>,
    i: int,
)
    requires
        0 <= i <= s.len(),
    ensures
        spec_user_payout(s.take(i), hist, addr) <= spec_user_payout(s, hist, addr),
    decreases s.len() - i,
{
    if i < s.len() {
        lemma_user_payout_take_step(s, hist, addr, i);
        lemma_user_payout_take_le(s, hist, addr, i + 1);
    } else {
        assert(s.take(i) =~= s);
    }
}

/// The wait list after a requester's settlement: their entries in released
/// batches are removed; everything else stays, in order.
pub open spec fn spec_remaining_wait(
    s: Seq<WaitListEntry>,
    hist: Seq<UnbondHistory>,
    addr: Seq<char>,
) -> Seq<WaitListEntry>
    decreases s.len(),
{
    if s.len() == 0 {
        Seq::empty()
    } else {
        let rest = spec_remaining_wait(s.drop_last(), hist, addr);
        if s.last().address@ == addr && spec_batch_released(hist, s.last().batch_id) {
            rest
        } else {
            rest.push(s.last())
        }
    }
}

/// Whether the wait list holds an entry keyed `(b, a)`.
pub open spec fn has_wait_key(s: Seq<WaitListEntry>, b: u64, a: Seq<char>) -> bool {
    exists|j: int|
        0 <= j < s.len() && (#[trigger] s[j]).batch_id == b && s[j].address@ == a
}

/// Scaling by a factor of at most one never enlarges an amount.
proof fn lemma_scale_le(a: u128, f: u128)
    requires
        f <= SCALE,
    ensures
        0 <= ((a as int) * (f as int)) / (SCALE as int) <= a,
{
    vstd::arithmetic::mul::lemma_mul_inequality(f as int, SCALE as int, a as int);
    vstd::arithmetic::div_mod::lemma_div_is_ordered(
        (a as int) * (f as int),
        (a as int) * (SCALE as int),
        SCALE as int,
    );
    vstd::arithmetic::div_mod::lemma_div_multiples_vanish(a as int, SCALE as int);
    vstd::arithmetic::div_mod::lemma_div_pos_is_pos((a as int) * (f as int), SCALE as int);
    vstd::arithmetic::mul::lemma_mul_nonnegative(a as int, f as int);
}

/// Whether each maturable batch's promised amount, and their sum, fit in a
/// `u128`.
pub open spec fn spec_promised_fits(hist: Seq<UnbondHistory>, period: u64, now: u64) -> bool {
    &&& forall|i: int|
        0 <= i < hist.len() && spec_maturable(#[trigger] hist[i], period, now) ==> hist[
            i
        ].statom_amount * hist[i].statom_applied_exchange_rate.atomics <= u128::MAX
    &&& spec_promised_total(hist, period, now) <= u128::MAX
}

/// Whether the factor's ratio and each scaled withdraw rate fit in a `u128`.
pub open spec fn spec_rates_fit(
    hist: Seq<UnbondHistory>,
    period: u64,
    now: u64,
    available: int,
    promised: int,
) -> bool {
    &&& (available < promised ==> available * SCALE <= u128::MAX)
    &&& forall|i: int|
        0 <= i < hist.len() && spec_maturable(#[trigger] hist[i], period, now) ==> hist[
            i
        ].statom_applied_exchange_rate.atomics * spec_settle_factor(
            available,
            promised,
        ).atomics <= u128::MAX
}

/// Whether each settled claim's product, and the aggregate payout, fit in a
/// `u128`.
pub open spec fn spec_payout_fits(
    s: Seq<WaitListEntry>,
    hist: Seq<UnbondHistory>,
    addr: Seq<char>,
) -> bool {
    &&& forall|j: int|
        0 <= j < s.len() && (#[trigger] s[j]).address@ == addr && spec_batch_released(
            hist,
            s[j].batch_id,
        ) ==> s[j].statom_amount * hist[s[j].batch_id - 1].statom_withdraw_rate.atomics
            <= u128::MAX
    &&& spec_user_payout(s, hist, addr) <= u128::MAX
}

/// Settle and withdraw for `sender`. All batches past their unbonding wait
/// are released at `applied_rate × min(1, available / promised)` — one shared
/// factor, so a shortfall caused by slashing during the wait is borne
/// proportionally by every maturing batch, and a released rate is never
/// recomputed. The sender then collects their claims over all released
/// batches and those claims are removed. Fails — leaving the hub untouched —
/// when nothing has matured, when the sender has nothing to collect, or on an
/// arithmetic fault.
#[verifier::rlimit(60)]
pub fn execute_withdraw_unbonded(hub: &mut Hub, now: u64, sender: String, hub_balance: u128) -> (r:
    Result<u128, ContractError>)
    requires
        old(hub).wf(),
    ensures
        final(hub).wf(),
        final(hub).config == old(hub).config,
        final(hub).parameters == old(hub).parameters,
        final(hub).guardians == old(hub).guardians,
        final(hub).current_batch == old(hub).current_batch,
        r is Err ==> *final(hub) == *old(hub),
        spec_is_paused(old(hub).parameters) ==> r == Err::<u128, ContractError>(
            ContractError::Paused,
        ),
        ({
            let hist0 = old(hub).unbond_history@;
            let period = old(hub).parameters.unbonding_period;
            let promised = spec_promised_total(hist0, period, now);
            let available: int = if hub_balance >= old(hub).state.prev_hub_balance {
                hub_balance - old(hub).state.prev_hub_balance
            } else {
                0
            };
            let factor = spec_settle_factor(available, promised);
            let hist1 = spec_settled_history(hist0, period, now, factor);
            let payout = spec_user_payout(old(hub).wait_list@, hist1, sender@);
            let any_maturable = exists|i: int|
                0 <= i < hist0.len() && spec_maturable(#[trigger] hist0[i], period, now);
            &&& (!spec_is_paused(old(hub).parameters) && !any_maturable ==> r == Err::<
                u128,
                ContractError,
            >(ContractError::NothingWithdrawableYet))
            &&& (!spec_is_paused(old(hub).parameters) && any_maturable ==> {
                let fits = spec_promised_fits(hist0, period, now) && spec_rates_fit(
                    hist0,
                    period,
                    now,
                    available,
                    promised,
                ) && spec_payout_fits(old(hub).wait_list@, hist1, sender@);
                &&& (!fits ==> r == Err::<u128, ContractError>(ContractError::Arithmetic))
                &&& (fits && payout == 0 ==> r == Err::<u128, ContractError>(
                    ContractError::NoWithdrawableAssets,
                ))
                &&& (fits && payout > hub_balance ==> r == Err::<u128, ContractError>(
                    ContractError::Arithmetic,
                ))
                &&& (fits && 0 < payout <= hub_balance ==> {
                    &&& r == Ok::<u128, ContractError>(payout as u128)
                    &&& final(hub).unbond_history@ == hist1
                    &&& final(hub).wait_list@ == spec_remaining_wait(
                        old(hub).wait_list@,
                        hist1,
                        sender@,
                    )
                    &&& final(hub).state.prev_hub_balance == hub_balance - payout
                    &&& final(hub).state.statom_exchange_rate == old(hub).state.statom_exchange_rate
                    &&& final(hub).state.total_bond_statom_amount == old(hub).state.total_bond_statom_amount
                    &&& final(hub).state.total_statom_issued == old(hub).state.total_statom_issued
                    &&& final(hub).state.last_unbonded_time == old(hub).state.last_unbonded_time
                    &&& (forall|i: int|
                        0 <= i < final(hub).state.last_processed_batch ==> (
                        #[trigger] final(hub).unbond_history@[i]).released)
                    &&& (final(hub).state.last_processed_batch == final(hub).unbond_history@.len() || !final(hub).unbond_history@[final(hub).state.last_processed_batch as int].released)
                    &&& (forall|i: int|
                        0 <= i < hist0.len() && hist0[i].released ==> #[trigger] final(hub).unbond_history@[i] == hist0[i])
                    &&& (forall|i: int|
                        0 <= i < hist0.len() && spec_maturable(#[trigger] hist0[i], period, now)
                            ==> final(hub).unbond_history@[i].released && final(hub).unbond_history@[i].statom_withdraw_rate.atomics <= hist0[
                            i
                        ].statom_applied_exchange_rate.atomics)
                })
            })
        }),
{
    if crate::hub::is_paused(&hub.parameters) {
        return Err(ContractError::Paused);
    }
    let ghost hist0 = hub.unbond_history@;
    let period = hub.parameters.unbonding_period;
    let n = hub.unbond_history.len();

    // first pass: the promised total over maturable batches
    let mut promised: u128 = 0;
    let mut any_maturable: bool = false;
    for i in 0..n
        invariant
            *hub == *old(hub),
            old(hub).wf(),
            !spec_is_paused(old(hub).parameters),
            n == hist0.len(),
            hub.unbond_history@ == hist0,
            period == old(hub).parameters.unbonding_period,
            promised == spec_promised_total(hist0.take(i as int), period, now),
            any_maturable <==> exists|k: int|
                0 <= k < i && spec_maturable(#[trigger] hist0[k], period, now),
            forall|k: int|
                0 <= k < i && spec_maturable(#[trigger] hist0[k], period, now) ==> hist0[
                    k
                ].statom_amount * hist0[k].statom_applied_exchange_rate.atomics <= u128::MAX,
    {
        proof {
            lemma_promised_take_step(hist0, period, now, i as int);
        }
        let h = hub.unbond_history[i];
        let matured = (h.time as u128) + (period as u128) <= (now as u128);
        if !h.released && matured {
            any_maturable = true;
            let term = match mul_floor(h.statom_amount, h.statom_applied_exchange_rate) {
                Some(t) => t,
                None => {
                    return Err(ContractError::Arithmetic);
                },
            };
            promised = match promised.checked_add(term) {
                Some(p) => p,
                None => {
                    proof {
                        lemma_promised_total_take_le(hist0, period, now, i + 1);
                    }
                    return Err(ContractError::Arithmetic);
                },
            };
        }
    }
    proof {
        assert(hist0.take(n as int) =~= hist0);
    }
    if !any_maturable {
        return Err(ContractError::NothingWithdrawableYet);
    }

    // the shared shortfall factor
    let available: u128 = if hub_balance >= hub.state.prev_hub_balance {
        hub_balance - hub.state.prev_hub_balance
    } else {
        0
    };
    let factor: Dec = if available >= promised {
        Dec { atomics: SCALE }
    } else {
        match crate::math::dec_from_ratio(available, promised) {
            Some(f) => f,
            None => {
                return Err(ContractError::Arithmetic);
            },
        }
    };
    proof {
        if available < promised {
            vstd::arithmetic::div_mod::lemma_div_is_ordered(
                (available as int) * (SCALE as int),
                (promised as int) * (SCALE as int),
                promised as int,
            );
            vstd::arithmetic::mul::lemma_mul_inequality(
                available as int,
                promised as int,
                SCALE as int,
            );
            vstd::arithmetic::mul::lemma_mul_is_commutative(promised as int, SCALE as int);
            vstd::arithmetic::div_mod::lemma_div_multiples_vanish(
                SCALE as int,
                promised as int,
            );
        }
        assert(factor.atomics <= SCALE);
        assert(factor == spec_settle_factor(
            if hub_balance >= old(hub).state.prev_hub_balance {
                hub_balance - old(hub).state.prev_hub_balance
            } else {
                0
            },
            spec_promised_total(hist0, period, now),
        ));
    }

    // second pass: release every maturable batch at the scaled rate
    let mut new_hist: Vec<UnbondHistory> = Vec::new();
    let ghost hist1 = spec_settled_history(hist0, period, now, factor);
    for i in 0..n
        invariant
            *hub == *old(hub),
            old(hub).wf(),
            !spec_is_paused(old(hub).parameters),
            n == hist0.len(),
            hub.unbond_history@ == hist0,
            period == old(hub).parameters.unbonding_period,
            hist1 == spec_settled_history(hist0, period, now, factor),
            exists|k: int|
                0 <= k < hist0.len() && spec_maturable(#[trigger] hist0[k], period, now),
            factor == spec_settle_factor(
                if hub_balance >= old(hub).state.prev_hub_balance {
                    hub_balance - old(hub).state.prev_hub_balance
                } else {
                    0
                },
                spec_promised_total(hist0, period, now),
            ),
            factor.atomics <= SCALE,
            new_hist@.len() == i,
            forall|k: int| 0 <= k < i ==> new_hist@[k] == hist1[k],
            forall|k: int|
                0 <= k < i && spec_maturable(#[trigger] hist0[k], period, now) ==> hist0[
                    k
                ].statom_applied_exchange_rate.atomics * factor.atomics <= u128::MAX,
    {
        let h = hub.unbond_history[i];
        let matured = (h.time as u128) + (period as u128) <= (now as u128);
        if !h.released && matured {
            let wr = match crate::math::dec_mul_floor(h.statom_applied_exchange_rate, factor) {
                Some(w) => w,
                None => {
                    return Err(ContractError::Arithmetic);
                },
            };
            proof {
                lemma_scale_le(h.statom_applied_exchange_rate.atomics, factor.atomics);
            }
            new_hist.push(
                UnbondHistory { statom_withdraw_rate: wr, released: true, ..h },
            );
        } else {
            new_hist.push(h);
        }
    }
    proof {
        assert(new_hist@ =~= hist1);
    }

    // third pass: the sender's aggregate over all released batches
    let m = hub.wait_list.len();
    let ghost wait0 = hub.wait_list@;
    let mut payout: u128 = 0;
    for j in 0..m
        invariant
            *hub == *old(hub),
            old(hub).wf(),
            !spec_is_paused(old(hub).parameters),
            m == wait0.len(),
            hub.wait_list@ == wait0,
            hist0 == old(hub).unbond_history@,
            period == old(hub).parameters.unbonding_period,
            new_hist@ == hist1,
            hist1 == spec_settled_history(hist0, period, now, factor),
            exists|k: int|
                0 <= k < hist0.len() && spec_maturable(#[trigger] hist0[k], period, now),
            factor == spec_settle_factor(
                if hub_balance >= old(hub).state.prev_hub_balance {
                    hub_balance - old(hub).state.prev_hub_balance
                } else {
                    0
                },
                spec_promised_total(hist0, period, now),
            ),
            wait0 == old(hub).wait_list@,
            hist1.len() == n <= u64::MAX - 1,
            payout == spec_user_payout(wait0.take(j as int), hist1, sender@),
            forall|k: int|
                0 <= k < j && (#[trigger] wait0[k]).address@ == sender@ && spec_batch_released(
                    hist1,
                    wait0[k].batch_id,
                ) ==> wait0[k].statom_amount * hist1[wait0[k].batch_id
                    - 1].statom_withdraw_rate.atomics <= u128::MAX,
    {
        proof {
            lemma_user_payout_take_step(wait0, hist1, sender@, j as int);
        }
        let e_batch_id = hub.wait_list[j].batch_id;
        let e_amount = hub.wait_list[j].statom_amount;
        if hub.wait_list[j].address == sender && e_batch_id >= 1 && e_batch_id <= (n as u64) {
            let bidx: usize = (e_batch_id - 1) as usize;
            if new_hist[bidx].released {
                let term = match mul_floor(e_amount, new_hist[bidx].statom_withdraw_rate) {
                    Some(t) => t,
                    None => {
                        proof {
                            assert(spec_batch_released(hist1, wait0[j as int].batch_id));
                            assert(wait0[j as int].statom_amount * hist1[wait0[
                                j as int].batch_id - 1].statom_withdraw_rate.atomics
                                > u128::MAX);
                            assert(!spec_payout_fits(wait0, hist1, sender@));
                        }
                        return Err(ContractError::Arithmetic);
                    },
                };
                payout = match payout.checked_add(term) {
                    Some(p) => p,
                    None => {
                        proof {
                            lemma_user_payout_take_le(wait0, hist1, sender@, j + 1);
                            assert(spec_user_payout(wait0, hist1, sender@) > u128::MAX);
                            assert(!spec_payout_fits(wait0, hist1, sender@));
                        }
                        return Err(ContractError::Arithmetic);
                    },
                };
            }
        }
    }
    proof {
        assert(wait0.take(m as int) =~= wait0);
    }
    if payout == 0 {
        return Err(ContractError::NoWithdrawableAssets);
    }
    let new_prev = match hub_balance.checked_sub(payout) {
        Some(p) => p,
        None => {
            return Err(ContractError::Arithmetic);
        },
    };

    // fourth pass: drop the sender's settled claims
    let mut kept: Vec<WaitListEntry> = Vec::new();
    for j in 0..m
        invariant
            *hub == *old(hub),
            m == wait0.len(),
            hub.wait_list@ == wait0,
            period == old(hub).parameters.unbonding_period,
            new_hist@ == hist1,
            hist1.len() == n <= u64::MAX - 1,
            old(hub).wf(),
            wait0 == old(hub).wait_list@,
            kept@ == spec_remaining_wait(wait0.take(j as int), hist1, sender@),
            forall|b: u64, a: Seq<char>|
                #[trigger] has_wait_key(kept@, b, a) ==> has_wait_key(wait0.take(j as int), b, a),
            forall|p: int, q: int|
                0 <= p < q < kept@.len() ==> !((#[trigger] kept@[p]).batch_id == (
                #[trigger] kept@[q]).batch_id && kept@[p].address@ == kept@[q].address@),
            forall|p: int|
                0 <= p < kept@.len() ==> 1 <= (#[trigger] kept@[p]).batch_id <= old(hub).current_batch.id,
            forall|b: u64|
                !spec_batch_released(hist1, b) ==> #[trigger] wait_sum(kept@, b) == wait_sum(
                    wait0.take(j as int),
                    b,
                ),
    {
        proof {
            assert(wait0.take(j + 1).drop_last() =~= wait0.take(j as int));
            assert(wait0.take(j + 1).last() == wait0[j as int]);
        }
        let ghost pre = kept@;
        let e_batch_id = hub.wait_list[j].batch_id;
        let mut settled = false;
        if hub.wait_list[j].address == sender && e_batch_id >= 1 && e_batch_id <= (n as u64) {
            let bidx: usize = (e_batch_id - 1) as usize;
            if new_hist[bidx].released {
                settled = true;
            }
        }
        if !settled {
            kept.push(
                WaitListEntry {
                    batch_id: hub.wait_list[j].batch_id,
                    address: hub.wait_list[j].address.clone(),
                    statom_amount: hub.wait_list[j].statom_amount,
                },
            );
        }
        proof {
            let ej = wait0[j as int];
            if !settled {
                assert(kept@ == pre.push(ej));
                assert forall|b: u64, a: Seq<char>| #[trigger]
                    has_wait_key(kept@, b, a) implies has_wait_key(wait0.take(j + 1), b, a) by {
                    let w = choose|idx: int|
                        0 <= idx < kept@.len() && (#[trigger] kept@[idx]).batch_id == b
                            && kept@[idx].address@ == a;
                    if w < pre.len() {
                        assert(pre[w].batch_id == b && pre[w].address@ == a);
                        assert(has_wait_key(pre, b, a));
                        assert(has_wait_key(wait0.take(j as int), b, a));
                        let w3 = choose|idx: int|
                            0 <= idx < wait0.take(j as int).len() && (#[trigger] wait0.take(
                                j as int,
                            )[idx]).batch_id == b && wait0.take(j as int)[idx].address@ == a;
                        assert(wait0.take(j + 1)[w3].batch_id == b && wait0.take(j + 1)[
                            w3].address@ == a);
                    } else {
                        assert(wait0.take(j + 1)[j as int].batch_id == b && wait0.take(j + 1)[
                            j as int].address@ == a);
                    }
                }
                assert forall|p: int, q: int|
                    0 <= p < q < kept@.len() implies !((#[trigger] kept@[p]).batch_id == (
                #[trigger] kept@[q]).batch_id && kept@[p].address@ == kept@[q].address@) by {
                    if q == pre.len() as int {
                        if kept@[p].batch_id == ej.batch_id && kept@[p].address@ == ej.address@ {
                            assert(has_wait_key(pre, ej.batch_id, ej.address@));
                            let w2 = choose|idx: int|
                                0 <= idx < pre.len() && (#[trigger] pre[idx]).batch_id
                                    == ej.batch_id && pre[idx].address@ == ej.address@;
                            assert(has_wait_key(wait0.take(j as int), ej.batch_id, ej.address@));
                            let w3 = choose|idx: int|
                                0 <= idx < j && (#[trigger] wait0.take(j as int)[idx]).batch_id
                                    == ej.batch_id && wait0.take(j as int)[idx].address@
                                    == ej.address@;
                            assert(wait0[w3].batch_id == wait0[j as int].batch_id && wait0[
                                w3].address@ == wait0[j as int].address@);
                            assert(false);
                        }
                    }
                }
                assert forall|b: u64| !spec_batch_released(hist1, b) implies #[trigger] wait_sum(
                    kept@,
                    b,
                ) == wait_sum(wait0.take(j + 1), b) by {
                    lemma_wait_sum_push(pre, ej, b);
                    lemma_wait_sum_push(wait0.take(j as int), ej, b);
                    assert(wait0.take(j as int).push(ej) =~= wait0.take(j + 1));
                }
            } else {
                assert forall|b: u64| !spec_batch_released(hist1, b) implies #[trigger] wait_sum(
                    kept@,
                    b,
                ) == wait_sum(wait0.take(j + 1), b) by {
                    lemma_wait_sum_push(wait0.take(j as int), ej, b);
                    assert(wait0.take(j as int).push(ej) =~= wait0.take(j + 1));
                }
            }
        }
    }
    proof {
        assert(wait0.take(m as int) =~= wait0);
    }

    // how far the released prefix now reaches
    let mut lp: usize = 0;
    while lp < n && new_hist[lp].released
        invariant
            n == hist1.len() <= u64::MAX - 1,
            new_hist@ == hist1,
            lp <= n,
            forall|i: int| 0 <= i < lp ==> (#[trigger] hist1[i]).released,
        decreases n - lp,
    {
        lp = lp + 1;
    }

    // every check passed: commit
    let ghost keptv = kept@;
    hub.unbond_history = new_hist;
    hub.wait_list = kept;
    hub.state.prev_hub_balance = new_prev;
    hub.state.last_processed_batch = lp as u64;
    proof {
        let h1 = hub.unbond_history@;
        assert(h1 == hist1);
        assert(hub.wait_list@ == keptv);
        assert(wait0.take(m as int) =~= wait0);
        assert forall|i: int| 0 <= i < h1.len() implies (#[trigger] h1[i]).batch_id == i + 1 && (
        h1[i].released ==> h1[i].statom_withdraw_rate.atomics
            <= h1[i].statom_applied_exchange_rate.atomics) && (!h1[i].released ==> h1[
            i
        ].statom_withdraw_rate.atomics == 0) by {
            assert(hist0[i].batch_id == i + 1);
            if spec_maturable(hist0[i], period, now) {
                lemma_scale_le(hist0[i].statom_applied_exchange_rate.atomics, factor.atomics);
            }
        }
        assert(!spec_batch_released(hist1, hub.current_batch.id));
        assert(wait_sum(hub.wait_list@, hub.current_batch.id)
            == hub.current_batch.requested_statom);
        assert forall|i: int|
            0 <= i < h1.len() && !(#[trigger] h1[i]).released implies wait_sum(
            hub.wait_list@,
            (i + 1) as u64,
        ) == h1[i].statom_amount by {
            assert(hist1[i] == if spec_maturable(hist0[i], period, now) {
                spec_released_record(hist0[i], factor)
            } else {
                hist0[i]
            });
            assert(!hist0[i].released);
            assert(!spec_batch_released(hist1, (i + 1) as u64));
            assert(wait_sum(keptv, (i + 1) as u64) == wait_sum(wait0, (i + 1) as u64));
            assert(wait_sum(wait0, (i + 1) as u64) == hist0[i].statom_amount);
        }
    }
    Ok(payout)
}

/// The (batch id, amount) pairs of `addr`'s wait-list claims, in wait-list
/// order.
pub open spec fn spec_unbond_requests(s: Seq<WaitListEntry>, addr: Seq<char>) -> Seq<(u64, u128)>
    decreases s.len(),
{
    if s.len() == 0 {
        Seq::empty()
    } else {
        let rest = spec_unbond_requests(s.drop_last(), addr);
        if s.last().address@ == addr {
            rest.push((s.last().batch_id, s.last().statom_amount))
        } else {
            rest
        }
    }
}

/// All of `address`'s wait-list claims, as (batch id, amount) pairs in
/// wait-list order.
pub fn get_unbond_requests(hub: &Hub, address: &String) -> (r: Vec<(u64, u128)>)
    ensures
        r@ == spec_unbond_requests(hub.wait_list@, address@),
{
    let mut out: Vec<(u64, u128)> = Vec::new();
    let n = hub.wait_list.len();
    for i in 0..n
        invariant
            n == hub.wait_list@.len(),
            out@ == spec_unbond_requests(hub.wait_list@.take(i as int), address@),
    {
        proof {
            assert(hub.wait_list@.take(i + 1).drop_last() =~= hub.wait_list@.take(i as int));
            assert(hub.wait_list@.take(i + 1).last() == hub.wait_list@[i as int]);
        }
        if hub.wait_list[i].address == *address {
            out.push((hub.wait_list[i].batch_id, hub.wait_list[i].statom_amount));
        }
    }
    proof {
        assert(hub.wait_list@.take(n as int) =~= hub.wait_list@);
    }
    out
}

/// What one claim would pay if settlement ran now: matured batches count at
/// their withdraw rate once released, and at the promised applied rate while
/// unreleased — so the answer can overstate the true payout until a withdraw
/// call realises a shortfall. That asymmetry is deliberate.
pub open spec fn spec_entry_withdrawable(
    e: WaitListEntry,
    hist: Seq<UnbondHistory>,
    period: u64,
    now: u64,
) -> int {
    if 1 <= e.batch_id <= hist.len() && spec_matured(hist[e.batch_id - 1], period, now) {
        let rate = if hist[e.batch_id - 1].released {
            hist[e.batch_id - 1].statom_withdraw_rate
        } else {
            hist[e.batch_id - 1].statom_applied_exchange_rate
        };
        (e.statom_amount * rate.atomics) / (SCALE as int)
    } else {
        0
    }
}

/// The theoretical withdrawable total of one requester at `now`.
pub open spec fn spec_withdrawable(
    s: Seq<WaitListEntry>,
    hist: Seq<UnbondHistory>,
    period: u64,
    now: u64,
    addr: Seq<char>,
) -> int
    decreases s.len(),
{
    if s.len() == 0 {
        0
    } else {
        spec_withdrawable(s.drop_last(), hist, period, now, addr) + if s.last().address@ == addr {
            spec_entry_withdrawable(s.last(), hist, period, now)
        } else {
            0
        }
    }
}

proof fn lemma_withdrawable_take_step(
    s: Seq<WaitListEntry>,
    hist: Seq<UnbondHistory>,
    period: u64,
    now: u64,
    addr: Seq<char>,
    i: int,
)
    requires
        0 <= i < s.len(),
    ensures
        spec_withdrawable(s.take(i + 1), hist, period, now, addr) == spec_withdrawable(
            s.take(i),
            hist,
            period,
            now,
            addr,
        ) + if s[i].address@ == addr {
            spec_entry_withdrawable(s[i], hist, period, now)
        } else {
            0
        },
{
    assert(s.take(i + 1).drop_last() =~= s.take(i));
    assert(s.take(i + 1).last() == s[i]);
}

/// Whether the withdrawable query's checked arithmetic fits in a `u128`.
pub open spec fn spec_withdrawable_fits(
    s: Seq<WaitListEntry>,
    hist: Seq<UnbondHistory>,
    period: u64,
    now: u64,
    addr: Seq<char>,
) -> bool {
    &&& forall|j: int|
        0 <= j < s.len() && (#[trigger] s[j]).address@ == addr && 1 <= s[j].batch_id
            <= hist.len() && spec_matured(hist[s[j].batch_id - 1], period, now) ==> s[
            j
        ].statom_amount * (if hist[s[j].batch_id - 1].released {
            hist[s[j].batch_id - 1].statom_withdraw_rate
        } else {
            hist[s[j].batch_id - 1].statom_applied_exchange_rate
        }).atomics <= u128::MAX
    &&& spec_withdrawable(s, hist, period, now, addr) <= u128::MAX
}

/// The amount `address` could withdraw at `now`, computed over the
/// theoretical maturable set.
pub fn query_withdrawable_unbonded(hub: &Hub, address: String, now: u64) -> (r: Result<
    WithdrawableUnbondedResponse,
    ContractError,
>)
    ensures
        r is Ok <==> spec_withdrawable_fits(
            hub.wait_list@,
            hub.unbond_history@,
            hub.parameters.unbonding_period,
            now,
            address@,
        ),
        r matches Ok(resp) ==> resp.withdrawable == spec_withdrawable(
            hub.wait_list@,
            hub.unbond_history@,
            hub.parameters.unbonding_period,
            now,
            address@,
        ),
        r is Err ==> (r == Err::<WithdrawableUnbondedResponse, ContractError>(
            ContractError::Arithmetic,
        )),
{
    let period = hub.parameters.unbonding_period;
    let n = hub.unbond_history.len();
    let m = hub.wait_list.len();
    let ghost wait0 = hub.wait_list@;
    let ghost hist0 = hub.unbond_history@;
    let mut total: u128 = 0;
    for j in 0..m
        invariant
            m == wait0.len(),
            hub.wait_list@ == wait0,
            hub.unbond_history@ == hist0,
            n == hist0.len(),
            period == hub.parameters.unbonding_period,
            total == spec_withdrawable(wait0.take(j as int), hist0, period, now, address@),
            forall|k: int|
                0 <= k < j && (#[trigger] wait0[k]).address@ == address@ && 1 <= wait0[k].batch_id
                    <= hist0.len() && spec_matured(hist0[wait0[k].batch_id - 1], period, now)
                    ==> wait0[k].statom_amount * (if hist0[wait0[k].batch_id - 1].released {
                    hist0[wait0[k].batch_id - 1].statom_withdraw_rate
                } else {
                    hist0[wait0[k].batch_id - 1].statom_applied_exchange_rate
                }).atomics <= u128::MAX,
    {
        proof {
            lemma_withdrawable_take_step(wait0, hist0, period, now, address@, j as int);
        }
        let e_batch_id = hub.wait_list[j].batch_id;
        let e_amount = hub.wait_list[j].statom_amount;
        if hub.wait_list[j].address == address && e_batch_id >= 1 && e_batch_id <= (n as u64) {
            let bidx: usize = (e_batch_id - 1) as usize;
            let h = hub.unbond_history[bidx];
            if (h.time as u128) + (period as u128) <= (now as u128) {
                let rate = if h.released {
                    h.statom_withdraw_rate
                } else {
                    h.statom_applied_exchange_rate
                };
                let term = match mul_floor(e_amount, rate) {
                    Some(t) => t,
                    None => {
                        return Err(ContractError::Arithmetic);
                    },
                };
                total = match total.checked_add(term) {
                    Some(t) => t,
                    None => {
                        proof {
                            lemma_withdrawable_take_le(wait0, hist0, period, now, address@, j + 1);
                        }
                        return Err(ContractError::Arithmetic);
                    },
                };
            }
        }
    }
    proof {
        assert(wait0.take(m as int) =~= wait0);
    }
    Ok(WithdrawableUnbondedResponse { withdrawable: total })
}

proof fn lemma_withdrawable_take_le(
    s: Seq<WaitListEntry>,
    hist: Seq<UnbondHistory>,
    period: u64,
    now: u64,
    addr: Seq<char>,
    i: int,
)
    requires
        0 <= i <= s.len(),
    ensures
        spec_withdrawable(s.take(i), hist, period, now, addr) <= spec_withdrawable(
            s,
            hist,
            period,
            now,
            addr,
        ),
    decreases s.len() - i,
{
    if i < s.len() {
        lemma_withdrawable_take_step(s, hist, period, now, addr, i);
        lemma_withdrawable_take_le(s, hist, period, now, addr, i + 1);
    } else {
        assert(s.take(i) =~= s);
    }
}

/// When a page size is not given, ten records come back; no page exceeds a
/// hundred.
pub const DEFAULT_HISTORY_LIMIT: u32 = 10;

pub const MAX_HISTORY_LIMIT: u32 = 100;

/// One page of batch history: records of batches with ids above `start_from`
/// (none skipped when absent), at most `limit` of them.
pub fn all_unbond_history(hub: &Hub, start_from: Option<u64>, limit: Option<u32>) -> (r: Vec<
    UnbondHistory,
>)
    ensures
        ({
            let hist = hub.unbond_history@;
            let start: int = match start_from {
                Some(s) => s as int,
                None => 0,
            };
            let lim: int = match limit {
                Some(l) => if l > MAX_HISTORY_LIMIT {
                    MAX_HISTORY_LIMIT as int
                } else {
                    l as int
                },
                None => DEFAULT_HISTORY_LIMIT as int,
            };
            let lo: int = if start > hist.len() {
                hist.len() as int
            } else {
                start
            };
            let hi: int = if lo + lim > hist.len() {
                hist.len() as int
            } else {
                lo + lim
            };
            r@ == hist.subrange(lo, hi)
        }),
{
    let len = hub.unbond_history.len();
    let start_id: u64 = match start_from {
        Some(s) => s,
        None => 0,
    };
    let lim: u32 = match limit {
        Some(l) => if l > MAX_HISTORY_LIMIT {
            MAX_HISTORY_LIMIT
        } else {
            l
        },
        None => DEFAULT_HISTORY_LIMIT,
    };
    let lo: usize = if start_id > (len as u64) {
        len
    } else {
        start_id as usize
    };
    let hi: usize = if (lim as usize) > len - lo {
        len
    } else {
        lo + (lim as usize)
    };
    let mut out: Vec<UnbondHistory> = Vec::new();
    for i in lo..hi
        invariant
            lo <= i <= hi <= len,
            len == hub.unbond_history@.len(),
            out@ == hub.unbond_history@.subrange(lo as int, i as int),
    {
        out.push(hub.unbond_history[i]);
        proof {
            assert(out@ =~= hub.unbond_history@.subrange(lo as int, i + 1));
        }
    }
    out
}

/// The pending unbond requests of one requester.
pub fn query_unbond_requests(hub: &Hub, address: String) -> (r: UnbondRequestsResponse)
    ensures
        r.address@ == address@,
        r.requests@ == spec_unbond_requests(hub.wait_list@, address@),
{
    let requests = get_unbond_requests(hub, &address);
    UnbondRequestsResponse { address, requests }
}

/// One page of batch history, in response form.
pub fn query_unbond_requests_limitation(
    hub: &Hub,
    start: Option<u64>,
    limit: Option<u32>,
) -> (r: AllHistoryResponse)
    ensures
        ({
            let hist = hub.unbond_history@;
            let start_at: int = match start {
                Some(s) => s as int,
                None => 0,
            };
            let lim: int = match limit {
                Some(l) => if l > MAX_HISTORY_LIMIT {
                    MAX_HISTORY_LIMIT as int
                } else {
                    l as int
                },
                None => DEFAULT_HISTORY_LIMIT as int,
            };
            let lo: int = if start_at > hist.len() {
                hist.len() as int
            } else {
                start_at
            };
            let hi: int = if lo + lim > hist.len() {
                hist.len() as int
            } else {
                lo + lim
            };
            &&& r.history@.len() == hi - lo
            &&& forall|i: int|
                0 <= i < hi - lo ==> #[trigger] r.history@[i] == (UnbondHistoryResponse {
                    batch_id: hist[lo + i].batch_id,
                    time: hist[lo + i].time,
                    statom_amount: hist[lo + i].statom_amount,
                    statom_applied_exchange_rate: hist[lo + i].statom_applied_exchange_rate,
                    statom_withdraw_rate: hist[lo + i].statom_withdraw_rate,
                    released: hist[lo + i].released,
                })
        }),
{
    let records = all_unbond_history(hub, start, limit);
    let mut history: Vec<UnbondHistoryResponse> = Vec::new();
    let n = records.len();
    for i in 0..n
        invariant
            n == records@.len(),
            history@.len() == i,
            forall|k: int|
                0 <= k < i ==> #[trigger] history@[k] == (UnbondHistoryResponse {
                    batch_id: records@[k].batch_id,
                    time: records@[k].time,
                    statom_amount: records@[k].statom_amount,
                    statom_applied_exchange_rate: records@[k].statom_applied_exchange_rate,
                    statom_withdraw_rate: records@[k].statom_withdraw_rate,
                    released: records@[k].released,
                }),
    {
        let rec = records[i];
        history.push(
            UnbondHistoryResponse {
                batch_id: rec.batch_id,
                time: rec.time,
                statom_amount: rec.statom_amount,
                statom_applied_exchange_rate: rec.statom_applied_exchange_rate,
                statom_withdraw_rate: rec.statom_withdraw_rate,
                released: rec.released,
            },
        );
    }
    AllHistoryResponse { history }
}

} // verus!
