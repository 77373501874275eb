//! Administrative operations: parameter and configuration updates, pausing,
//! and the guardian list that may pause (but not unpause) the contract.

use vstd::prelude::*;

use crate::contract::{seq_contains_str, Hub};
use crate::error::ContractError;

verus! {

/// Whether `list` holds a string reading `a`.
pub fn contains_str(list: &Vec<String>, a: &String) -> (r: bool)
    ensures
        r == seq_contains_str(list@, a@),
{
    let n = list.len();
    for i in 0..n
        invariant
            n == list@.len(),
            forall|j: int| 0 <= j < i ==> (#[trigger] list@[j])@ != a@,
    {
        if list[i] == *a {
            return true;
        }
    }
    false
}

/// Update the epoch period and/or the unbonding period. Only the creator may
/// call this; on an unauthorized call nothing changes.
pub fn execute_update_params(
    hub: &mut Hub,
    sender: String,
    epoch_period: Option<u64>,
    unbonding_period: Option<u64>,
) -> (r: Result<(), ContractError>)
    requires
        old(hub).wf(),
    ensures
        final(hub).wf(),
        sender@ != old(hub).config.creator@ ==> *final(hub) == *old(hub) && (r == Err::<
            (),
            ContractError,
        >(ContractError::Unauthorized)),
        sender@ == old(hub).config.creator@ ==> {
            &&& r is Ok
            &&& final(hub).parameters.epoch_period == (match epoch_period {
                Some(e) => e,
                None => old(hub).parameters.epoch_period,
            })
            &&& final(hub).parameters.unbonding_period == (match unbonding_period {
                Some(u) => u,
                None => old(hub).parameters.unbonding_period,
            })
            &&& final(hub).parameters.underlying_coin_denom == old(
                hub,
            ).parameters.underlying_coin_denom
            &&& final(hub).parameters.paused == old(hub).parameters.paused
        },
        final(hub).config == old(hub).config,
        final(hub).state == old(hub).state,
        final(hub).current_batch == old(hub).current_batch,
        final(hub).unbond_history == old(hub).unbond_history,
        final(hub).wait_list == old(hub).wait_list,
        final(hub).guardians == old(hub).guardians,
{
    if !(sender == hub.config.creator) {
        return Err(ContractError::Unauthorized);
    }
    if let Some(e) = epoch_period {
        hub.parameters.epoch_period = e;
    }
    if let Some(u) = unbonding_period {
        hub.parameters.unbonding_period = u;
    }
    Ok(())
}

/// Update owner and collaborator addresses. Only the creator may call this;
/// the derivative token address is write-once. The result says whether the
/// reward dispatcher changed, so the caller can redirect reward withdrawals.
pub fn execute_update_config(
    hub: &mut Hub,
    sender: String,
    owner: Option<String>,
    rewards_dispatcher_contract: Option<String>,
    statom_token_contract: Option<String>,
    validators_registry_contract: Option<String>,
) -> (r: Result<bool, ContractError>)
    requires
        old(hub).wf(),
    ensures
        final(hub).wf(),
        sender@ != old(hub).config.creator@ ==> *final(hub) == *old(hub) && (r == Err::<
            bool,
            ContractError,
        >(ContractError::Unauthorized)),
        sender@ == old(hub).config.creator@ && statom_token_contract is Some && old(
            hub,
        ).config.statom_token_contract is Some ==> *final(hub) == *old(hub) && (r == Err::<
            bool,
            ContractError,
        >(ContractError::StAtomTokenUpdateForbidden)),
        sender@ == old(hub).config.creator@ && !(statom_token_contract is Some && old(
            hub,
        ).config.statom_token_contract is Some) ==> {
            &&& r == Ok::<bool, ContractError>(rewards_dispatcher_contract is Some)
            &&& final(hub).config.creator@ == (match owner {
                Some(o) => o@,
                None => old(hub).config.creator@,
            })
            &&& final(hub).config.reward_dispatcher_contract == (match rewards_dispatcher_contract {
                Some(d) => Some(d),
                None => old(hub).config.reward_dispatcher_contract,
            })
            &&& final(hub).config.statom_token_contract == (match statom_token_contract {
                Some(t) => Some(t),
                None => old(hub).config.statom_token_contract,
            })
            &&& final(hub).config.validators_registry_contract == (
            match validators_registry_contract {
                Some(v) => Some(v),
                None => old(hub).config.validators_registry_contract,
            })
        },
        final(hub).parameters == old(hub).parameters,
        final(hub).state == old(hub).state,
        final(hub).current_batch == old(hub).current_batch,
        final(hub).unbond_history == old(hub).unbond_history,
        final(hub).wait_list == old(hub).wait_list,
        final(hub).guardians == old(hub).guardians,
{
    if !(sender == hub.config.creator) {
        return Err(ContractError::Unauthorized);
    }
    if statom_token_contract.is_some() && hub.config.statom_token_contract.is_some() {
        return Err(ContractError::StAtomTokenUpdateForbidden);
    }
    if let Some(o) = owner {
        hub.config.creator = o;
    }
    let dispatcher_changed = rewards_dispatcher_contract.is_some();
    if let Some(d) = rewards_dispatcher_contract {
        hub.config.reward_dispatcher_contract = Some(d);
    }
    if let Some(t) = statom_token_contract {
        hub.config.statom_token_contract = Some(t);
    }
    if let Some(v) = validators_registry_contract {
        hub.config.validators_registry_contract = Some(v);
    }
    Ok(dispatcher_changed)
}

/// Pause the contract. The creator and every guardian may pause.
pub fn execute_pause_contracts(hub: &mut Hub, sender: String) -> (r: Result<(), ContractError>)
    requires
        old(hub).wf(),
    ensures
        final(hub).wf(),
        sender@ != old(hub).config.creator@ && !seq_contains_str(old(hub).guardians@, sender@)
            ==> *final(hub) == *old(hub) && (r == Err::<(), ContractError>(
            ContractError::Unauthorized,
        )),
        sender@ == old(hub).config.creator@ || seq_contains_str(old(hub).guardians@, sender@) ==> {
            &&& r is Ok
            &&& final(hub).parameters.paused == Some(true)
            &&& final(hub).parameters.epoch_period == old(hub).parameters.epoch_period
            &&& final(hub).parameters.unbonding_period == old(hub).parameters.unbonding_period
            &&& final(hub).parameters.underlying_coin_denom == old(
                hub,
            ).parameters.underlying_coin_denom
        },
        final(hub).config == old(hub).config,
        final(hub).state == old(hub).state,
        final(hub).current_batch == old(hub).current_batch,
        final(hub).unbond_history == old(hub).unbond_history,
        final(hub).wait_list == old(hub).wait_list,
        final(hub).guardians == old(hub).guardians,
{
    if !(sender == hub.config.creator || contains_str(&hub.guardians, &sender)) {
        return Err(ContractError::Unauthorized);
    }
    hub.parameters.paused = Some(true);
    Ok(())
}

/// Unpause the contract. Only the creator may unpause.
pub fn execute_unpause_contracts(hub: &mut Hub, sender: String) -> (r: Result<(), ContractError>)
    requires
        old(hub).wf(),
    ensures
        final(hub).wf(),
        sender@ != old(hub).config.creator@ ==> *final(hub) == *old(hub) && (r == Err::<
            (),
            ContractError,
        >(ContractError::Unauthorized)),
        sender@ == old(hub).config.creator@ ==> {
            &&& r is Ok
            &&& final(hub).parameters.paused == Some(false)
            &&& final(hub).parameters.epoch_period == old(hub).parameters.epoch_period
            &&& final(hub).parameters.unbonding_period == old(hub).parameters.unbonding_period
            &&& final(hub).parameters.underlying_coin_denom == old(
                hub,
            ).parameters.underlying_coin_denom
        },
        final(hub).config == old(hub).config,
        final(hub).state == old(hub).state,
        final(hub).current_batch == old(hub).current_batch,
        final(hub).unbond_history == old(hub).unbond_history,
        final(hub).wait_list == old(hub).wait_list,
        final(hub).guardians == old(hub).guardians,
{
    if !(sender == hub.config.creator) {
        return Err(ContractError::Unauthorized);
    }
    hub.parameters.paused = Some(false);
    Ok(())
}

/// Add addresses to the guardian whitelist; addresses already present stay
/// listed once. Only the creator may call this.
pub fn execute_add_guardians(hub: &mut Hub, sender: String, addresses: Vec<String>) -> (r: Result<
    (),
    ContractError,
>)
    requires
        old(hub).wf(),
    ensures
        final(hub).wf(),
        sender@ != old(hub).config.creator@ ==> *final(hub) == *old(hub) && (r == Err::<
            (),
            ContractError,
        >(ContractError::Unauthorized)),
        sender@ == old(hub).config.creator@ ==> {
            &&& r is Ok
            &&& forall|a: Seq<char>|
                seq_contains_str(final(hub).guardians@, a) <==> (seq_contains_str(
                    old(hub).guardians@,
                    a,
                ) || seq_contains_str(addresses@, a))
        },
        final(hub).config == old(hub).config,
        final(hub).parameters == old(hub).parameters,
        final(hub).state == old(hub).state,
        final(hub).current_batch == old(hub).current_batch,
        final(hub).unbond_history == old(hub).unbond_history,
        final(hub).wait_list == old(hub).wait_list,
{
    if !(sender == hub.config.creator) {
        return Err(ContractError::Unauthorized);
    }
    let n = addresses.len();
    for i in 0..n
        invariant
            n == addresses@.len(),
            hub.wf(),
            hub.config == old(hub).config,
            hub.parameters == old(hub).parameters,
            hub.state == old(hub).state,
            hub.current_batch == old(hub).current_batch,
            hub.unbond_history == old(hub).unbond_history,
            hub.wait_list == old(hub).wait_list,
            forall|a: Seq<char>|
                seq_contains_str(hub.guardians@, a) <==> (seq_contains_str(old(hub).guardians@, a)
                    || seq_contains_str(addresses@.take(i as int), a)),
    {
        let ghost pre = hub.guardians@;
        if !contains_str(&hub.guardians, &addresses[i]) {
            hub.guardians.push(addresses[i].clone());
            proof {
                assert forall|a: Seq<char>| #[trigger]
                    seq_contains_str(hub.guardians@, a) implies (seq_contains_str(pre, a) || a
                    == addresses@[i as int]@) by {
                    let w = choose|idx: int|
                        0 <= idx < hub.guardians@.len() && (#[trigger] hub.guardians@[idx])@ == a;
                    if w < pre.len() {
                        assert(pre[w]@ == a);
                    }
                }
                assert forall|a: Seq<char>| (seq_contains_str(pre, a) || a
                    == addresses@[i as int]@) implies #[trigger] seq_contains_str(
                    hub.guardians@,
                    a,
                ) by {
                    if seq_contains_str(pre, a) {
                        let w = choose|idx: int|
                            0 <= idx < pre.len() && (#[trigger] pre[idx])@ == a;
                        assert(hub.guardians@[w]@ == a);
                    } else {
                        assert(hub.guardians@[pre.len() as int]@ == a);
                    }
                }
                assert forall|j: int, k: int|
                    0 <= j < k < hub.guardians@.len() implies (#[trigger] hub.guardians@[j])@ != (
                #[trigger] hub.guardians@[k])@ by {
                    if k == pre.len() as int {
                        assert(pre[j]@ == hub.guardians@[j]@);
                        assert(!seq_contains_str(pre, addresses@[i as int]@));
                    }
                }
            }
        }
        proof {
            assert(addresses@.take(i + 1).drop_last() =~= addresses@.take(i as int));
            assert forall|a: Seq<char>| #[trigger]
                seq_contains_str(addresses@.take(i + 1), a) implies (seq_contains_str(
                addresses@.take(i as int),
                a,
            ) || a == addresses@[i as int]@) by {
                let w = choose|idx: int|
                    0 <= idx < addresses@.take(i + 1).len() && (#[trigger] addresses@.take(
                        i + 1,
                    )[idx])@ == a;
                if w < i {
                    assert(addresses@.take(i as int)[w]@ == a);
                }
            }
            assert forall|a: Seq<char>| (seq_contains_str(addresses@.take(i as int), a) || a
                == addresses@[i as int]@) implies #[trigger] seq_contains_str(
                addresses@.take(i + 1),
                a,
            ) by {
                if seq_contains_str(addresses@.take(i as int), a) {
                    let w = choose|idx: int|
                        0 <= idx < addresses@.take(i as int).len() && (#[trigger] addresses@.take(
                            i as int,
                        )[idx])@ == a;
                    assert(addresses@.take(i + 1)[w]@ == a);
                } else {
                    assert(addresses@.take(i + 1)[i as int]@ == a);
                }
            }
        }
    }
    proof {
        assert(addresses@.take(n as int) =~= addresses@);
    }
    Ok(())
}

/// Remove addresses from the guardian whitelist. Only the creator may call
/// this; addresses not listed are ignored.
pub fn execute_remove_guardians(hub: &mut Hub, sender: String, addresses: Vec<String>) -> (r:
    Result<(), ContractError>)
    requires
        old(hub).wf(),
    ensures
        final(hub).wf(),
        sender@ != old(hub).config.creator@ ==> *final(hub) == *old(hub) && (r == Err::<
            (),
            ContractError,
        >(ContractError::Unauthorized)),
        sender@ == old(hub).config.creator@ ==> {
            &&& r is Ok
            &&& forall|a: Seq<char>|
                seq_contains_str(final(hub).guardians@, a) <==> (seq_contains_str(
                    old(hub).guardians@,
                    a,
                ) && !seq_contains_str(addresses@, a))
        },
        final(hub).config == old(hub).config,
        final(hub).parameters == old(hub).parameters,
        final(hub).state == old(hub).state,
        final(hub).current_batch == old(hub).current_batch,
        final(hub).unbond_history == old(hub).unbond_history,
        final(hub).wait_list == old(hub).wait_list,
{
    if !(sender == hub.config.creator) {
        return Err(ContractError::Unauthorized);
    }
    let mut kept: Vec<String> = Vec::new();
    let n = hub.guardians.len();
    for i in 0..n
        invariant
            n == hub.guardians@.len(),
            forall|j: int, k: int|
                0 <= j < k < hub.guardians@.len() ==> (#[trigger] hub.guardians@[j])@ != (
                #[trigger] hub.guardians@[k])@,
            forall|a: Seq<char>|
                seq_contains_str(kept@, a) <==> (seq_contains_str(hub.guardians@.take(i as int), a)
                    && !seq_contains_str(addresses@, a)),
            forall|j: int, k: int|
                0 <= j < k < kept@.len() ==> (#[trigger] kept@[j])@ != (#[trigger] kept@[k])@,
    {
        let ghost pre = kept@;
        let keep = !contains_str(&addresses, &hub.guardians[i]);
        if keep {
            kept.push(hub.guardians[i].clone());
        }
        proof {
            assert(hub.guardians@.take(i + 1).drop_last() =~= hub.guardians@.take(i as int));
            let gi = hub.guardians@[i as int]@;
            assert forall|a: Seq<char>| #[trigger]
                seq_contains_str(hub.guardians@.take(i + 1), a) implies (seq_contains_str(
                hub.guardians@.take(i as int),
                a,
            ) || a == gi) by {
                let w = choose|idx: int|
                    0 <= idx < i + 1 && (#[trigger] hub.guardians@.take(i + 1)[idx])@ == a;
                if w < i {
                    assert(hub.guardians@.take(i as int)[w]@ == a);
                }
            }
            assert forall|a: Seq<char>| (seq_contains_str(hub.guardians@.take(i as int), a) || a
                == gi) implies #[trigger] seq_contains_str(hub.guardians@.take(i + 1), a) by {
                if seq_contains_str(hub.guardians@.take(i as int), a) {
                    let w = choose|idx: int|
                        0 <= idx < i && (#[trigger] hub.guardians@.take(i as int)[idx])@ == a;
                    assert(hub.guardians@.take(i + 1)[w]@ == a);
                } else {
                    assert(hub.guardians@.take(i + 1)[i as int]@ == a);
                }
            }
            if keep {
                assert forall|a: Seq<char>| #[trigger]
                    seq_contains_str(kept@, a) implies (seq_contains_str(pre, a) || a == gi) by {
                    let w = choose|idx: int|
                        0 <= idx < kept@.len() && (#[trigger] kept@[idx])@ == a;
                    if w < pre.len() {
                        assert(pre[w]@ == a);
                    }
                }
                assert forall|a: Seq<char>| (seq_contains_str(pre, a) || a == gi) implies
                    #[trigger] seq_contains_str(kept@, a) by {
                    if seq_contains_str(pre, a) {
                        let w = choose|idx: int|
                            0 <= idx < pre.len() && (#[trigger] pre[idx])@ == a;
                        assert(kept@[w]@ == a);
                    } else {
                        assert(kept@[pre.len() as int]@ == a);
                    }
                }
                assert forall|j: int, k: int|
                    0 <= j < k < kept@.len() implies (#[trigger] kept@[j])@ != (
                #[trigger] kept@[k])@ by {
                    if k == pre.len() as int {
                        assert(pre[j]@ == kept@[j]@);
                        if kept@[j]@ == gi {
                            assert(seq_contains_str(pre, gi));
                            let w = choose|idx: int|
                                0 <= idx < pre.len() && (#[trigger] pre[idx])@ == gi;
                            assert(seq_contains_str(hub.guardians@.take(i as int), gi));
                            let w2 = choose|idx: int|
                                0 <= idx < i && (#[trigger] hub.guardians@.take(i as int)[idx])@
                                    == gi;
                            assert(hub.guardians@[w2]@ == hub.guardians@[i as int]@);
                            assert(false);
                        }
                    }
                }
            }
        }
    }
    proof {
        assert(hub.guardians@.take(n as int) =~= hub.guardians@);
    }
    hub.guardians = kept;
    Ok(())
}

} // verus!
