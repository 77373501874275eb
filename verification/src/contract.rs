//! The hub itself: the exclusively-owned state threaded through every
//! operation, its well-formedness invariant, instantiation, the slashing
//! detector, and the read-only queries over config and ledger state.

use vstd::prelude::*;

use crate::error::ContractError;
use crate::hub::{
    rate_update_fits, spec_is_paused, spec_rate_atomics, Coin, Config, ConfigResponse,
    CurrentBatch, CurrentBatchResponse, InstantiateMsg, Parameters, State, StateResponse,
    UnbondHistory,
};
use crate::math::{Dec, SCALE};

verus! {

/// A wait-list claim: the derivative amount `address` has requested out of
/// batch `batch_id` and not yet withdrawn.
#[derive(Clone, Debug, PartialEq)]
pub struct WaitListEntry {
    pub batch_id: u64,
    pub address: String,
    pub statom_amount: u128,
}

/// Total delegated amount carried by the coins of denomination `denom`.
pub open spec fn sum_denom(dels: Seq<Coin>, denom: Seq<char>) -> int
    decreases dels.len(),
{
    if dels.len() == 0 {
        0
    } else {
        sum_denom(dels.drop_last(), denom) + if dels.last().denom@ == denom {
            dels.last().amount as int
        } else {
            0
        }
    }
}

pub proof fn lemma_sum_denom_take_step(dels: Seq<Coin>, denom: Seq<char>, i: int)
    requires
        0 <= i < dels.len(),
    ensures
        sum_denom(dels.take(i + 1), denom) == sum_denom(dels.take(i), denom) + if dels[i].denom@
            == denom {
            dels[i].amount as int
        } else {
            0
        },
{
    assert(dels.take(i + 1).drop_last() =~= dels.take(i));
    assert(dels.take(i + 1).last() == dels[i]);
}

/// Sum of all wait-list claims that belong to batch `b`.
pub open spec fn wait_sum(s: Seq<WaitListEntry>, b: u64) -> int
    decreases s.len(),
{
    if s.len() == 0 {
        0
    } else {
        wait_sum(s.drop_last(), b) + if s.last().batch_id == b {
            s.last().statom_amount as int
        } else {
            0
        }
    }
}

/// Sum of the claims of one requester in batch `b`; with distinct wait-list
/// keys this is the amount of that requester's single entry, or zero.
pub open spec fn addr_wait_amount(s: Seq<WaitListEntry>, b: u64, addr: Seq<char>) -> int
    decreases s.len(),
{
    if s.len() == 0 {
        0
    } else {
        addr_wait_amount(s.drop_last(), b, addr) + if s.last().batch_id == b && s.last().address@
            == addr {
            s.last().statom_amount as int
        } else {
            0
        }
    }
}

/// Whether some string in `s` reads `a`.
pub open spec fn seq_contains_str(s: Seq<String>, a: Seq<char>) -> bool {
    exists|i: int| 0 <= i < s.len() && (#[trigger] s[i])@ == a
}

/// The whole persistent state of the hub, exclusively owned and threaded
/// through each operation.
pub struct Hub {
    pub config: Config,
    pub parameters: Parameters,
    pub state: State,
    pub current_batch: CurrentBatch,
    pub unbond_history: Vec<UnbondHistory>,
    pub wait_list: Vec<WaitListEntry>,
    pub guardians: Vec<String>,
}

impl Hub {
    /// Batch ids are contiguous from 1, one history record per closed batch,
    /// and the open batch follows the last closed one.
    pub open spec fn batches_contiguous(self) -> bool {
        &&& self.current_batch.id == self.unbond_history@.len() + 1
        &&& forall|i: int|
            0 <= i < self.unbond_history@.len() ==> (#[trigger] self.unbond_history@[i]).batch_id
                == i + 1
    }

    /// A batch's withdraw rate is zero until it is released and never
    /// exceeds the applied rate it promised.
    pub open spec fn rates_well_formed(self) -> bool {
        &&& forall|i: int|
            0 <= i < self.unbond_history@.len() ==> ((#[trigger] self.unbond_history@[i]).released
                ==> self.unbond_history@[i].statom_withdraw_rate.atomics
                <= self.unbond_history@[i].statom_applied_exchange_rate.atomics)
        &&& forall|i: int|
            0 <= i < self.unbond_history@.len() ==> (!(#[trigger] self.unbond_history@[i]).released
                ==> self.unbond_history@[i].statom_withdraw_rate.atomics == 0)
    }

    /// Wait-list keys are unique and point at existing batches.
    pub open spec fn wait_list_well_keyed(self) -> bool {
        &&& forall|j: int|
            0 <= j < self.wait_list@.len() ==> 1 <= (#[trigger] self.wait_list@[j]).batch_id
                <= self.current_batch.id
        &&& forall|j: int, k: int|
            0 <= j < k < self.wait_list@.len() ==> !((#[trigger] self.wait_list@[j]).batch_id == (
            #[trigger] self.wait_list@[k]).batch_id && self.wait_list@[j].address@
                == self.wait_list@[k].address@)
    }

    /// The wait list and the batch ledger are two views of the same
    /// committed liability: over the open batch and over every unreleased
    /// batch, the wait-list claims sum to exactly the recorded requested
    /// amount — no value is created or destroyed by bookkeeping.
    pub open spec fn liability_balanced(self) -> bool {
        &&& wait_sum(self.wait_list@, self.current_batch.id) == self.current_batch.requested_statom
        &&& forall|i: int|
            0 <= i < self.unbond_history@.len() && !(#[trigger] self.unbond_history@[i]).released
                ==> wait_sum(self.wait_list@, (i + 1) as u64) == self.unbond_history@[i].statom_amount
    }

    /// No guardian is listed twice.
    pub open spec fn guardians_distinct(self) -> bool {
        forall|j: int, k: int|
            0 <= j < k < self.guardians@.len() ==> (#[trigger] self.guardians@[j])@ != (
            #[trigger] self.guardians@[k])@
    }

    /// Well-formedness, established at instantiation and preserved by every
    /// operation.
    pub open spec fn wf(self) -> bool {
        &&& self.batches_contiguous()
        &&& self.rates_well_formed()
        &&& self.wait_list_well_keyed()
        &&& self.liability_balanced()
        &&& self.guardians_distinct()
    }
}

/// Whether the slashing detector has anything to reconcile: delegations were
/// observed and the ledger believes something is bonded.
pub open spec fn reconcile_active(s: State, dels: Seq<Coin>) -> bool {
    dels.len() > 0 && s.total_bond_statom_amount != 0
}

/// The recorded bonded amount written down to the externally observed total,
/// and never written up.
pub open spec fn spec_clamped_bonded(s: State, dels: Seq<Coin>, denom: Seq<char>) -> int {
    let actual = sum_denom(dels, denom);
    if s.total_bond_statom_amount > actual {
        actual
    } else {
        s.total_bond_statom_amount as int
    }
}

/// The state after one run of the slashing detector.
pub open spec fn spec_reconciled_state(
    s: State,
    denom: Seq<char>,
    dels: Seq<Coin>,
    total_issued: u128,
    requested: u128,
) -> State {
    if !reconcile_active(s, dels) {
        s
    } else {
        let bonded = spec_clamped_bonded(s, dels, denom);
        State {
            total_statom_issued: total_issued,
            total_bond_statom_amount: bonded as u128,
            statom_exchange_rate: Dec {
                atomics: spec_rate_atomics(bonded, total_issued + requested) as u128,
            },
            ..s
        }
    }
}

/// Whether the detector's checked arithmetic fits in a `u128`.
pub open spec fn reconcile_fits(
    s: State,
    denom: Seq<char>,
    dels: Seq<Coin>,
    total_issued: u128,
    requested: u128,
) -> bool {
    reconcile_active(s, dels) ==> rate_update_fits(
        spec_clamped_bonded(s, dels, denom) as u128,
        total_issued,
        requested,
    )
}

/// Fresh hub state: rate 1.0, nothing bonded, batch 1 open and empty.
pub fn instantiate(sender: String, msg: InstantiateMsg, now: u64) -> (hub: Hub)
    ensures
        hub.wf(),
        hub.config.creator@ == sender@,
        hub.config.reward_dispatcher_contract is None,
        hub.config.validators_registry_contract is None,
        hub.config.statom_token_contract is None,
        hub.parameters.epoch_period == msg.epoch_period,
        hub.parameters.underlying_coin_denom@ == msg.underlying_coin_denom@,
        hub.parameters.unbonding_period == msg.unbonding_period,
        hub.parameters.paused == Some(false),
        hub.state == (State {
            total_statom_issued: 0,
            statom_exchange_rate: Dec { atomics: SCALE },
            total_bond_statom_amount: 0,
            prev_hub_balance: 0,
            last_unbonded_time: now,
            last_processed_batch: 0,
        }),
        hub.current_batch == (CurrentBatch { id: 1, requested_statom: 0 }),
        hub.unbond_history@.len() == 0,
        hub.wait_list@.len() == 0,
        hub.guardians@.len() == 0,
{
    Hub {
        config: Config {
            creator: sender,
            reward_dispatcher_contract: None,
            validators_registry_contract: None,
            statom_token_contract: None,
        },
        parameters: Parameters {
            epoch_period: msg.epoch_period,
            underlying_coin_denom: msg.underlying_coin_denom,
            unbonding_period: msg.unbonding_period,
            paused: Some(false),
        },
        state: State {
            total_statom_issued: 0,
            statom_exchange_rate: Dec { atomics: SCALE },
            total_bond_statom_amount: 0,
            prev_hub_balance: 0,
            last_unbonded_time: now,
            last_processed_batch: 0,
        },
        current_batch: CurrentBatch { id: 1, requested_statom: 0 },
        unbond_history: Vec::new(),
        wait_list: Vec::new(),
        guardians: Vec::new(),
    }
}

/// One run of the slashing detector, without persisting: reconciles the
/// recorded bonded amount against the externally observed delegations and
/// recomputes the exchange rate from the refreshed supply. The recorded
/// amount is only ever written down, never up.
pub fn query_actual_state(
    state: &State,
    parameters: &Parameters,
    current_batch: &CurrentBatch,
    delegations: &Vec<Coin>,
    total_statom_issued: u128,
) -> (r: Result<State, ContractError>)
    ensures
        r is Ok <==> reconcile_fits(
            *state,
            parameters.underlying_coin_denom@,
            delegations@,
            total_statom_issued,
            current_batch.requested_statom,
        ),
        r matches Ok(s2) ==> s2 == spec_reconciled_state(
            *state,
            parameters.underlying_coin_denom@,
            delegations@,
            total_statom_issued,
            current_batch.requested_statom,
        ),
        r matches Ok(s2) ==> s2.total_bond_statom_amount <= state.total_bond_statom_amount,
        r matches Ok(s2) ==> (reconcile_active(*state, delegations@)
            ==> s2.total_bond_statom_amount <= sum_denom(
            delegations@,
            parameters.underlying_coin_denom@,
        )),
        r is Err ==> (r == Err::<State, ContractError>(ContractError::Arithmetic)),
{
    if delegations.len() == 0 {
        return Ok(*state);
    }
    let ghost denom: Seq<char> = parameters.underlying_coin_denom@;
    let mut actual: u128 = 0;
    let mut saturated: bool = false;
    let n = delegations.len();
    for i in 0..n
        invariant
            n == delegations@.len(),
            !saturated ==> actual == sum_denom(delegations@.take(i as int), denom),
            saturated ==> sum_denom(delegations@.take(i as int), denom) > u128::MAX,
            denom == parameters.underlying_coin_denom@,
    {
        proof {
            lemma_sum_denom_take_step(delegations@, denom, i as int);
        }
        if delegations[i].denom == parameters.underlying_coin_denom {
            if !saturated {
                match actual.checked_add(delegations[i].amount) {
                    Some(s) => {
                        actual = s;
                    },
                    None => {
                        saturated = true;
                    },
                }
            }
        }
    }
    proof {
        assert(delegations@.take(n as int) =~= delegations@);
    }
    if state.total_bond_statom_amount == 0 {
        return Ok(*state);
    }
    let mut s2 = *state;
    s2.total_statom_issued = total_statom_issued;
    if !saturated && s2.total_bond_statom_amount > actual {
        s2.total_bond_statom_amount = actual;
    }
    match s2.update_statom_exchange_rate(total_statom_issued, current_batch.requested_statom) {
        Ok(()) => Ok(s2),
        Err(e) => Err(e),
    }
}

/// Runs the slashing detector and persists the reconciled state; on an
/// arithmetic fault the hub is left untouched. `total_bond_statom_amount`
/// never rises in this call, and never ends above the observed total.
pub fn slashing(hub: &mut Hub, delegations: &Vec<Coin>, total_statom_issued: u128) -> (r: Result<
    State,
    ContractError,
>)
    requires
        old(hub).wf(),
    ensures
        final(hub).wf(),
        final(hub).config == old(hub).config,
        final(hub).parameters == old(hub).parameters,
        final(hub).current_batch == old(hub).current_batch,
        final(hub).unbond_history == old(hub).unbond_history,
        final(hub).wait_list == old(hub).wait_list,
        final(hub).guardians == old(hub).guardians,
        r is Ok <==> reconcile_fits(
            old(hub).state,
            old(hub).parameters.underlying_coin_denom@,
            delegations@,
            total_statom_issued,
            old(hub).current_batch.requested_statom,
        ),
        r matches Ok(s2) ==> s2 == spec_reconciled_state(
            old(hub).state,
            old(hub).parameters.underlying_coin_denom@,
            delegations@,
            total_statom_issued,
            old(hub).current_batch.requested_statom,
        ) && final(hub).state == s2,
        r is Ok ==> final(hub).state.total_bond_statom_amount
            <= old(hub).state.total_bond_statom_amount,
        r is Ok && reconcile_active(old(hub).state, delegations@) ==> final(hub).state.total_bond_statom_amount
            <= sum_denom(delegations@, old(hub).parameters.underlying_coin_denom@),
        r is Err ==> *final(hub) == *old(hub) && (r == Err::<State, ContractError>(
            ContractError::Arithmetic,
        )),
{
    match query_actual_state(
        &hub.state,
        &hub.parameters,
        &hub.current_batch,
        delegations,
        total_statom_issued,
    ) {
        Ok(s2) => {
            hub.state = s2;
            Ok(s2)
        },
        Err(e) => Err(e),
    }
}

/// The explicit check-slashing entry point: rejected while paused, otherwise
/// one persisted detector run.
pub fn execute_slashing(hub: &mut Hub, delegations: &Vec<Coin>, total_statom_issued: u128) -> (r:
    Result<State, ContractError>)
    requires
        old(hub).wf(),
    ensures
        final(hub).wf(),
        spec_is_paused(old(hub).parameters) ==> *final(hub) == *old(hub) && (r == Err::<
            State,
            ContractError,
        >(ContractError::Paused)),
        !spec_is_paused(old(hub).parameters) ==> {
            &&& (r is Ok <==> reconcile_fits(
                old(hub).state,
                old(hub).parameters.underlying_coin_denom@,
                delegations@,
                total_statom_issued,
                old(hub).current_batch.requested_statom,
            ))
            &&& (r matches Ok(s2) ==> s2 == spec_reconciled_state(
                old(hub).state,
                old(hub).parameters.underlying_coin_denom@,
                delegations@,
                total_statom_issued,
                old(hub).current_batch.requested_statom,
            ) && final(hub).state == s2 && final(hub).state.total_bond_statom_amount
                <= old(hub).state.total_bond_statom_amount)
            &&& (r is Err ==> *final(hub) == *old(hub) && (r == Err::<State, ContractError>(
                ContractError::Arithmetic,
            )))
        },
        final(hub).config == old(hub).config,
        final(hub).parameters == old(hub).parameters,
        final(hub).current_batch == old(hub).current_batch,
        final(hub).unbond_history == old(hub).unbond_history,
        final(hub).wait_list == old(hub).wait_list,
        final(hub).guardians == old(hub).guardians,
{
    if crate::hub::is_paused(&hub.parameters) {
        return Err(ContractError::Paused);
    }
    slashing(hub, delegations, total_statom_issued)
}

pub fn query_config(hub: &Hub) -> (r: ConfigResponse)
    ensures
        r.owner == hub.config.creator,
        r.reward_dispatcher_contract == hub.config.reward_dispatcher_contract,
        r.validators_registry_contract == hub.config.validators_registry_contract,
        r.statom_token_contract == hub.config.statom_token_contract,
{
    ConfigResponse {
        owner: hub.config.creator.clone(),
        reward_dispatcher_contract: clone_opt_string(&hub.config.reward_dispatcher_contract),
        validators_registry_contract: clone_opt_string(&hub.config.validators_registry_contract),
        statom_token_contract: clone_opt_string(&hub.config.statom_token_contract),
    }
}

fn clone_opt_string(s: &Option<String>) -> (r: Option<String>)
    ensures
        r == s,
{
    match s {
        Some(v) => Some(v.clone()),
        None => None,
    }
}

/// The state as a caller sees it: reconciled on the fly against the observed
/// delegations and supply, without persisting.
pub fn query_state(
    hub: &Hub,
    delegations: &Vec<Coin>,
    total_statom_issued: u128,
) -> (r: Result<StateResponse, ContractError>)
    ensures
        r is Ok <==> reconcile_fits(
            hub.state,
            hub.parameters.underlying_coin_denom@,
            delegations@,
            total_statom_issued,
            hub.current_batch.requested_statom,
        ),
        r matches Ok(resp) ==> {
            let s2 = spec_reconciled_state(
                hub.state,
                hub.parameters.underlying_coin_denom@,
                delegations@,
                total_statom_issued,
                hub.current_batch.requested_statom,
            );
            resp == (StateResponse {
                statom_exchange_rate: s2.statom_exchange_rate,
                total_bond_statom_amount: s2.total_bond_statom_amount,
                prev_hub_balance: s2.prev_hub_balance,
                last_unbonded_time: s2.last_unbonded_time,
                last_processed_batch: s2.last_processed_batch,
            })
        },
{
    match query_actual_state(
        &hub.state,
        &hub.parameters,
        &hub.current_batch,
        delegations,
        total_statom_issued,
    ) {
        Ok(s2) => Ok(
            StateResponse {
                statom_exchange_rate: s2.statom_exchange_rate,
                total_bond_statom_amount: s2.total_bond_statom_amount,
                prev_hub_balance: s2.prev_hub_balance,
                last_unbonded_time: s2.last_unbonded_time,
                last_processed_batch: s2.last_processed_batch,
            },
        ),
        Err(e) => Err(e),
    }
}

pub fn query_current_batch(hub: &Hub) -> (r: CurrentBatchResponse)
    ensures
        r.id == hub.current_batch.id,
        r.requested_statom == hub.current_batch.requested_statom,
{
    CurrentBatchResponse {
        id: hub.current_batch.id,
        requested_statom: hub.current_batch.requested_statom,
    }
}

pub fn query_params(hub: &Hub) -> (r: Parameters)
    ensures
        r == hub.parameters,
{
    Parameters {
        epoch_period: hub.parameters.epoch_period,
        underlying_coin_denom: hub.parameters.underlying_coin_denom.clone(),
        unbonding_period: hub.parameters.unbonding_period,
        paused: hub.parameters.paused,
    }
}

pub fn query_guardians(hub: &Hub) -> (r: Vec<String>)
    ensures
        r@ == hub.guardians@,
{
    let mut out: Vec<String> = Vec::new();
    let n = hub.guardians.len();
    for i in 0..n
        invariant
            n == hub.guardians@.len(),
            out@.len() == i,
            forall|j: int| 0 <= j < i ==> out@[j] == hub.guardians@[j],
    {
        out.push(hub.guardians[i].clone());
    }
    proof {
        assert(out@ =~= hub.guardians@);
    }
    out
}

} // verus!
