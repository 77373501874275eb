//! Data model of the hub: ledger state, parameters, configuration, the open
//! batch, batch history records, wait-list claims, and the query/response
//! shapes callers see.

use vstd::prelude::*;

use crate::error::ContractError;
use crate::math::{dec_from_ratio, Dec, SCALE};

verus! {

/// A quantity of one asset denomination.
#[derive(Clone, Debug, PartialEq)]
pub struct Coin {
    pub denom: String,
    pub amount: u128,
}

/// Which bonding path a deposit takes: a user deposit that mints derivative
/// tokens, or a reward redeposit that only raises the backing.
#[derive(Clone, Copy, Debug, PartialEq, Eq, Structural)]
pub enum BondType {
    StAtom,
    BondRewards,
}

#[derive(Clone, Debug, PartialEq)]
pub struct InstantiateMsg {
    pub epoch_period: u64,
    pub underlying_coin_denom: String,
    pub unbonding_period: u64,
}

pub type UnbondRequest = Vec<(u64, u128)>;

/// The ledger state singleton. `total_statom_issued` is refreshed from the
/// token collaborator on each reconciliation and is not meaningful between
/// reconciliations.
#[derive(Clone, Copy, Debug, PartialEq, Eq, Structural)]
pub struct State {
    pub total_statom_issued: u128,
    pub statom_exchange_rate: Dec,
    pub total_bond_statom_amount: u128,
    pub prev_hub_balance: u128,
    pub last_unbonded_time: u64,
    pub last_processed_batch: u64,
}

#[derive(Clone, Debug, PartialEq)]
pub struct Config {
    pub creator: String,
    pub reward_dispatcher_contract: Option<String>,
    pub validators_registry_contract: Option<String>,
    pub statom_token_contract: Option<String>,
}

#[derive(Clone, Debug, PartialEq)]
pub struct Parameters {
    pub epoch_period: u64,
    pub underlying_coin_denom: String,
    pub unbonding_period: u64,
    pub paused: Option<bool>,
}

/// The open batch: a monotonic id and the derivative amount requested into it
/// since it opened.
#[derive(Clone, Copy, Debug, PartialEq, Eq, Structural)]
pub struct CurrentBatch {
    pub id: u64,
    pub requested_statom: u128,
}

/// One record per closed batch, append-only. `statom_withdraw_rate` stays
/// zero until `released` flips, and never changes afterwards.
#[derive(Clone, Copy, Debug, PartialEq, Eq, Structural)]
pub struct UnbondHistory {
    pub batch_id: u64,
    pub time: u64,
    pub statom_amount: u128,
    pub statom_applied_exchange_rate: Dec,
    pub statom_withdraw_rate: Dec,
    pub released: bool,
}

/// A requester's derivative-denominated claim within one batch.
#[derive(Clone, Copy, Debug, PartialEq, Eq, Structural)]
pub struct UnbondWaitEntity {
    pub statom_amount: u128,
}

#[derive(Clone, Copy, Debug, PartialEq, Eq, Structural)]
pub struct UnbondHistoryResponse {
    pub batch_id: u64,
    pub time: u64,
    pub statom_amount: u128,
    pub statom_applied_exchange_rate: Dec,
    pub statom_withdraw_rate: Dec,
    pub released: bool,
}

#[derive(Clone, Copy, Debug, PartialEq, Eq, Structural)]
pub struct StateResponse {
    pub statom_exchange_rate: Dec,
    pub total_bond_statom_amount: u128,
    pub prev_hub_balance: u128,
    pub last_unbonded_time: u64,
    pub last_processed_batch: u64,
}

#[derive(Clone, Debug, PartialEq)]
pub struct ConfigResponse {
    pub owner: String,
    pub reward_dispatcher_contract: Option<String>,
    pub validators_registry_contract: Option<String>,
    pub statom_token_contract: Option<String>,
}

#[derive(Clone, Copy, Debug, PartialEq, Eq, Structural)]
pub struct CurrentBatchResponse {
    pub id: u64,
    pub requested_statom: u128,
}

#[derive(Clone, Copy, Debug, PartialEq, Eq, Structural)]
pub struct WithdrawableUnbondedResponse {
    pub withdrawable: u128,
}

#[derive(Clone, Debug, PartialEq)]
pub struct UnbondRequestsResponse {
    pub address: String,
    pub requests: UnbondRequest,
}

#[derive(Clone, Debug, PartialEq)]
pub struct AllHistoryResponse {
    pub history: Vec<UnbondHistoryResponse>,
}

#[derive(Clone, Copy, Debug, PartialEq, Eq, Structural)]
pub struct MigrateMsg {}

#[derive(Clone, Debug, PartialEq)]
pub enum QueryMsg {
    Config {},
    State {},
    CurrentBatch {},
    WithdrawableUnbonded { address: String },
    Parameters {},
    UnbondRequests { address: String },
    AllHistory { start_from: Option<u64>, limit: Option<u32> },
    Guardians,
}

#[derive(Clone, Debug, PartialEq)]
pub enum Cw20HookMsg {
    Unbond {},
}

/// Whether a parameter record marks the contract paused; an absent flag means
/// not paused.
pub open spec fn spec_is_paused(params: Parameters) -> bool {
    params.paused == Some(true)
}

pub fn is_paused(params: &Parameters) -> (r: bool)
    ensures
        r == spec_is_paused(*params),
{
    match params.paused {
        Some(b) => b,
        None => false,
    }
}

/// The recomputed exchange rate in atomic units: `bonded / supply` rounded
/// down, with a fallback to 1.0 whenever either operand is zero.
pub open spec fn spec_rate_atomics(bonded: int, supply: int) -> int {
    if bonded == 0 || supply == 0 {
        SCALE as int
    } else {
        (bonded * (SCALE as int)) / supply
    }
}

/// Whether recomputing the rate from these operands stays within `u128`.
pub open spec fn rate_update_fits(bonded: u128, total_issued: u128, requested: u128) -> bool {
    &&& total_issued + requested <= u128::MAX
    &&& (bonded == 0 || total_issued + requested == 0 || bonded * SCALE <= u128::MAX)
}

impl State {
    /// Recompute `statom_exchange_rate` as `total_bond_statom_amount` over
    /// `total_issued + requested`, falling back to 1.0 when either operand is
    /// zero. Fails, leaving the state unchanged, exactly when the checked
    /// arithmetic does not fit in a `u128`.
    pub fn update_statom_exchange_rate(&mut self, total_issued: u128, requested: u128) -> (r:
        Result<(), ContractError>)
        ensures
            r is Ok <==> rate_update_fits(old(self).total_bond_statom_amount, total_issued, requested),
            r is Ok ==> *final(self) == (State {
                statom_exchange_rate: Dec {
                    atomics: spec_rate_atomics(
                        old(self).total_bond_statom_amount as int,
                        total_issued + requested,
                    ) as u128,
                },
                ..*old(self)
            }),
            r is Err ==> *final(self) == *old(self) && (r == Err::<(), ContractError>(
                ContractError::Arithmetic,
            )),
    {
        let supply = match total_issued.checked_add(requested) {
            Some(s) => s,
            None => {
                return Err(ContractError::Arithmetic);
            },
        };
        if self.total_bond_statom_amount == 0 || supply == 0 {
            self.statom_exchange_rate = Dec { atomics: SCALE };
            Ok(())
        } else {
            match dec_from_ratio(self.total_bond_statom_amount, supply) {
                Some(rate) => {
                    self.statom_exchange_rate = rate;
                    Ok(())
                },
                None => Err(ContractError::Arithmetic),
            }
        }
    }
}

} // verus!
