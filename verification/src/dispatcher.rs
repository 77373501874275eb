//! The rewards dispatcher's accounting: split a reward balance into the
//! protocol fee and the net amount redeposited into the hub, and keep its
//! own configuration rules.

use vstd::prelude::*;

use crate::error::ContractError;
use crate::math::{mul_floor, Dec, SCALE};

verus! {

#[derive(Clone, Debug, PartialEq)]
pub struct Config {
    pub owner: String,
    pub hub_contract: String,
    pub statom_reward_denom: String,
    pub lido_fee_address: String,
    pub lido_fee_rate: Dec,
}

#[derive(Clone, Debug, PartialEq)]
pub struct InstantiateMsg {
    pub hub_contract: String,
    pub statom_reward_denom: String,
    pub lido_fee_address: String,
    pub lido_fee_rate: Dec,
}

#[derive(Clone, Debug, PartialEq)]
pub enum ExecuteMsg {
    UpdateConfig {
        owner: Option<String>,
        hub_contract: Option<String>,
        statom_reward_denom: Option<String>,
        lido_fee_address: Option<String>,
        lido_fee_rate: Option<Dec>,
    },
    DispatchRewards {},
}

#[derive(Clone, Debug, PartialEq)]
pub enum QueryMsg {
    GetBufferedRewards {},
    Config {},
}

#[derive(Clone, Copy, Debug, PartialEq, Eq, Structural)]
pub struct GetBufferedRewardsResponse {}

#[derive(Clone, Copy, Debug, PartialEq, Eq, Structural)]
pub struct MigrateMsg {}

/// How one dispatch splits the reward balance: the fee kept for the
/// protocol, and the net rewards redeposited into the hub.
#[derive(Clone, Copy, Debug, PartialEq, Eq, Structural)]
pub struct DispatchPlan {
    pub statom_rewards: u128,
    pub lido_statom_fee: u128,
}

/// floor(amount * fee_rate): the protocol's cut of a reward balance.
pub fn compute_lido_fee(amount: u128, fee_rate: Dec) -> (r: Result<u128, ContractError>)
    ensures
        amount * fee_rate.atomics <= u128::MAX ==> r == Ok::<u128, ContractError>(
            (((amount as int) * (fee_rate.atomics as int)) / (SCALE as int)) as u128,
        ),
        amount * fee_rate.atomics > u128::MAX ==> r == Err::<u128, ContractError>(
            ContractError::Arithmetic,
        ),
{
    match mul_floor(amount, fee_rate) {
        Some(f) => Ok(f),
        None => Err(ContractError::Arithmetic),
    }
}

/// Split the held reward balance: the fee goes to the protocol, the rest is
/// redeposited. Only the hub may trigger a dispatch, and not while the hub
/// is paused; a fee rate above one is an arithmetic fault, never a negative
/// redeposit.
pub fn execute_dispatch_rewards(
    config: &Config,
    hub_paused: bool,
    sender: String,
    rewards_balance: u128,
) -> (r: Result<DispatchPlan, ContractError>)
    ensures
        hub_paused ==> r == Err::<DispatchPlan, ContractError>(ContractError::Paused),
        !hub_paused && sender@ != config.hub_contract@ ==> r == Err::<DispatchPlan, ContractError>(
            ContractError::Unauthorized,
        ),
        !hub_paused && sender@ == config.hub_contract@ ==> {
            let fee = ((rewards_balance as int) * (config.lido_fee_rate.atomics as int)) / (
            SCALE as int);
            &&& (rewards_balance * config.lido_fee_rate.atomics > u128::MAX ==> r == Err::<
                DispatchPlan,
                ContractError,
            >(ContractError::Arithmetic))
            &&& (rewards_balance * config.lido_fee_rate.atomics <= u128::MAX && fee
                > rewards_balance ==> r == Err::<DispatchPlan, ContractError>(
                ContractError::Arithmetic,
            ))
            &&& (rewards_balance * config.lido_fee_rate.atomics <= u128::MAX && fee
                <= rewards_balance ==> r == Ok::<DispatchPlan, ContractError>(
                DispatchPlan {
                    statom_rewards: (rewards_balance - fee) as u128,
                    lido_statom_fee: fee as u128,
                },
            ))
        },
{
    if hub_paused {
        return Err(ContractError::Paused);
    }
    if !(sender == config.hub_contract) {
        return Err(ContractError::Unauthorized);
    }
    let fee = match compute_lido_fee(rewards_balance, config.lido_fee_rate) {
        Ok(f) => f,
        Err(e) => {
            return Err(e);
        },
    };
    let net = match rewards_balance.checked_sub(fee) {
        Some(n) => n,
        None => {
            return Err(ContractError::Arithmetic);
        },
    };
    Ok(DispatchPlan { statom_rewards: net, lido_statom_fee: fee })
}

/// Update the dispatcher's configuration. Only the owner may call this, and
/// the reward denomination can never change; on any error the configuration
/// is left untouched.
pub fn execute_update_config(
    config: &mut Config,
    sender: String,
    owner: Option<String>,
    hub_contract: Option<String>,
    statom_reward_denom: Option<String>,
    lido_fee_address: Option<String>,
    lido_fee_rate: Option<Dec>,
) -> (r: Result<(), ContractError>)
    ensures
        sender@ != old(config).owner@ ==> *final(config) == *old(config) && (r == Err::<
            (),
            ContractError,
        >(ContractError::Unauthorized)),
        sender@ == old(config).owner@ && statom_reward_denom is Some ==> *final(config) == *old(
            config,
        ) && (r == Err::<(), ContractError>(ContractError::RewardDenomUpdateForbidden)),
        sender@ == old(config).owner@ && statom_reward_denom is None ==> {
            &&& r is Ok
            &&& final(config).owner@ == (match owner {
                Some(o) => o@,
                None => old(config).owner@,
            })
            &&& final(config).hub_contract@ == (match hub_contract {
                Some(h) => h@,
                None => old(config).hub_contract@,
            })
            &&& final(config).statom_reward_denom == old(config).statom_reward_denom
            &&& final(config).lido_fee_address@ == (match lido_fee_address {
                Some(a) => a@,
                None => old(config).lido_fee_address@,
            })
            &&& final(config).lido_fee_rate == (match lido_fee_rate {
                Some(f) => f,
                None => old(config).lido_fee_rate,
            })
        },
{
    if !(sender == config.owner) {
        return Err(ContractError::Unauthorized);
    }
    if statom_reward_denom.is_some() {
        return Err(ContractError::RewardDenomUpdateForbidden);
    }
    if let Some(o) = owner {
        config.owner = o;
    }
    if let Some(h) = hub_contract {
        config.hub_contract = h;
    }
    if let Some(f) = lido_fee_rate {
        config.lido_fee_rate = f;
    }
    if let Some(a) = lido_fee_address {
        config.lido_fee_address = a;
    }
    Ok(())
}

} // verus!
