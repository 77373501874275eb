//! The bond accountant: prices a user deposit at the reconciled exchange
//! rate, or folds a reward redeposit into the backing so the rate rises for
//! every holder.

use vstd::prelude::*;

use crate::contract::{
    query_actual_state, reconcile_active, reconcile_fits, spec_reconciled_state, Hub,
};
use crate::error::ContractError;
use crate::hub::{
    rate_update_fits, spec_is_paused, spec_rate_atomics, BondType, Coin, Config, CurrentBatch,
    Parameters, State,
};
use crate::math::{decimal_division, Dec, SCALE};

verus! {

/// What a bond call asks the chain to do: delegate the deposit across the
/// validator set, and (on the user path) mint derivative tokens for the
/// sender.
#[derive(Clone, Copy, Debug, PartialEq, Eq, Structural)]
pub struct BondReceipt {
    pub mint_amount: u128,
    pub delegate_amount: u128,
}

/// The single accepted payment in `funds`: exactly one coin, of the
/// underlying denomination, with a positive amount.
pub open spec fn spec_bond_payment(funds: Seq<Coin>, denom: Seq<char>) -> Option<u128> {
    if funds.len() == 1 && funds[0].denom@ == denom && funds[0].amount > 0 {
        Some(funds[0].amount)
    } else {
        None
    }
}

/// floor(payment / rate): the derivative tokens a deposit buys.
pub open spec fn spec_mint_amount(payment: u128, rate: Dec) -> int {
    (payment * SCALE) / (rate.atomics as int)
}

/// The exact outcome of a bond call: either the receipt and the new ledger
/// state, or the error it fails with, in the order the checks are made.
pub open spec fn spec_execute_bond(
    config: Config,
    params: Parameters,
    state0: State,
    batch: CurrentBatch,
    sender: Seq<char>,
    funds: Seq<Coin>,
    bond_type: BondType,
    dels: Seq<Coin>,
    total_statom_issued: u128,
) -> Result<(BondReceipt, State), ContractError> {
    let denom = params.underlying_coin_denom@;
    if spec_is_paused(params) {
        Err(ContractError::Paused)
    } else if config.reward_dispatcher_contract is None {
        Err(ContractError::RewardDispatcherNotRegistered)
    } else if bond_type == BondType::BondRewards && !(config.reward_dispatcher_contract matches
    Some(d) && d@ == sender) {
        Err(ContractError::Unauthorized)
    } else if funds.len() > 1 {
        Err(ContractError::MoreThanOneCoin)
    } else if spec_bond_payment(funds, denom) is None {
        Err(ContractError::NoFunds)
    } else if !reconcile_fits(state0, denom, dels, total_statom_issued, batch.requested_statom) {
        Err(ContractError::Arithmetic)
    } else {
        let payment = spec_bond_payment(funds, denom).unwrap();
        let s1 = spec_reconciled_state(state0, denom, dels, total_statom_issued, batch.requested_statom);
        if bond_type == BondType::StAtom {
            if s1.statom_exchange_rate.atomics == 0 || payment * SCALE > u128::MAX {
                Err(ContractError::Arithmetic)
            } else if config.statom_token_contract is None {
                Err(ContractError::TokenContractNotRegistered)
            } else if s1.total_bond_statom_amount + payment > u128::MAX {
                Err(ContractError::Arithmetic)
            } else {
                Ok(
                    (
                        BondReceipt {
                            mint_amount: spec_mint_amount(
                                payment,
                                s1.statom_exchange_rate,
                            ) as u128,
                            delegate_amount: payment,
                        },
                        State {
                            total_bond_statom_amount: (s1.total_bond_statom_amount
                                + payment) as u128,
                            ..s1
                        },
                    ),
                )
            }
        } else {
            if s1.total_bond_statom_amount + payment > u128::MAX {
                Err(ContractError::Arithmetic)
            } else if !rate_update_fits(
                (s1.total_bond_statom_amount + payment) as u128,
                s1.total_statom_issued,
                batch.requested_statom,
            ) {
                Err(ContractError::Arithmetic)
            } else {
                let bonded2 = s1.total_bond_statom_amount + payment;
                Ok(
                    (
                        BondReceipt { mint_amount: 0, delegate_amount: payment },
                        State {
                            total_bond_statom_amount: bonded2 as u128,
                            statom_exchange_rate: Dec {
                                atomics: spec_rate_atomics(
                                    bonded2 as int,
                                    s1.total_statom_issued + batch.requested_statom,
                                ) as u128,
                            },
                            ..s1
                        },
                    ),
                )
            }
        }
    }
}

/// Bond a deposit. `delegations` and `total_statom_issued` are the
/// delegation coins and the derivative supply as the caller just observed
/// them from the chain and the token collaborator. The slashing detector
/// runs on them first, so the rate used to price the deposit is loss-aware; a user deposit mints
/// `floor(payment / rate)` derivative tokens at the pre-deposit rate, while a
/// reward redeposit (allowed only from the reward dispatcher) mints nothing
/// and recomputes the rate after the deposit is added to the backing. On any
/// error the hub is left untouched.
pub fn execute_bond(
    hub: &mut Hub,
    sender: String,
    funds: Vec<Coin>,
    bond_type: BondType,
    delegations: &Vec<Coin>,
    total_statom_issued: u128,
) -> (r: Result<BondReceipt, ContractError>)
    requires
        old(hub).wf(),
    ensures
        final(hub).wf(),
        final(hub).config == old(hub).config,
        final(hub).parameters == old(hub).parameters,
        final(hub).current_batch == old(hub).current_batch,
        final(hub).unbond_history == old(hub).unbond_history,
        final(hub).wait_list == old(hub).wait_list,
        final(hub).guardians == old(hub).guardians,
        ({
            let expect = spec_execute_bond(
                old(hub).config,
                old(hub).parameters,
                old(hub).state,
                old(hub).current_batch,
                sender@,
                funds@,
                bond_type,
                delegations@,
                total_statom_issued,
            );
            &&& (r matches Ok(receipt) ==> (expect matches Ok(p) && receipt == p.0
                && final(hub).state == p.1))
            &&& (r matches Err(e) ==> (expect matches Err(e2) && e == e2
                && *final(hub) == *old(hub)))
        }),
        // a reward redeposit only ever raises the loss-aware rate
        ({
            let s1 = spec_reconciled_state(
                old(hub).state,
                old(hub).parameters.underlying_coin_denom@,
                delegations@,
                total_statom_issued,
                old(hub).current_batch.requested_statom,
            );
            r is Ok && bond_type == BondType::BondRewards && reconcile_active(
                old(hub).state,
                delegations@,
            ) && s1.total_bond_statom_amount > 0 && total_statom_issued + old(
                hub,
            ).current_batch.requested_statom > 0 ==> final(hub).state.statom_exchange_rate.atomics
                >= s1.statom_exchange_rate.atomics
        }),
{
    if crate::hub::is_paused(&hub.parameters) {
        return Err(ContractError::Paused);
    }
    let dispatcher_registered = match &hub.config.reward_dispatcher_contract {
        Some(d) => {
            if bond_type == BondType::BondRewards && !(sender == *d) {
                return Err(ContractError::Unauthorized);
            }
            true
        },
        None => false,
    };
    if !dispatcher_registered {
        return Err(ContractError::RewardDispatcherNotRegistered);
    }
    if funds.len() > 1 {
        return Err(ContractError::MoreThanOneCoin);
    }
    let payment: u128 = if funds.len() == 1 && funds[0].denom == hub.parameters.underlying_coin_denom
        && funds[0].amount > 0 {
        funds[0].amount
    } else {
        return Err(ContractError::NoFunds);
    };
    let requested_with_fee = hub.current_batch.requested_statom;
    let s1 = match query_actual_state(
        &hub.state,
        &hub.parameters,
        &hub.current_batch,
        delegations,
        total_statom_issued,
    ) {
        Ok(s) => s,
        Err(e) => {
            return Err(e);
        },
    };
    match bond_type {
        BondType::StAtom => {
            let mint_amount = match decimal_division(payment, s1.statom_exchange_rate) {
                Some(m) => m,
                None => {
                    return Err(ContractError::Arithmetic);
                },
            };
            if hub.config.statom_token_contract.is_none() {
                return Err(ContractError::TokenContractNotRegistered);
            }
            let bonded2 = match s1.total_bond_statom_amount.checked_add(payment) {
                Some(b) => b,
                None => {
                    return Err(ContractError::Arithmetic);
                },
            };
            let mut s2 = s1;
            s2.total_bond_statom_amount = bonded2;
            hub.state = s2;
            Ok(BondReceipt { mint_amount, delegate_amount: payment })
        },
        BondType::BondRewards => {
            let bonded2 = match s1.total_bond_statom_amount.checked_add(payment) {
                Some(b) => b,
                None => {
                    return Err(ContractError::Arithmetic);
                },
            };
            let mut s2 = s1;
            s2.total_bond_statom_amount = bonded2;
            match s2.update_statom_exchange_rate(s1.total_statom_issued, requested_with_fee) {
                Ok(()) => {
                    proof {
                        if reconcile_active(old(hub).state, delegations@)
                            && s1.total_bond_statom_amount > 0 && total_statom_issued
                            + old(hub).current_batch.requested_statom > 0 {
                            crate::laws::lemma_rate_nondecreasing_on_rewards(
                                s1.total_bond_statom_amount as int,
                                s1.total_statom_issued + requested_with_fee,
                                payment as int,
                            );
                        }
                    }
                    hub.state = s2;
                    Ok(BondReceipt { mint_amount: 0, delegate_amount: payment })
                },
                Err(e) => Err(e),
            }
        },
    }
}

} // verus!
