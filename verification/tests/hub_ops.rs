//! Bonding, unbonding, slashing and withdrawal against the hub ledger.

use lido_cosmos_hub::bond::{execute_bond, BondReceipt};
use lido_cosmos_hub::config::execute_update_config;
use lido_cosmos_hub::contract::{
    execute_slashing, instantiate, query_config, query_current_batch, query_state, Hub,
};
use lido_cosmos_hub::error::ContractError;
use lido_cosmos_hub::hub::{BondType, Coin, InstantiateMsg};
use lido_cosmos_hub::math::SCALE;
use lido_cosmos_hub::unbond::{
    execute_unbond_statom, execute_withdraw_unbonded, query_unbond_requests,
    query_unbond_requests_limitation, query_withdrawable_unbonded, read_unbond_wait_list,
};

const T0: u64 = 1_571_797_419;

fn coin(amount: u128, denom: &str) -> Coin {
    Coin {
        denom: denom.to_string(),
        amount,
    }
}

fn initialize(owner: &str, reward_contract: &str, statom_token_contract: &str) -> Hub {
    let msg = InstantiateMsg {
        epoch_period: 30,
        underlying_coin_denom: "uatom".to_string(),
        unbonding_period: 2,
    };
    let mut hub = instantiate(owner.to_string(), msg, T0);
    let dispatcher_changed = execute_update_config(
        &mut hub,
        owner.to_string(),
        None,
        Some(reward_contract.to_string()),
        Some(statom_token_contract.to_string()),
        Some("validators_registry".to_string()),
    )
    .unwrap();
    assert!(dispatcher_changed);
    hub
}

fn do_bond_statom(hub: &mut Hub, addr: &str, amount: u128, dels: &Vec<Coin>, issued: u128) -> BondReceipt {
    execute_bond(
        hub,
        addr.to_string(),
        vec![coin(amount, "uatom")],
        BondType::StAtom,
        dels,
        issued,
    )
    .unwrap()
}

fn do_unbond(hub: &mut Hub, addr: &str, now: u64, amount: u128, dels: &Vec<Coin>, issued: u128)
    -> lido_cosmos_hub::unbond::UnbondReceipt {
    execute_unbond_statom(hub, now, amount, addr.to_string(), dels, issued).unwrap()
}

#[test]
fn proper_initialization() {
    let msg = InstantiateMsg {
        epoch_period: 30,
        underlying_coin_denom: "uatom".to_string(),
        unbonding_period: 210,
    };
    let hub = instantiate("owner1".to_string(), msg, T0);

    assert_eq!(hub.parameters.epoch_period, 30);
    assert_eq!(hub.parameters.underlying_coin_denom, "uatom");
    assert_eq!(hub.parameters.unbonding_period, 210);

    let state = query_state(&hub, &vec![], 0).unwrap();
    assert_eq!(state.statom_exchange_rate.atomics, SCALE);
    assert_eq!(state.total_bond_statom_amount, 0);
    assert_eq!(state.prev_hub_balance, 0);
    assert_eq!(state.last_unbonded_time, T0);
    assert_eq!(state.last_processed_batch, 0);

    let conf = query_config(&hub);
    assert_eq!(conf.owner, "owner1");
    assert_eq!(conf.reward_dispatcher_contract, None);
    assert_eq!(conf.validators_registry_contract, None);
    assert_eq!(conf.statom_token_contract, None);

    let batch = query_current_batch(&hub);
    assert_eq!(batch.id, 1);
    assert_eq!(batch.requested_statom, 0);
}

#[test]
fn proper_bond_for_st_atom() {
    let mut hub = initialize("owner1", "reward", "statom_token");
    let bond_amount: u128 = 10000;

    let receipt = do_bond_statom(&mut hub, "addr1000", bond_amount, &vec![], 0);
    assert_eq!(receipt.mint_amount, bond_amount);
    assert_eq!(receipt.delegate_amount, bond_amount);

    let state = query_state(&hub, &vec![], bond_amount).unwrap();
    assert_eq!(state.total_bond_statom_amount, bond_amount);
    assert_eq!(state.statom_exchange_rate.atomics, SCALE);

    // no funds provided
    let res = execute_bond(&mut hub, "bob".to_string(), vec![], BondType::StAtom, &vec![], bond_amount);
    assert_eq!(res.unwrap_err(), ContractError::NoFunds);

    // a coin of another denomination
    let res = execute_bond(
        &mut hub,
        "bob".to_string(),
        vec![coin(10, "ukrt")],
        BondType::StAtom,
        &vec![],
        bond_amount,
    );
    assert_eq!(res.unwrap_err(), ContractError::NoFunds);

    // more than one coin
    let res = execute_bond(
        &mut hub,
        "addr1000".to_string(),
        vec![coin(bond_amount, "uatom"), coin(bond_amount, "uusd")],
        BondType::StAtom,
        &vec![],
        bond_amount,
    );
    assert_eq!(res.unwrap_err(), ContractError::MoreThanOneCoin);
}

#[test]
fn proper_bond_rewards() {
    let mut hub = initialize("owner1", "reward_dispatcher", "statom_token");
    let bond_amount: u128 = 10000;

    do_bond_statom(&mut hub, "addr1000", bond_amount, &vec![], 0);

    let receipt = execute_bond(
        &mut hub,
        "reward_dispatcher".to_string(),
        vec![coin(bond_amount, "uatom")],
        BondType::BondRewards,
        &vec![],
        bond_amount,
    )
    .unwrap();
    assert_eq!(receipt.mint_amount, 0);
    assert_eq!(receipt.delegate_amount, bond_amount);

    // both deposits are delegated; the derivative supply stayed at 10000
    let dels = vec![
        coin(6666, "uatom"),
        coin(6666, "uatom"),
        coin(6668, "uatom"),
    ];
    let state = query_state(&hub, &dels, bond_amount).unwrap();
    assert_eq!(state.total_bond_statom_amount, bond_amount + bond_amount);
    assert_eq!(state.statom_exchange_rate.atomics, 2 * SCALE);

    // no funds provided
    let res = execute_bond(
        &mut hub,
        "reward_dispatcher".to_string(),
        vec![],
        BondType::BondRewards,
        &dels,
        bond_amount,
    );
    assert_eq!(res.unwrap_err(), ContractError::NoFunds);

    // a coin of another denomination
    let res = execute_bond(
        &mut hub,
        "reward_dispatcher".to_string(),
        vec![coin(10, "ukrt")],
        BondType::BondRewards,
        &dels,
        bond_amount,
    );
    assert_eq!(res.unwrap_err(), ContractError::NoFunds);

    // more than one coin
    let res = execute_bond(
        &mut hub,
        "reward_dispatcher".to_string(),
        vec![coin(bond_amount, "uatom"), coin(bond_amount, "uusd")],
        BondType::BondRewards,
        &dels,
        bond_amount,
    );
    assert_eq!(res.unwrap_err(), ContractError::MoreThanOneCoin);

    // the reward path is restricted to the dispatcher
    let res = execute_bond(
        &mut hub,
        "random_address".to_string(),
        vec![coin(bond_amount, "uatom")],
        BondType::BondRewards,
        &dels,
        bond_amount,
    );
    assert_eq!(res.unwrap_err(), ContractError::Unauthorized);
}

#[test]
fn proper_unbond_statom() {
    let mut hub = initialize("owner1", "reward", "statom_token");

    let receipt = do_bond_statom(&mut hub, "bob", 10, &vec![], 0);
    assert_eq!(receipt.mint_amount, 10);
    assert_eq!(receipt.delegate_amount, 10);

    let dels = vec![coin(10, "uatom")];

    let batch = query_current_batch(&hub);
    assert_eq!(batch.id, 1);
    assert_eq!(batch.requested_statom, 0);

    let state = query_state(&hub, &dels, 10).unwrap();
    assert_eq!(state.last_unbonded_time, T0);
    assert_eq!(state.total_bond_statom_amount, 10);

    // burn 1: no closure, one wait-list entry
    let receipt = do_unbond(&mut hub, "bob", T0, 1, &dels, 10);
    assert_eq!(receipt.burn_amount, 1);
    assert_eq!(receipt.undelegate_amount, None);
    let wait = read_unbond_wait_list(&hub, 1, "bob".to_string()).unwrap();
    assert_eq!(wait.statom_amount, 1);

    // burn 5 more in the same window: the entry coalesces
    let receipt = do_unbond(&mut hub, "bob", T0, 5, &dels, 9);
    assert_eq!(receipt.burn_amount, 5);
    assert_eq!(receipt.undelegate_amount, None);
    let wait = read_unbond_wait_list(&hub, 1, "bob".to_string()).unwrap();
    assert_eq!(wait.statom_amount, 6);

    let batch = query_current_batch(&hub);
    assert_eq!(batch.id, 1);
    assert_eq!(batch.requested_statom, 6);

    // an epoch later, a burn of 2 closes batch 1 with the accumulated 6 and
    // itself opens batch 2
    let receipt = do_unbond(&mut hub, "bob", T0 + 31, 2, &dels, 4);
    assert_eq!(receipt.burn_amount, 2);
    assert_eq!(receipt.undelegate_amount, Some(6));

    let batch = query_current_batch(&hub);
    assert_eq!(batch.id, 2);
    assert_eq!(batch.requested_statom, 2);

    let state = query_state(&hub, &dels, 2).unwrap();
    assert_eq!(state.last_unbonded_time, T0 + 31);
    assert_eq!(state.total_bond_statom_amount, 4);

    let requests = query_unbond_requests(&hub, "bob".to_string());
    assert_eq!(requests.requests[0], (1, 6));
    assert_eq!(requests.requests[1], (2, 2));

    let res = query_unbond_requests_limitation(&hub, None, None);
    assert_eq!(res.history[0].statom_amount, 6);
    assert_eq!(res.history[0].statom_applied_exchange_rate.atomics, SCALE);
    assert!(
        !res.history[0].released,
        "res.history[0].released is not false"
    );
    assert_eq!(res.history[0].batch_id, 1);
}

#[test]
fn proper_slashing_statom() {
    let mut hub = initialize("owner1", "reward", "statom_token");

    do_bond_statom(&mut hub, "addr1000", 1000, &vec![], 0);

    // the observed delegations dropped to 900: the ledger writes itself down
    let dels = vec![coin(900, "uatom")];
    let state = execute_slashing(&mut hub, &dels, 1000).unwrap();
    assert_eq!(state.total_bond_statom_amount, 900);
    assert_eq!(state.statom_exchange_rate.atomics, 9 * SCALE / 10);

    // a bond of 900 at rate 0.9 mints 1000
    let receipt = do_bond_statom(&mut hub, "addr1000", 900, &dels, 1000);
    assert_eq!(receipt.mint_amount, 1000);

    let state = query_state(&hub, &dels, 1000).unwrap();
    assert_eq!(state.statom_exchange_rate.atomics, 9 * SCALE / 10);

    // all 1800 underlying units are delegated again; supply is 2000
    let dels = vec![coin(1800, "uatom")];
    let receipt = do_unbond(&mut hub, "addr1000", T0, 500, &dels, 2000);
    assert_eq!(receipt.undelegate_amount, None);

    let receipt = do_unbond(&mut hub, "addr1000", T0 + 31, 500, &dels, 1500);
    assert_eq!(receipt.undelegate_amount, Some(450));

    let state = query_state(&hub, &dels, 1000).unwrap();
    assert_eq!(state.statom_exchange_rate.atomics, 9 * SCALE / 10);

    // batch 1 matured; 900 units are held, more than the promised 450
    let paid = execute_withdraw_unbonded(&mut hub, T0 + 121, "addr1000".to_string(), 900).unwrap();
    assert_eq!(paid, 450);

    let state = query_state(&hub, &dels, 1000).unwrap();
    assert_eq!(state.statom_exchange_rate.atomics, 9 * SCALE / 10);
}

#[test]
fn proper_withdraw_unbonded_statom() {
    let mut hub = initialize("owner1", "reward", "statom_token");

    do_bond_statom(&mut hub, "bob", 100, &vec![], 0);

    let receipt = execute_bond(
        &mut hub,
        "reward".to_string(),
        vec![coin(100, "uatom")],
        BondType::BondRewards,
        &vec![],
        100,
    )
    .unwrap();
    assert_eq!(receipt.mint_amount, 0);

    let dels = vec![coin(200, "uatom")];

    let receipt = do_unbond(&mut hub, "bob", T0, 10, &dels, 100);
    assert_eq!(receipt.undelegate_amount, None);

    // nothing has matured yet
    let res = execute_withdraw_unbonded(&mut hub, T0 + 31, "bob".to_string(), 0);
    assert_eq!(res.unwrap_err(), ContractError::NothingWithdrawableYet);

    // the second burn closes batch 1 (10 tokens at rate 2)
    let receipt = do_unbond(&mut hub, "bob", T0 + 31, 10, &dels, 90);
    assert_eq!(receipt.undelegate_amount, Some(20));

    let state = query_state(&hub, &dels, 80).unwrap();
    assert_eq!(state.total_bond_statom_amount, 180);
    assert_eq!(state.statom_exchange_rate.atomics, 2 * SCALE);

    // not yet matured as of T0
    let res = query_withdrawable_unbonded(&hub, "bob".to_string(), T0).unwrap();
    assert_eq!(res.withdrawable, 0);

    let requests = query_unbond_requests(&hub, "bob".to_string());
    assert_eq!(requests.requests.len(), 2);
    assert_eq!(requests.requests[0], (1, 10));
    assert_eq!(requests.requests[1], (2, 10));

    let res = query_unbond_requests_limitation(&hub, None, None);
    assert_eq!(res.history[0].statom_amount, 10);
    assert_eq!(res.history[0].batch_id, 1);

    // batch 1 matured: 10 tokens at the promised rate 2
    let res = query_withdrawable_unbonded(&hub, "bob".to_string(), T0 + 122).unwrap();
    assert_eq!(res.withdrawable, 20);

    let paid = execute_withdraw_unbonded(&mut hub, T0 + 122, "bob".to_string(), 40).unwrap();
    assert_eq!(paid, 20);

    // the claim is settled and removed
    let res = query_withdrawable_unbonded(&hub, "bob".to_string(), T0 + 122).unwrap();
    assert_eq!(res.withdrawable, 0);

    let requests = query_unbond_requests(&hub, "bob".to_string());
    assert_eq!(requests.requests, vec![(2, 10)]);

    let state = query_state(&hub, &dels, 80).unwrap();
    assert_eq!(state.prev_hub_balance, 20);
}

#[test]
fn proper_withdraw_unbonded_respect_slashing_statom() {
    let mut hub = initialize("owner1", "reward", "statom_token");

    let bond_amount: u128 = 10000;
    let unbond_amount: u128 = 500;

    do_bond_statom(&mut hub, "bob", bond_amount, &vec![], 0);
    let dels = vec![coin(bond_amount, "uatom")];

    let receipt = do_unbond(&mut hub, "bob", T0, unbond_amount, &dels, bond_amount);
    assert_eq!(receipt.undelegate_amount, None);

    let res = execute_withdraw_unbonded(&mut hub, T0 + 31, "bob".to_string(), 0);
    assert_eq!(res.unwrap_err(), ContractError::NothingWithdrawableYet);

    let receipt = do_unbond(&mut hub, "bob", T0 + 31, unbond_amount, &dels, 9500);
    assert_eq!(receipt.undelegate_amount, Some(500));

    let res = query_withdrawable_unbonded(&hub, "bob".to_string(), T0).unwrap();
    assert_eq!(res.withdrawable, 0);

    let requests = query_unbond_requests(&hub, "bob".to_string());
    assert_eq!(requests.requests[0], (1, 500));
    assert_eq!(requests.requests[1], (2, 500));

    let res = query_withdrawable_unbonded(&hub, "bob".to_string(), T0 + 122).unwrap();
    assert_eq!(res.withdrawable, 500);

    let paid = execute_withdraw_unbonded(&mut hub, T0 + 122, "bob".to_string(), 900).unwrap();
    assert_eq!(paid, 500);

    let res = query_withdrawable_unbonded(&hub, "bob".to_string(), T0 + 122).unwrap();
    assert_eq!(res.withdrawable, 0);
}

#[test]
fn proper_withdraw_unbonded_respect_inactivity_slashing_statom() {
    let mut hub = initialize("owner1", "reward", "statom_token");

    let bond_amount: u128 = 10000;
    let unbond_amount: u128 = 500;

    do_bond_statom(&mut hub, "bob", bond_amount, &vec![], 0);
    let dels = vec![coin(bond_amount, "uatom")];

    do_unbond(&mut hub, "bob", T0, unbond_amount, &dels, bond_amount);

    let res = execute_withdraw_unbonded(&mut hub, T0, "bob".to_string(), 0);
    assert_eq!(res.unwrap_err(), ContractError::NothingWithdrawableYet);

    let batch = query_current_batch(&hub);
    assert_eq!(batch.id, 1);
    assert_eq!(batch.requested_statom, unbond_amount);

    // a long idle stretch, then the next burn closes batch 1
    let receipt = do_unbond(&mut hub, "bob", T0 + 1000, unbond_amount, &dels, 9500);
    assert_eq!(receipt.undelegate_amount, Some(500));

    let batch = query_current_batch(&hub);
    assert_eq!(batch.id, 2);
    assert_eq!(batch.requested_statom, unbond_amount);

    let res = query_unbond_requests_limitation(&hub, None, None);
    assert_eq!(res.history[0].statom_amount, 500);
    assert_eq!(res.history[0].statom_withdraw_rate.atomics, 0);
    assert!(
        !res.history[0].released,
        "res.history[0].released is not false"
    );
    assert_eq!(res.history[0].batch_id, 1);

    let res = query_withdrawable_unbonded(&hub, "bob".to_string(), T0).unwrap();
    assert_eq!(res.withdrawable, 0);

    let requests = query_unbond_requests(&hub, "bob".to_string());
    assert_eq!(requests.requests[0], (1, 500));
    assert_eq!(requests.requests[1], (2, 500));

    let res = query_withdrawable_unbonded(&hub, "bob".to_string(), T0 + 2091).unwrap();
    assert_eq!(res.withdrawable, 500);

    let paid = execute_withdraw_unbonded(&mut hub, T0 + 2091, "bob".to_string(), 900).unwrap();
    assert_eq!(paid, 500);

    let res = query_withdrawable_unbonded(&hub, "bob".to_string(), T0 + 2091).unwrap();
    assert_eq!(res.withdrawable, 0);

    let res = query_unbond_requests_limitation(&hub, None, None);
    assert_eq!(res.history[0].statom_amount, 500);
    assert_eq!(res.history[0].statom_applied_exchange_rate.atomics, SCALE);
    assert_eq!(res.history[0].statom_withdraw_rate.atomics, SCALE);
    assert!(
        res.history[0].released,
        "res.history[0].released is not true"
    );
    assert_eq!(res.history[0].batch_id, 1);
}

#[test]
fn proper_withdraw_unbond_with_dummies_statom() {
    let mut hub = initialize("owner1", "reward", "statom_token");

    let bond_amount: u128 = 10000;
    let unbond_amount: u128 = 500;

    do_bond_statom(&mut hub, "bob", bond_amount, &vec![], 0);
    let dels = vec![coin(bond_amount, "uatom")];

    do_unbond(&mut hub, "bob", T0, unbond_amount, &dels, bond_amount);

    let receipt = do_unbond(&mut hub, "bob", T0 + 31, unbond_amount, &dels, 9500);
    assert_eq!(receipt.undelegate_amount, Some(500));

    // slashing reduces the observed delegations to 8000
    let dels = vec![coin(bond_amount - 2000, "uatom")];

    let receipt = do_unbond(&mut hub, "bob", T0 + 31, unbond_amount, &dels, 9000);
    assert_eq!(receipt.undelegate_amount, None);

    let receipt = do_unbond(&mut hub, "bob", T0 + 62, unbond_amount, &dels, 8500);
    // batch 2 closes with 1000 tokens at the slashed rate 8000/9500
    let r2 = 8000 * SCALE / 9500;
    assert_eq!(receipt.undelegate_amount, Some(842));

    let paid = execute_withdraw_unbonded(&mut hub, T0 + 182, "bob".to_string(), 2200).unwrap();
    assert_eq!(paid, 500 + 842);

    let res = query_unbond_requests_limitation(&hub, None, None);
    assert_eq!(res.history[0].statom_amount, 500);
    assert_eq!(res.history[0].statom_withdraw_rate.atomics, SCALE);
    assert!(
        res.history[0].released,
        "res.history[0].released is not true"
    );
    assert_eq!(res.history[0].batch_id, 1);
    assert_eq!(res.history[1].statom_amount, 1000);
    assert_eq!(res.history[1].statom_withdraw_rate.atomics, r2);
    assert!(
        res.history[1].released,
        "res.history[1].released is not true"
    );
    assert_eq!(res.history[1].batch_id, 2);

    let res = query_withdrawable_unbonded(&hub, "bob".to_string(), T0 + 182).unwrap();
    assert_eq!(res.withdrawable, 0);
}
