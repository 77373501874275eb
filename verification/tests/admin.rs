//! Parameter, configuration, pause and guardian handling, and the rewards
//! dispatcher's own rules.

use lido_cosmos_hub::bond::execute_bond;
use lido_cosmos_hub::config::{
    execute_add_guardians, execute_pause_contracts, execute_remove_guardians,
    execute_unpause_contracts, execute_update_config, execute_update_params,
};
use lido_cosmos_hub::contract::{instantiate, query_config, query_guardians, query_params, Hub};
use lido_cosmos_hub::dispatcher;
use lido_cosmos_hub::error::ContractError;
use lido_cosmos_hub::hub::{is_paused, BondType, Coin, InstantiateMsg};
use lido_cosmos_hub::math::{Dec, SCALE};

const T0: u64 = 1_571_797_419;

fn initialize(owner: &str, reward_contract: &str, statom_token_contract: &str) -> Hub {
    let msg = InstantiateMsg {
        epoch_period: 30,
        underlying_coin_denom: "uatom".to_string(),
        unbonding_period: 2,
    };
    let mut hub = instantiate(owner.to_string(), msg, T0);
    execute_update_config(
        &mut hub,
        owner.to_string(),
        None,
        Some(reward_contract.to_string()),
        Some(statom_token_contract.to_string()),
        Some("validators_registry".to_string()),
    )
    .unwrap();
    hub
}

fn default_dispatcher_config() -> dispatcher::Config {
    dispatcher::Config {
        owner: "creator".to_string(),
        hub_contract: "hub".to_string(),
        statom_reward_denom: "uatom".to_string(),
        lido_fee_address: "lido_fee".to_string(),
        lido_fee_rate: Dec { atomics: 5 * SCALE / 100 },
    }
}

#[test]
fn test_update_params() {
    let mut hub = initialize("owner1", "reward", "statom_token");

    // only the creator may update parameters
    let res = execute_update_params(&mut hub, "invalid".to_string(), Some(20), None);
    assert_eq!(res.unwrap_err(), ContractError::Unauthorized);

    execute_update_params(&mut hub, "owner1".to_string(), Some(20), None).unwrap();
    let params = query_params(&hub);
    assert_eq!(params.epoch_period, 20);
    assert_eq!(params.underlying_coin_denom, "uatom");
    assert_eq!(params.unbonding_period, 2);

    execute_update_params(&mut hub, "owner1".to_string(), None, Some(3)).unwrap();
    let params = query_params(&hub);
    assert_eq!(params.epoch_period, 20);
    assert_eq!(params.underlying_coin_denom, "uatom");
    assert_eq!(params.unbonding_period, 3);
}

#[test]
fn proper_update_config() {
    let mut hub = initialize("owner1", "reward", "statom_token");

    let conf = query_config(&hub);
    assert_eq!(conf.reward_dispatcher_contract.unwrap(), "reward");
    assert_eq!(conf.owner, "owner1");

    // only the owner can change the configuration
    let res = execute_update_config(
        &mut hub,
        "invalid_owner".to_string(),
        Some("new_owner".to_string()),
        None,
        None,
        None,
    );
    assert_eq!(res.unwrap_err(), ContractError::Unauthorized);

    // change the owner
    execute_update_config(
        &mut hub,
        "owner1".to_string(),
        Some("new_owner".to_string()),
        None,
        None,
        None,
    )
    .unwrap();
    assert_eq!(hub.config.creator, "new_owner");

    // the new owner can administrate, the previous one cannot
    execute_update_params(&mut hub, "new_owner".to_string(), None, None).unwrap();
    let res = execute_update_params(&mut hub, "owner1".to_string(), None, None);
    assert_eq!(res.unwrap_err(), ContractError::Unauthorized);

    // pointing at a new reward dispatcher asks for a withdraw-address change
    let dispatcher_changed = execute_update_config(
        &mut hub,
        "new_owner".to_string(),
        None,
        Some("new reward".to_string()),
        None,
        None,
    )
    .unwrap();
    assert!(dispatcher_changed);
    let conf = query_config(&hub);
    assert_eq!(conf.reward_dispatcher_contract.unwrap(), "new reward");
    assert_eq!(conf.owner, "new_owner");

    let dispatcher_changed =
        execute_update_config(&mut hub, "new_owner".to_string(), None, None, None, None).unwrap();
    assert!(!dispatcher_changed);

    execute_update_config(
        &mut hub,
        "new_owner".to_string(),
        None,
        None,
        None,
        Some("new registry".to_string()),
    )
    .unwrap();
    let conf = query_config(&hub);
    assert_eq!(conf.validators_registry_contract.unwrap(), "new registry");

    // the derivative token address is write-once
    let res = execute_update_config(
        &mut hub,
        "new_owner".to_string(),
        None,
        None,
        Some("statom_token".to_string()),
        None,
    );
    assert_eq!(res.unwrap_err(), ContractError::StAtomTokenUpdateForbidden);
    let conf = query_config(&hub);
    assert_eq!(conf.statom_token_contract.unwrap(), "statom_token");
}

#[test]
fn test_pause() {
    let mut hub = initialize("owner1", "reward", "statom_token");

    let pause = execute_pause_contracts(&mut hub, "owner1".to_string());
    assert!(pause.is_ok());
    assert!(is_paused(&hub.parameters));

    // a paused hub rejects state-changing calls
    let res = execute_bond(
        &mut hub,
        "owner1".to_string(),
        vec![Coin { denom: "uatom".to_string(), amount: 10 }],
        BondType::StAtom,
        &vec![],
        0,
    );
    assert_eq!(res.unwrap_err(), ContractError::Paused);

    // and a paused hub blocks the dispatcher
    let conf = default_dispatcher_config();
    let res = dispatcher::execute_dispatch_rewards(&conf, true, "hub".to_string(), 100);
    assert_eq!(res.unwrap_err(), ContractError::Paused);

    execute_unpause_contracts(&mut hub, "owner1".to_string()).unwrap();
    assert!(!is_paused(&hub.parameters));
    let res = dispatcher::execute_dispatch_rewards(&conf, false, "hub".to_string(), 100);
    assert!(res.is_ok());
}

#[test]
fn test_guardians() {
    let mut hub = initialize("owner1", "reward", "statom_token");

    // only the owner can add guardians
    let res = execute_add_guardians(
        &mut hub,
        "some_user".to_string(),
        vec!["guardian1".to_string(), "guardian2".to_string()],
    );
    assert_eq!(res.unwrap_err(), ContractError::Unauthorized);

    execute_add_guardians(
        &mut hub,
        "owner1".to_string(),
        vec!["guardian1".to_string(), "guardian2".to_string()],
    )
    .unwrap();
    let guardians = query_guardians(&hub);
    assert_eq!(guardians.len(), 2);
    assert_eq!(guardians, vec!["guardian1".to_string(), "guardian2".to_string()]);

    // a guardian can pause
    execute_pause_contracts(&mut hub, "guardian1".to_string()).unwrap();
    assert!(is_paused(&hub.parameters));

    let res = execute_bond(
        &mut hub,
        "owner1".to_string(),
        vec![Coin { denom: "uatom".to_string(), amount: 10 }],
        BondType::StAtom,
        &vec![],
        0,
    );
    assert_eq!(res.unwrap_err(), ContractError::Paused);

    // guardians cannot unpause, the owner can
    let res = execute_unpause_contracts(&mut hub, "guardian2".to_string());
    assert_eq!(res.unwrap_err(), ContractError::Unauthorized);
    execute_unpause_contracts(&mut hub, "owner1".to_string()).unwrap();
    assert!(!is_paused(&hub.parameters));

    // a removed guardian loses the right to pause
    execute_remove_guardians(&mut hub, "owner1".to_string(), vec!["guardian1".to_string()])
        .unwrap();
    let guardians = query_guardians(&hub);
    assert_eq!(guardians, vec!["guardian2".to_string()]);
    let res = execute_pause_contracts(&mut hub, "guardian1".to_string());
    assert_eq!(res.unwrap_err(), ContractError::Unauthorized);
}

#[test]
fn tests_proper_initialization() {
    let conf = default_dispatcher_config();
    assert_eq!(conf.owner, "creator");
    assert_eq!(conf.hub_contract, "hub");
    assert_eq!(conf.statom_reward_denom, "uatom");
    assert_eq!(conf.lido_fee_address, "lido_fee");
    assert_eq!(conf.lido_fee_rate.atomics, 5 * SCALE / 100);
}

#[test]
fn test_dispatch_rewards() {
    let conf = default_dispatcher_config();

    // only the hub may trigger a dispatch
    let res = dispatcher::execute_dispatch_rewards(&conf, false, "creator".to_string(), 200);
    assert_eq!(res.unwrap_err(), ContractError::Unauthorized);

    // 200 uatom held: 5% fee, the rest redeposited
    let plan = dispatcher::execute_dispatch_rewards(&conf, false, "hub".to_string(), 200).unwrap();
    assert_eq!(plan.statom_rewards, 190);
    assert_eq!(plan.lido_statom_fee, 10);
}

#[test]
fn test_dispatch_rewards_zero_lido_fee() {
    let mut conf = default_dispatcher_config();
    conf.lido_fee_rate = Dec { atomics: 0 };

    let plan = dispatcher::execute_dispatch_rewards(&conf, false, "hub".to_string(), 200).unwrap();
    assert_eq!(plan.statom_rewards, 200);
    assert_eq!(plan.lido_statom_fee, 0);
}

#[test]
fn test_update_config() {
    let mut conf = default_dispatcher_config();

    // only the owner can change the configuration
    let res = dispatcher::execute_update_config(
        &mut conf,
        "invalid_owner".to_string(),
        Some("some_addr".to_string()),
        None,
        None,
        None,
        None,
    );
    assert_eq!(res.unwrap_err(), ContractError::Unauthorized);

    // change the owner
    dispatcher::execute_update_config(
        &mut conf,
        "creator".to_string(),
        Some("new_owner".to_string()),
        None,
        None,
        None,
        None,
    )
    .unwrap();
    assert_eq!(conf.owner, "new_owner");

    // change the hub contract
    dispatcher::execute_update_config(
        &mut conf,
        "new_owner".to_string(),
        None,
        Some("some_address".to_string()),
        None,
        None,
        None,
    )
    .unwrap();
    assert_eq!(conf.hub_contract, "some_address");

    // the reward denomination can never change
    let res = dispatcher::execute_update_config(
        &mut conf,
        "new_owner".to_string(),
        None,
        None,
        Some("new_denom".to_string()),
        None,
        None,
    );
    assert_eq!(res.unwrap_err(), ContractError::RewardDenomUpdateForbidden);
    assert_eq!(conf.statom_reward_denom, "uatom");

    // change the fee address
    dispatcher::execute_update_config(
        &mut conf,
        "new_owner".to_string(),
        None,
        None,
        None,
        Some("some_address".to_string()),
        None,
    )
    .unwrap();
    assert_eq!(conf.lido_fee_address, "some_address");

    // change the fee rate
    dispatcher::execute_update_config(
        &mut conf,
        "new_owner".to_string(),
        None,
        None,
        None,
        None,
        Some(Dec { atomics: SCALE }),
    )
    .unwrap();
    assert_eq!(conf.lido_fee_rate.atomics, SCALE);
}
