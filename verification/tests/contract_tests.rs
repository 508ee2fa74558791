use deposit_withdraw::contract::{execute, execute_withdraw, instantiate, sender_is_owner};
use deposit_withdraw::error::ContractError;
use deposit_withdraw::msg::{Attribute, BankMsg, Coin, ExecuteMsg, InstantiateMsg, MessageInfo};
use deposit_withdraw::state::LedgerStore;

pub const ADDR1: &str = "addr1";
pub const ADDR2: &str = "addr2";
pub const ADDR3: &str = "addr3";

pub const DENOM1: &str = "denom1";
pub const DENOM2: &str = "denom2";
pub const DENOM3: &str = "denom3";

fn coin(denom: &str, amount: u128) -> Coin {
    Coin {
        denom: String::from(denom),
        amount,
    }
}

fn attr(key: &str, value: &str) -> Attribute {
    Attribute::new(key, value)
}

fn info(sender: &str, funds: Vec<Coin>) -> MessageInfo {
    MessageInfo {
        sender: String::from(sender),
        funds,
    }
}

fn instantiated() -> LedgerStore {
    let mut store = LedgerStore::new();
    let msg = InstantiateMsg {
        owner: None,
        accepted_denoms: [String::from(DENOM1), String::from(DENOM2)],
    };
    instantiate(&mut store, ADDR1, msg).unwrap();
    store
}

#[test]
fn test_instantiate() {
    let mut store = LedgerStore::new();

    let msg = InstantiateMsg {
        owner: None,
        accepted_denoms: [String::from(DENOM1), String::from(DENOM2)],
    };

    let res = instantiate(&mut store, ADDR1, msg).unwrap();
    assert_eq!(
        res.attributes,
        vec![attr("action", "instantiate"), attr("owner", ADDR1)]
    )
}

#[test]
fn test_execute_deposit_with_accepted_denoms() {
    let mut store = LedgerStore::new();

    let msg = InstantiateMsg {
        owner: None,
        accepted_denoms: [String::from(DENOM1), String::from(DENOM2)],
    };

    let _res = instantiate(&mut store, ADDR1, msg).unwrap();

    let amout1: u128 = 10;
    let amout2: u128 = 20;
    let coin1 = coin(DENOM1, amout1);
    let coin2 = coin(DENOM2, amout2);

    let msg = ExecuteMsg::Deposit {};
    let res = execute(&mut store, info(ADDR1, vec![coin1, coin2]), msg).unwrap();
    assert_eq!(res.attributes, vec![attr("action", "deposit")])
}

#[test]
fn test_execute_withdraw_with_accepted_denoms() {
    let mut store = LedgerStore::new();

    let msg = InstantiateMsg {
        owner: None,
        accepted_denoms: [String::from(DENOM1), String::from(DENOM2)],
    };

    let _res = instantiate(&mut store, ADDR1, msg).unwrap();

    let amout1: u128 = 10;
    let amout2: u128 = 20;
    let coin1 = coin(DENOM1, amout1);
    let coin2 = coin(DENOM2, amout2);

    let msg = ExecuteMsg::Deposit {};
    let _res = execute(&mut store, info(ADDR1, vec![coin1, coin2]), msg).unwrap();

    let msg = ExecuteMsg::Withdraw {
        denoms: [String::from(DENOM1), String::from(DENOM2)],
        to_addr: String::from(ADDR3),
    };

    let res = execute(&mut store, info(ADDR1, vec![]), msg).unwrap();
    assert_eq!(res.attributes[0], attr("action", "withdraw"))
}

#[test]
fn instantiate_with_explicit_owner() {
    let mut store = LedgerStore::new();
    let msg = InstantiateMsg {
        owner: Some(String::from(ADDR2)),
        accepted_denoms: [String::from(DENOM1), String::from(DENOM2)],
    };
    let res = instantiate(&mut store, ADDR1, msg).unwrap();
    assert_eq!(
        res.attributes,
        vec![attr("action", "instantiate"), attr("owner", ADDR2)]
    );
    assert_eq!(sender_is_owner(&store, ADDR2), Ok(true));
    assert_eq!(sender_is_owner(&store, ADDR1), Ok(false));
}

#[test]
fn instantiate_rejects_empty_owner() {
    let mut store = LedgerStore::new();
    let msg = InstantiateMsg {
        owner: Some(String::new()),
        accepted_denoms: [String::from(DENOM1), String::from(DENOM2)],
    };
    let res = instantiate(&mut store, ADDR1, msg);
    assert_eq!(res, Err(ContractError::InvalidAddress {}));
    // the failed instantiation left the store uninstantiated
    assert_eq!(
        sender_is_owner(&store, ADDR1),
        Err(ContractError::StateLoadError {})
    );
}

#[test]
fn execute_without_instantiation_fails() {
    let mut store = LedgerStore::new();
    let res = execute(&mut store, info(ADDR1, vec![]), ExecuteMsg::Deposit {});
    assert_eq!(res, Err(ContractError::StateLoadError {}));
}

#[test]
fn non_owner_is_rejected() {
    let mut store = instantiated();
    // an otherwise-valid deposit from a stranger
    let res = execute(
        &mut store,
        info(ADDR2, vec![coin(DENOM1, 10), coin(DENOM2, 20)]),
        ExecuteMsg::Deposit {},
    );
    assert_eq!(res, Err(ContractError::Unauthorized {}));
    // no balance was booked by the rejected call
    assert_eq!(store.may_load_balance(DENOM1), None);

    // an otherwise-valid withdrawal from a stranger
    let res = execute(
        &mut store,
        info(ADDR2, vec![]),
        ExecuteMsg::Withdraw {
            denoms: [String::from(DENOM1), String::from(DENOM2)],
            to_addr: String::from(ADDR3),
        },
    );
    assert_eq!(res, Err(ContractError::Unauthorized {}));
}

#[test]
fn deposit_no_funds_rejected() {
    let mut store = instantiated();
    let res = execute(&mut store, info(ADDR1, vec![]), ExecuteMsg::Deposit {});
    assert_eq!(res, Err(ContractError::NoCoinsSent {}));
}

#[test]
fn deposit_single_entry_rejected() {
    let mut store = instantiated();
    let res = execute(
        &mut store,
        info(ADDR1, vec![coin(DENOM1, 5)]),
        ExecuteMsg::Deposit {},
    );
    assert_eq!(res, Err(ContractError::OnlyTwoAllowed {}));
    assert_eq!(store.may_load_balance(DENOM1), None);
}

#[test]
fn deposit_three_entries_rejected() {
    let mut store = instantiated();
    let res = execute(
        &mut store,
        info(
            ADDR1,
            vec![coin(DENOM1, 1), coin(DENOM2, 2), coin(DENOM3, 3)],
        ),
        ExecuteMsg::Deposit {},
    );
    assert_eq!(res, Err(ContractError::TooManyCoins {}));
}

#[test]
fn deposit_unaccepted_denom_rejected() {
    let mut store = instantiated();
    let res = execute(
        &mut store,
        info(ADDR1, vec![coin(DENOM1, 5), coin(DENOM3, 5)]),
        ExecuteMsg::Deposit {},
    );
    assert_eq!(
        res,
        Err(ContractError::DenomsNotSupported {
            denoms: vec![String::from(DENOM3)]
        })
    );
    // nothing was booked, not even the accepted entry
    assert_eq!(store.may_load_balance(DENOM1), None);
}

#[test]
fn deposit_two_unaccepted_denoms_listed_in_order() {
    let mut store = instantiated();
    let res = execute(
        &mut store,
        info(ADDR1, vec![coin("denom4", 5), coin(DENOM3, 5)]),
        ExecuteMsg::Deposit {},
    );
    assert_eq!(
        res,
        Err(ContractError::DenomsNotSupported {
            denoms: vec![String::from("denom4"), String::from(DENOM3)]
        })
    );
}

#[test]
fn deposit_tracks_balances() {
    let mut store = instantiated();
    execute(
        &mut store,
        info(ADDR1, vec![coin(DENOM1, 10), coin(DENOM2, 20)]),
        ExecuteMsg::Deposit {},
    )
    .unwrap();
    assert_eq!(store.may_load_balance(DENOM1).unwrap().amount, 10);
    assert_eq!(store.may_load_balance(DENOM2).unwrap().amount, 20);
}

#[test]
fn deposit_accumulates_balances() {
    let mut store = instantiated();
    execute(
        &mut store,
        info(ADDR1, vec![coin(DENOM1, 10), coin(DENOM2, 20)]),
        ExecuteMsg::Deposit {},
    )
    .unwrap();
    execute(
        &mut store,
        info(ADDR1, vec![coin(DENOM1, 5), coin(DENOM2, 7)]),
        ExecuteMsg::Deposit {},
    )
    .unwrap();
    assert_eq!(store.may_load_balance(DENOM1).unwrap().amount, 15);
    assert_eq!(store.may_load_balance(DENOM2).unwrap().amount, 27);
}

#[test]
fn deposit_duplicate_denom_accumulates_within_one_call() {
    let mut store = instantiated();
    execute(
        &mut store,
        info(ADDR1, vec![coin(DENOM1, 5), coin(DENOM1, 7)]),
        ExecuteMsg::Deposit {},
    )
    .unwrap();
    assert_eq!(store.may_load_balance(DENOM1).unwrap().amount, 12);
    assert_eq!(store.may_load_balance(DENOM2), None);
}

#[test]
fn withdraw_emits_one_transfer_with_both_balances() {
    let mut store = instantiated();
    execute(
        &mut store,
        info(ADDR1, vec![coin(DENOM1, 10), coin(DENOM2, 20)]),
        ExecuteMsg::Deposit {},
    )
    .unwrap();
    let res = execute(
        &mut store,
        info(ADDR1, vec![]),
        ExecuteMsg::Withdraw {
            denoms: [String::from(DENOM1), String::from(DENOM2)],
            to_addr: String::from(ADDR3),
        },
    )
    .unwrap();
    assert_eq!(res.attributes, vec![attr("action", "withdraw")]);
    assert_eq!(
        res.messages,
        vec![BankMsg::Send {
            to_address: String::from(ADDR3),
            amount: vec![coin(DENOM1, 10), coin(DENOM2, 20)],
        }]
    );
}

#[test]
fn withdraw_missing_first_denom_fails() {
    let store = LedgerStore::new();
    let res = execute_withdraw(
        &store,
        [String::from(DENOM1), String::from(DENOM2)],
        String::from(ADDR3),
    );
    assert_eq!(
        res,
        Err(ContractError::InsufficientBalance {
            denom: String::from(DENOM1)
        })
    );
}

#[test]
fn withdraw_missing_second_denom_fails() {
    let mut store = instantiated();
    // book only denom1 and denom1 again, so denom2 stays absent
    execute(
        &mut store,
        info(ADDR1, vec![coin(DENOM1, 5), coin(DENOM1, 5)]),
        ExecuteMsg::Deposit {},
    )
    .unwrap();
    let res = execute(
        &mut store,
        info(ADDR1, vec![]),
        ExecuteMsg::Withdraw {
            denoms: [String::from(DENOM1), String::from(DENOM2)],
            to_addr: String::from(ADDR3),
        },
    );
    assert_eq!(
        res,
        Err(ContractError::InsufficientBalance {
            denom: String::from(DENOM2)
        })
    );
}

#[test]
fn withdraw_leaves_balances_tracked() {
    // the handler only reads the balances; a second withdrawal emits the
    // same instruction again
    let mut store = instantiated();
    execute(
        &mut store,
        info(ADDR1, vec![coin(DENOM1, 10), coin(DENOM2, 20)]),
        ExecuteMsg::Deposit {},
    )
    .unwrap();
    let withdraw = ExecuteMsg::Withdraw {
        denoms: [String::from(DENOM1), String::from(DENOM2)],
        to_addr: String::from(ADDR3),
    };
    let first = execute(&mut store, info(ADDR1, vec![]), withdraw.clone()).unwrap();
    assert_eq!(store.may_load_balance(DENOM1).unwrap().amount, 10);
    assert_eq!(store.may_load_balance(DENOM2).unwrap().amount, 20);
    let second = execute(&mut store, info(ADDR1, vec![]), withdraw).unwrap();
    assert_eq!(first, second);
}
