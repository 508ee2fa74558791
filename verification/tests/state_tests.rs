use deposit_withdraw::state::{Config, LedgerStore, PoolBalance};

#[test]
fn config_is_owner_compares_exactly() {
    let config = Config {
        owner: String::from("addr1"),
        accepted_denoms: [String::from("denom1"), String::from("denom2")],
    };
    assert!(config.is_owner("addr1"));
    assert!(!config.is_owner("addr2"));
    assert!(!config.is_owner("ADDR1"));
}

#[test]
fn fresh_store_tracks_nothing() {
    let store = LedgerStore::new();
    assert_eq!(store.may_load_balance("denom1"), None);
    assert!(store.load_config().is_err());
}

#[test]
fn save_balance_overwrites_per_denomination() {
    let mut store = LedgerStore::new();
    store.save_balance(String::from("denom1"), PoolBalance { amount: 7 });
    store.save_balance(String::from("denom2"), PoolBalance { amount: 9 });
    assert_eq!(store.may_load_balance("denom1"), Some(PoolBalance { amount: 7 }));
    assert_eq!(store.may_load_balance("denom2"), Some(PoolBalance { amount: 9 }));
    store.save_balance(String::from("denom1"), PoolBalance { amount: 11 });
    assert_eq!(store.may_load_balance("denom1"), Some(PoolBalance { amount: 11 }));
    assert_eq!(store.may_load_balance("denom2"), Some(PoolBalance { amount: 9 }));
}

#[test]
fn save_config_makes_the_store_instantiated() {
    let mut store = LedgerStore::new();
    let config = Config {
        owner: String::from("addr1"),
        accepted_denoms: [String::from("denom1"), String::from("denom2")],
    };
    store.save_config(config.clone());
    assert_eq!(store.load_config(), Ok(&config));
}
