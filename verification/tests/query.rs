use cosmwasm_std::testing::{MockApi, MockStorage};
use cosmwasm_std::{Addr, StdError, Storage};
use cw_storage_plus::Item;
use geigercounter::contract::{
    board_of, query, query_config, query_leaderboard, query_radioactivity, radioactivity_of,
};
use geigercounter::error::ContractError;
use geigercounter::host::Deps;
use geigercounter::msg::{Env, QueryMsg, QueryResponse};
use geigercounter::state::UserState;

const RECORDS: cw_storage_plus::Map<&Addr, (u64, u64)> = cw_storage_plus::Map::new("radioactivity");
const OWNER: Item<String> = Item::new("config");

fn put(storage: &mut MockStorage, id: &str, last_interaction: u64, radioactivity: u64) {
    RECORDS
        .save(storage, &Addr::unchecked(id), &(last_interaction, radioactivity))
        .unwrap();
}

fn leaderboard(storage: &mut MockStorage) -> Result<Vec<(String, u64)>, ContractError> {
    let api = MockApi::default();
    let deps = Deps { storage, api: &api };
    query_leaderboard(&deps)
}

fn score_of(storage: &mut MockStorage, address: &str) -> Result<u64, ContractError> {
    let api = MockApi::default();
    let deps = Deps { storage, api: &api };
    query_radioactivity(&deps, address.to_string())
}

#[test]
fn config_before_instantiate_is_not_found() {
    let mut storage = MockStorage::new();
    let api = MockApi::default();
    let deps = Deps { storage: &mut storage, api: &api };
    assert!(matches!(query_config(&deps), Err(ContractError::NotFound { .. })));
    assert!(matches!(
        query(&deps, Env { now: 0 }, QueryMsg::Config {}),
        Err(ContractError::NotFound { .. })
    ));
}

#[test]
fn config_names_the_owner() {
    let mut storage = MockStorage::new();
    OWNER.save(&mut storage, &"the-owner".to_string()).unwrap();
    let api = MockApi::default();
    let deps = Deps { storage: &mut storage, api: &api };
    assert_eq!(query_config(&deps).unwrap().owner, "the-owner");
}

#[test]
fn config_that_does_not_decode() {
    let mut storage = MockStorage::new();
    storage.set(b"config", b"12");
    let api = MockApi::default();
    let deps = Deps { storage: &mut storage, api: &api };
    assert!(matches!(query_config(&deps), Err(ContractError::Std(_))));
}

#[test]
fn score_of_an_identity_never_measured_is_not_found() {
    let mut storage = MockStorage::new();
    put(&mut storage, "alice", 10, 3);
    let res = score_of(&mut storage, "bobby");
    match res {
        Err(ContractError::NotFound { kind }) => assert!(!kind.is_empty()),
        _ => panic!("expected not found"),
    }
}

#[test]
fn score_of_a_measured_identity() {
    let mut storage = MockStorage::new();
    put(&mut storage, "alice", 10, 3);
    put(&mut storage, "alicia", 10, 8);
    assert_eq!(score_of(&mut storage, "alice").unwrap(), 3);
    assert_eq!(score_of(&mut storage, "alicia").unwrap(), 8);
}

#[test]
fn score_of_an_identity_that_the_validator_turns_down() {
    let mut storage = MockStorage::new();
    put(&mut storage, "ab", 10, 3);
    put(&mut storage, "Alice", 10, 4);
    // Too short for the validator, and not in its normal form.
    assert!(matches!(
        score_of(&mut storage, "ab"),
        Err(ContractError::InvalidIdentity(_))
    ));
    assert!(matches!(
        score_of(&mut storage, "Alice"),
        Err(ContractError::InvalidIdentity(_))
    ));
}

#[test]
fn score_of_a_record_that_does_not_decode() {
    let mut storage = MockStorage::new();
    let key = RECORDS.key(&Addr::unchecked("alice"));
    storage.set(&key, b"\"text\"");
    assert!(matches!(score_of(&mut storage, "alice"), Err(ContractError::Std(_))));
}

#[test]
fn validator_error_is_handed_on() {
    let mut storage = MockStorage::new();
    put(&mut storage, "alice", 10, 3);
    let api = MockApi::default();
    let deps = Deps { storage: &mut storage, api: &api };
    let res = radioactivity_of(&deps, Err(StdError::generic_err("no such prefix")));
    match res {
        Err(ContractError::InvalidIdentity(e)) => {
            assert_eq!(e, StdError::generic_err("no such prefix"))
        }
        _ => panic!("expected an invalid identity"),
    }
    assert_eq!(radioactivity_of(&deps, Ok("alice".to_string())).unwrap(), 3);
    assert!(matches!(
        radioactivity_of(&deps, Ok("nobody".to_string())),
        Err(ContractError::NotFound { .. })
    ));
}

#[test]
fn leaderboard_of_nothing_is_empty() {
    let mut storage = MockStorage::new();
    assert_eq!(leaderboard(&mut storage).unwrap(), Vec::<(String, u64)>::new());
}

#[test]
fn leaderboard_is_sorted_highest_first() {
    let mut storage = MockStorage::new();
    put(&mut storage, "alice", 1, 2);
    put(&mut storage, "bob", 2, 9);
    put(&mut storage, "carol", 3, 5);
    put(&mut storage, "dave", 4, 0);
    assert_eq!(
        leaderboard(&mut storage).unwrap(),
        vec![
            ("bob".to_string(), 9),
            ("carol".to_string(), 5),
            ("alice".to_string(), 2),
            ("dave".to_string(), 0),
        ]
    );
}

#[test]
fn leaderboard_orders_equal_scores_by_key() {
    let mut storage = MockStorage::new();
    // Saved in an order that is not the order of the keys.
    put(&mut storage, "zed", 1, 4);
    put(&mut storage, "bob", 1, 4);
    put(&mut storage, "alice", 1, 7);
    put(&mut storage, "bobby", 1, 4);
    put(&mut storage, "Zed", 1, 4);
    put(&mut storage, "al", 1, 7);
    assert_eq!(
        leaderboard(&mut storage).unwrap(),
        vec![
            ("al".to_string(), 7),
            ("alice".to_string(), 7),
            ("Zed".to_string(), 4),
            ("bob".to_string(), 4),
            ("bobby".to_string(), 4),
            ("zed".to_string(), 4),
        ]
    );
}

#[test]
fn leaderboard_orders_keys_by_their_bytes() {
    let mut storage = MockStorage::new();
    put(&mut storage, "é", 1, 1);
    put(&mut storage, "z", 1, 1);
    put(&mut storage, "", 1, 1);
    put(&mut storage, "a\u{10000}", 1, 1);
    put(&mut storage, "a\u{ffff}", 1, 1);
    assert_eq!(
        leaderboard(&mut storage).unwrap(),
        vec![
            ("".to_string(), 1),
            ("a\u{ffff}".to_string(), 1),
            ("a\u{10000}".to_string(), 1),
            ("z".to_string(), 1),
            ("é".to_string(), 1),
        ]
    );
}

#[test]
fn leaderboard_with_a_record_that_does_not_decode() {
    let mut storage = MockStorage::new();
    put(&mut storage, "alice", 1, 2);
    put(&mut storage, "carol", 3, 5);
    let key = RECORDS.key(&Addr::unchecked("bob"));
    storage.set(&key, b"[1]");
    assert!(matches!(leaderboard(&mut storage), Err(ContractError::Std(_))));
}

#[test]
fn leaderboard_with_a_key_that_is_not_text() {
    let mut storage = MockStorage::new();
    put(&mut storage, "alice", 1, 2);
    let mut key = RECORDS.key(&Addr::unchecked("zz")).to_vec();
    key.push(0xc3);
    storage.set(&key, b"[1,2]");
    assert!(matches!(leaderboard(&mut storage), Err(ContractError::Std(_))));
}

#[test]
fn leaderboard_ignores_what_is_not_a_record() {
    let mut storage = MockStorage::new();
    OWNER.save(&mut storage, &"owner".to_string()).unwrap();
    storage.set(b"radioactivity", b"stray");
    storage.set(b"\x00\x0dradioactivitz", b"stray");
    put(&mut storage, "alice", 1, 2);
    assert_eq!(leaderboard(&mut storage).unwrap(), vec![("alice".to_string(), 2)]);
}

#[test]
fn query_answers_in_the_variant_of_the_question() {
    let mut storage = MockStorage::new();
    OWNER.save(&mut storage, &"owner".to_string()).unwrap();
    put(&mut storage, "alice", 1, 2);
    put(&mut storage, "bobby", 1, 3);
    let api = MockApi::default();
    let deps = Deps { storage: &mut storage, api: &api };

    match query(&deps, Env { now: 9 }, QueryMsg::Config {}) {
        Ok(QueryResponse::Config(config)) => assert_eq!(config.owner, "owner"),
        _ => panic!("expected the config"),
    }
    let msg = QueryMsg::Radioactivity { address: "bobby".to_string() };
    match query(&deps, Env { now: 9 }, msg) {
        Ok(QueryResponse::Radioactivity(score)) => assert_eq!(score, 3),
        _ => panic!("expected a score"),
    }
    match query(&deps, Env { now: 9 }, QueryMsg::Leaderboard {}) {
        Ok(QueryResponse::Leaderboard(board)) => assert_eq!(
            board,
            vec![("bobby".to_string(), 3), ("alice".to_string(), 2)]
        ),
        _ => panic!("expected the leaderboard"),
    }
    let msg = QueryMsg::Radioactivity { address: "nobody".to_string() };
    assert!(matches!(
        query(&deps, Env { now: 9 }, msg),
        Err(ContractError::NotFound { .. })
    ));
    let msg = QueryMsg::Radioactivity { address: "NOBODY".to_string() };
    assert!(matches!(
        query(&deps, Env { now: 9 }, msg),
        Err(ContractError::InvalidIdentity(_))
    ));
}

#[test]
fn board_of_a_scan_without_errors() {
    let items = vec![
        Ok(("alice".to_string(), UserState { last_interaction: 5, radioactivity: 2 })),
        Ok(("bob".to_string(), UserState { last_interaction: 6, radioactivity: 9 })),
        Ok(("carol".to_string(), UserState { last_interaction: 7, radioactivity: 2 })),
    ];
    assert_eq!(
        board_of(items).unwrap(),
        vec![("bob".to_string(), 9), ("alice".to_string(), 2), ("carol".to_string(), 2)]
    );
    assert_eq!(board_of(vec![]).unwrap(), Vec::<(String, u64)>::new());
}

#[test]
fn board_of_a_scan_hands_on_the_first_error() {
    let items = vec![
        Ok(("alice".to_string(), UserState { last_interaction: 5, radioactivity: 2 })),
        Err(StdError::generic_err("first")),
        Ok(("carol".to_string(), UserState { last_interaction: 7, radioactivity: 2 })),
        Err(StdError::generic_err("second")),
    ];
    match board_of(items) {
        Err(ContractError::Std(e)) => assert_eq!(e, StdError::generic_err("first")),
        _ => panic!("expected the first error"),
    }
}
