use cosmwasm_std::testing::{MockApi, MockStorage};
use geigercounter::contract::{execute, instantiate, migrate, query};
use geigercounter::error::ContractError;
use geigercounter::host::Deps;
use geigercounter::msg::{
    Env, ExecuteMsg, InstantiateMsg, MessageInfo, MigrateMsg, QueryMsg, QueryResponse,
};

fn info(sender: &str) -> MessageInfo {
    MessageInfo { sender: sender.to_string() }
}

fn score(deps: &Deps, address: &str) -> u64 {
    let msg = QueryMsg::Radioactivity { address: address.to_string() };
    match query(deps, Env { now: 0 }, msg) {
        Ok(QueryResponse::Radioactivity(score)) => score,
        _ => panic!("no score for {}", address),
    }
}

fn leaderboard(deps: &Deps) -> Vec<(String, u64)> {
    match query(deps, Env { now: 0 }, QueryMsg::Leaderboard {}) {
        Ok(QueryResponse::Leaderboard(board)) => board,
        _ => panic!("no leaderboard"),
    }
}

#[test]
fn end_to_end() {
    let mut storage = MockStorage::new();
    let api = MockApi::default();
    let mut deps = Deps { storage: &mut storage, api: &api };

    instantiate(&mut deps, Env { now: 0 }, info("owner"), InstantiateMsg {}).unwrap();

    execute(&mut deps, Env { now: 0 }, info("alice"), ExecuteMsg::Measure {}).unwrap();
    assert_eq!(score(&deps, "alice"), 1);

    execute(&mut deps, Env { now: 86400 }, info("alice"), ExecuteMsg::Measure {}).unwrap();
    assert_eq!(score(&deps, "alice"), 2);

    execute(&mut deps, Env { now: 86400 }, info("bob"), ExecuteMsg::Measure {}).unwrap();
    assert_eq!(score(&deps, "bob"), 1);

    assert_eq!(
        leaderboard(&deps),
        vec![("alice".to_string(), 2), ("bob".to_string(), 1)]
    );

    let refused = execute(&mut deps, Env { now: 86400 }, info("alice"), ExecuteMsg::Reset {});
    assert!(matches!(refused, Err(ContractError::Unauthorized)));
    assert_eq!(
        leaderboard(&deps),
        vec![("alice".to_string(), 2), ("bob".to_string(), 1)]
    );

    execute(&mut deps, Env { now: 86400 }, info("owner"), ExecuteMsg::Reset {}).unwrap();
    assert_eq!(
        leaderboard(&deps),
        vec![("alice".to_string(), 0), ("bob".to_string(), 0)]
    );
}

#[test]
fn instantiate_records_owner_and_version() {
    let mut storage = MockStorage::new();
    let api = MockApi::default();
    {
        let mut deps = Deps { storage: &mut storage, api: &api };
        let res = instantiate(&mut deps, Env { now: 7 }, info("creator"), InstantiateMsg {})
            .unwrap();
        assert_eq!(res.attributes.len(), 1);
        assert_eq!(res.attributes[0].key, "action");
        assert_eq!(res.attributes[0].value, "instantiate");
        assert!(res.messages.is_empty());
        assert!(res.events.is_empty());
        assert!(res.data.is_none());

        match query(&deps, Env { now: 7 }, QueryMsg::Config {}) {
            Ok(QueryResponse::Config(config)) => assert_eq!(config.owner, "creator"),
            _ => panic!("no config"),
        }
    }
    let version = cw2::get_contract_version(&storage).unwrap();
    assert_eq!(version.contract, "crates.io:geigercounter");
    assert_eq!(version.version, "0.1.0");
}

#[test]
fn instantiate_leaves_records_alone() {
    let mut storage = MockStorage::new();
    let api = MockApi::default();
    let mut deps = Deps { storage: &mut storage, api: &api };
    execute(&mut deps, Env { now: 5 }, info("alice"), ExecuteMsg::Measure {}).unwrap();
    instantiate(&mut deps, Env { now: 6 }, info("owner"), InstantiateMsg {}).unwrap();
    assert_eq!(score(&deps, "alice"), 1);
    assert_eq!(leaderboard(&deps), vec![("alice".to_string(), 1)]);
}

#[test]
fn migrate_does_nothing() {
    let mut storage = MockStorage::new();
    let api = MockApi::default();
    let mut deps = Deps { storage: &mut storage, api: &api };
    instantiate(&mut deps, Env { now: 0 }, info("owner"), InstantiateMsg {}).unwrap();
    execute(&mut deps, Env { now: 0 }, info("alice"), ExecuteMsg::Measure {}).unwrap();

    let res = migrate(&mut deps, Env { now: 1 }, MigrateMsg {}).unwrap();
    assert!(res.attributes.is_empty());
    assert!(res.messages.is_empty());
    assert!(res.events.is_empty());
    assert!(res.data.is_none());

    assert_eq!(leaderboard(&deps), vec![("alice".to_string(), 1)]);
    match query(&deps, Env { now: 1 }, QueryMsg::Config {}) {
        Ok(QueryResponse::Config(config)) => assert_eq!(config.owner, "owner"),
        _ => panic!("no config"),
    }
}
