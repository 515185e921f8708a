//! The calls that the host can make: what each one does to the storage and
//! what it answers.

use crate::decimal::{decimal, to_decimal};
use crate::error::ContractError;
use crate::host::{
    add_attribute, load_config, load_user, may_load_user, new_response, response_attributes,
    response_has_payload, same_contents, same_validator, save_config, save_user, scan_user_keys,
    scan_users, set_contract_version, stored_config, stored_users, validate_address,
    validator_accepts, Deps,
};
use crate::keys::{key_of, lemma_key_lt_irreflexive};
use crate::leaderboard::{is_leaderboard, lemma_ranking, rank, ranked, Entry};
use crate::msg::{Env, ExecuteMsg, InstantiateMsg, MessageInfo, MigrateMsg, QueryMsg, QueryResponse};
use crate::state::{measured, Config, UserState};
use crate::reset::{
    lemma_reset_done, lemma_reset_step, lemma_reset_stopped, partly_reset, reset_all,
    reset_first,
};
use crate::table::{
    all_readable, entry_scan_of, is_key_listing, key_scan_of, lemma_scan_lists_entries,
    lists_entries, previous_record, readable, scored, slot,
};
use cosmwasm_std::{Response, StdError};
use vstd::prelude::*;

verus! {

/// The name under which the version of the stored layout is kept.
pub const CONTRACT_NAME: &'static str = "crates.io:geigercounter";

/// The version of the stored layout.
pub const CONTRACT_VERSION: &'static str = "0.1.0";

/// The response carries exactly these attributes, in this order, and
/// nothing else.
pub open spec fn carries(response: Response, attributes: Seq<(Seq<char>, Seq<char>)>) -> bool {
    response_attributes(response) == attributes && !response_has_payload(response)
}

/// What [`instantiate`] does for the caller `sender`: it succeeds, the
/// configuration holds the caller, and the response says
/// `action = instantiate`. The user records and the validator are not
/// touched.
pub open spec fn instantiates(
    before: Deps,
    after: Deps,
    sender: Seq<char>,
    res: Result<Response, ContractError>,
) -> bool {
    &&& stored_users(after) == stored_users(before)
    &&& same_validator(after, before)
    &&& stored_config(after) == Some(Some(sender))
    &&& res matches Ok(response) && carries(response, seq![("action"@, "instantiate"@)])
}

/// Hands on what the storage answered: its error, where it gave one, comes
/// back as it is, as a failure of the store.
pub fn store_outcome<T>(outcome: Result<T, StdError>) -> (res: Result<T, ContractError>)
    ensures
        match outcome {
            Ok(value) => res matches Ok(v) && v == value,
            Err(failure) => res matches Err(ContractError::Std(e)) && e == failure,
        },
{
    match outcome {
        Ok(value) => Ok(value),
        Err(failure) => Err(ContractError::Std(failure)),
    }
}

/// The response to an instantiation: the action.
pub fn instantiate_response() -> (res: Response)
    ensures
        carries(res, seq![("action"@, "instantiate"@)]),
{
    proof {
        reveal_strlit("action");
    }
    let response = add_attribute(new_response(), "action", "instantiate");
    assert(response_attributes(response) =~= seq![("action"@, "instantiate"@)]);
    response
}

/// Records the caller as the owner.
pub fn instantiate(deps: &mut Deps, _env: Env, info: MessageInfo, _msg: InstantiateMsg) -> (res:
    Result<Response, ContractError>)
    ensures
        instantiates(*old(deps), *final(deps), info.sender@, res),
{
    let versioned = set_contract_version(deps, CONTRACT_NAME, CONTRACT_VERSION);
    match store_outcome(versioned) {
        Ok(()) => {},
        Err(e) => {
            return Err(e);
        },
    }
    let config = Config { owner: info.sender };
    let saved = save_config(deps, &config);
    match store_outcome(saved) {
        Ok(()) => Ok(instantiate_response()),
        Err(e) => Err(e),
    }
}

/// What [`execute`] does: a measurement or a reset, as the message says.
pub open spec fn executes(
    before: Deps,
    after: Deps,
    now: u64,
    sender: Seq<char>,
    msg: ExecuteMsg,
    res: Result<Response, ContractError>,
) -> bool {
    match msg {
        ExecuteMsg::Measure {  } => measures(before, after, now, sender, res),
        ExecuteMsg::Reset {  } => resets(before, after, sender, res),
    }
}

/// Carries out an action that changes state.
pub fn execute(deps: &mut Deps, env: Env, info: MessageInfo, msg: ExecuteMsg) -> (res: Result<
    Response,
    ContractError,
>)
    ensures
        executes(*old(deps), *final(deps), env.now, info.sender@, msg, res),
{
    match msg {
        ExecuteMsg::Measure {  } => try_measure(deps, env, info),
        ExecuteMsg::Reset {  } => try_reset(deps, info),
    }
}

/// The attributes of the response to a measurement taken at `now`.
pub open spec fn measure_attributes(now: u64) -> Seq<(Seq<char>, Seq<char>)> {
    seq![("action"@, "try_measure"@), ("current_time"@, decimal(now as nat))]
}

/// What [`try_measure`] does for the caller `sender` at the time `now`.
///
/// The caller's record decides. If it does not decode, the host's error
/// comes back. If the rule of [`measured`] turns the attempt down, its error
/// comes back. In both cases nothing is written. Otherwise the new record is
/// written under the caller's key, and the response names the action and
/// the time. The configuration and the validator are never touched.
pub open spec fn measures(
    before: Deps,
    after: Deps,
    now: u64,
    sender: Seq<char>,
    res: Result<Response, ContractError>,
) -> bool {
    &&& stored_config(after) == stored_config(before)
    &&& same_validator(after, before)
    &&& match slot(stored_users(before), key_of(sender)) {
        Some(None) => res matches Err(ContractError::Std(_)) && stored_users(after)
            == stored_users(before),
        _ => match measured(previous_record(stored_users(before), key_of(sender)), now) {
            Err(refusal) => res matches Err(e) && e == refusal && stored_users(after)
                == stored_users(before),
            Ok(next) => res matches Ok(response) && carries(response, measure_attributes(now))
                && stored_users(after) == stored_users(before).insert(key_of(sender), Some(next)),
        },
    }
}

/// The record to write for a measurement at `now`, given what the storage
/// answered when the caller's record was asked for: its error is handed on,
/// and a record, or none, goes through the rule of [`measured`].
pub fn next_record(loaded: Result<Option<UserState>, StdError>, now: u64) -> (res: Result<
    UserState,
    ContractError,
>)
    ensures
        match loaded {
            Ok(previous) => res == measured(previous, now),
            Err(failure) => res matches Err(ContractError::Std(e)) && e == failure,
        },
{
    match loaded {
        Ok(previous) => UserState::measure(previous, now),
        Err(failure) => Err(ContractError::Std(failure)),
    }
}

/// The response to a measurement taken at `now`: the action and the time.
pub fn measure_response(now: u64) -> (res: Response)
    ensures
        carries(res, measure_attributes(now)),
{
    proof {
        reveal_strlit("action");
        reveal_strlit("current_time");
    }
    let time = to_decimal(now);
    let response = add_attribute(
        add_attribute(new_response(), "action", "try_measure"),
        "current_time",
        time.as_str(),
    );
    assert(response_attributes(response) =~= measure_attributes(now));
    response
}

/// Takes one measurement for the caller, at the time of the call.
pub fn try_measure(deps: &mut Deps, env: Env, info: MessageInfo) -> (res: Result<
    Response,
    ContractError,
>)
    ensures
        measures(*old(deps), *final(deps), env.now, info.sender@, res),
{
    let loaded = may_load_user(deps, info.sender.as_str());
    let next = match next_record(loaded, env.now) {
        Ok(next) => next,
        Err(e) => {
            return Err(e);
        },
    };
    let saved = save_user(deps, info.sender.as_str(), &next);
    match store_outcome(saved) {
        Ok(()) => Ok(measure_response(env.now)),
        Err(e) => Err(e),
    }
}

/// What [`try_reset`] does for the caller `sender`.
///
/// The configuration decides first: with none stored the call fails as not
/// found, with one that does not decode the host's error comes back, and a
/// caller who is not the owner is turned down as unauthorized. In these
/// cases nothing is written.
///
/// For the owner the records are reset one by one, in ascending order of
/// their keys; the time of the last measurement stays. The reset goes
/// through exactly when every entry can be read back, and then every score
/// is zero and the response says `method = try_reset`. Else it stops at
/// the first entry that cannot: the host's error comes back, and the
/// records before that entry stay reset. The configuration and the
/// validator are never touched.
pub open spec fn resets(
    before: Deps,
    after: Deps,
    sender: Seq<char>,
    res: Result<Response, ContractError>,
) -> bool {
    &&& stored_config(after) == stored_config(before)
    &&& same_validator(after, before)
    &&& match stored_config(before) {
        None => res matches Err(ContractError::NotFound { .. }) && stored_users(after)
            == stored_users(before),
        Some(None) => res matches Err(ContractError::Std(_)) && stored_users(after)
            == stored_users(before),
        Some(Some(owner)) => if owner != sender {
            res matches Err(ContractError::Unauthorized) && stored_users(after) == stored_users(
                before,
            )
        } else if all_readable(stored_users(before)) {
            res matches Ok(response) && stored_users(after) == reset_all(stored_users(before))
                && carries(response, seq![("method"@, "try_reset"@)])
        } else {
            res matches Err(ContractError::Std(_)) && partly_reset(
                stored_users(before),
                stored_users(after),
            )
        },
    }
}

/// Whether the caller may reset the scores under the configuration
/// `config`: only its owner may.
pub fn authorize(config: &Config, info: &MessageInfo) -> (res: Result<(), ContractError>)
    ensures
        config.owner@ == info.sender@ ==> res is Ok,
        config.owner@ != info.sender@ ==> res matches Err(ContractError::Unauthorized),
{
    if config.owner == info.sender {
        Ok(())
    } else {
        Err(ContractError::Unauthorized)
    }
}

/// The response to a reset: the method.
pub fn reset_response() -> (res: Response)
    ensures
        carries(res, seq![("method"@, "try_reset"@)]),
{
    proof {
        reveal_strlit("method");
    }
    let response = add_attribute(new_response(), "method", "try_reset");
    assert(response_attributes(response) =~= seq![("method"@, "try_reset"@)]);
    response
}

/// Sets every score to zero. Only the owner may.
pub fn try_reset(deps: &mut Deps, info: MessageInfo) -> (res: Result<Response, ContractError>)
    ensures
        resets(*old(deps), *final(deps), info.sender@, res),
{
    let config = match load_config(deps) {
        Ok(config) => config,
        Err(e) => {
            return Err(e);
        },
    };
    match authorize(&config, &info) {
        Ok(()) => {},
        Err(e) => {
            return Err(e);
        },
    }
    let ghost start = stored_users(*deps);
    let items = scan_user_keys(deps);
    let ghost keys: Seq<Seq<u8>> = choose|keys: Seq<Seq<u8>>|
        is_key_listing(start, keys) && key_scan_of(start, keys, items@);
    let ghost given = items@;
    for item in it: items
        invariant
            it.seq() == given,
            start == stored_users(*old(deps)),
            stored_config(*old(deps)) == Some(Some(info.sender@)),
            is_key_listing(start, keys),
            key_scan_of(start, keys, given),
            stored_config(*deps) == stored_config(*old(deps)),
            same_validator(*deps, *old(deps)),
            reset_first(start, keys, it.index() as int, stored_users(*deps)),
            forall|i: int| 0 <= i < it.index() ==> readable(start, #[trigger] keys[i]),
    {
        let ghost count = it.index() as int;
        let ghost now = stored_users(*deps);
        assert(item == given[count]);
        proof {
            lemma_reset_stopped(start, keys, count, now);
            lemma_key_lt_irreflexive(keys[count]);
        }
        match item {
            Ok(id) => {
                let state = match load_user(deps, id.as_str()) {
                    Ok(state) => state.clear(),
                    Err(e) => {
                        return Err(e);
                    },
                };
                let saved = save_user(deps, id.as_str(), &state);
                match store_outcome(saved) {
                    Ok(()) => {},
                    Err(e) => {
                        return Err(e);
                    },
                }
                proof {
                    lemma_reset_step(start, keys, count, now);
                }
            },
            Err(e) => {
                return Err(ContractError::Std(e));
            },
        }
    }
    proof {
        lemma_reset_done(start, keys, stored_users(*deps));
    }
    Ok(reset_response())
}

/// What [`query`] answers: the answer to the question that the message
/// asks, in the variant that belongs to it.
pub open spec fn answers(
    deps: Deps,
    msg: QueryMsg,
    res: Result<QueryResponse, ContractError>,
) -> bool {
    match msg {
        QueryMsg::Config {  } => match res {
            Ok(QueryResponse::Config(config)) => answers_config(deps, Ok(config)),
            Err(e) => answers_config(deps, Err(e)),
            _ => false,
        },
        QueryMsg::Radioactivity { address } => match res {
            Ok(QueryResponse::Radioactivity(score)) => answers_radioactivity(
                deps,
                address@,
                Ok(score),
            ),
            Err(e) => answers_radioactivity(deps, address@, Err(e)),
            _ => false,
        },
        QueryMsg::Leaderboard {  } => match res {
            Ok(QueryResponse::Leaderboard(board)) => answers_leaderboard(deps, Ok(board)),
            Err(e) => answers_leaderboard(deps, Err(e)),
            _ => false,
        },
    }
}

/// Answers a question. Nothing is written.
pub fn query(deps: &Deps, _env: Env, msg: QueryMsg) -> (res: Result<QueryResponse, ContractError>)
    ensures
        answers(*deps, msg, res),
{
    match msg {
        QueryMsg::Config {  } => match query_config(deps) {
            Ok(config) => Ok(QueryResponse::Config(config)),
            Err(e) => Err(e),
        },
        QueryMsg::Radioactivity { address } => match query_radioactivity(deps, address) {
            Ok(score) => Ok(QueryResponse::Radioactivity(score)),
            Err(e) => Err(e),
        },
        QueryMsg::Leaderboard {  } => match query_leaderboard(deps) {
            Ok(board) => Ok(QueryResponse::Leaderboard(board)),
            Err(e) => Err(e),
        },
    }
}

/// What [`query_config`] answers: the configuration as it is stored; not
/// found when none ever was; the host's error when what is stored does not
/// decode.
pub open spec fn answers_config(deps: Deps, res: Result<Config, ContractError>) -> bool {
    match stored_config(deps) {
        None => res matches Err(ContractError::NotFound { .. }),
        Some(None) => res matches Err(ContractError::Std(_)),
        Some(Some(owner)) => res matches Ok(config) && config.owner@ == owner,
    }
}

/// Reads the configuration.
pub fn query_config(deps: &Deps) -> (res: Result<Config, ContractError>)
    ensures
        answers_config(*deps, res),
{
    load_config(deps)
}

/// What the record under the key of `id` gives for a score: the score
/// when a record is stored and decodes; not found when nothing is stored
/// (which is not a score of zero); the host's error when what is stored does
/// not decode.
pub open spec fn reads_score(deps: Deps, id: Seq<char>, res: Result<u64, ContractError>) -> bool {
    match slot(stored_users(deps), key_of(id)) {
        None => res matches Err(ContractError::NotFound { .. }),
        Some(None) => res matches Err(ContractError::Std(_)),
        Some(Some(state)) => res matches Ok(score) && score == state.radioactivity,
    }
}

/// What [`query_radioactivity`] answers for `address`: where the host's
/// validator accepts it, what the record under its key gives; where not, an
/// invalid identity.
pub open spec fn answers_radioactivity(
    deps: Deps,
    address: Seq<char>,
    res: Result<u64, ContractError>,
) -> bool {
    if validator_accepts(deps, address) {
        reads_score(deps, address, res)
    } else {
        res matches Err(ContractError::InvalidIdentity(_))
    }
}

/// Reads the score of an identity, if the host's validator accepts it.
pub fn query_radioactivity(deps: &Deps, address: String) -> (res: Result<u64, ContractError>)
    ensures
        answers_radioactivity(*deps, address@, res),
{
    let validated = validate_address(deps, address.as_str());
    radioactivity_of(deps, validated)
}

/// Reads the score of an identity, given what the host's validator made of
/// it: its error is handed on as an invalid identity, and an accepted
/// identity is looked up.
pub fn radioactivity_of(deps: &Deps, validated: Result<String, StdError>) -> (res: Result<
    u64,
    ContractError,
>)
    ensures
        match validated {
            Err(refusal) => res matches Err(ContractError::InvalidIdentity(e)) && e == refusal,
            Ok(id) => reads_score(*deps, id@, res),
        },
{
    let id = match validated {
        Ok(id) => id,
        Err(refusal) => {
            return Err(ContractError::InvalidIdentity(refusal));
        },
    };
    match load_user(deps, id.as_str()) {
        Ok(state) => Ok(state.radioactivity),
        Err(e) => Err(e),
    }
}

/// What [`query_leaderboard`] answers. It succeeds exactly when every
/// entry can be read back. The board is then the ranking of the entries as
/// a scan in ascending order of the keys lists them; so it holds every
/// identity once with its score, the scores do not rise, and identities
/// with the same score stand in ascending order of their keys.
pub open spec fn answers_leaderboard(deps: Deps, res: Result<Vec<Entry>, ContractError>) -> bool {
    match res {
        Ok(board) => {
            &&& all_readable(stored_users(deps))
            &&& exists|entries: Seq<Entry>| #[trigger]
                lists_entries(stored_users(deps), entries) && board@ == ranked(entries)
            &&& is_leaderboard(stored_users(deps), board@)
        },
        Err(e) => e is Std && !all_readable(stored_users(deps)),
    }
}

/// What [`board_of`] makes of the items of a scan: where none is an error,
/// the ranking of the identities with their scores; else the first error,
/// as a failure of the store.
pub open spec fn board_from(
    items: Seq<Result<(String, UserState), StdError>>,
    res: Result<Vec<Entry>, ContractError>,
) -> bool {
    match res {
        Ok(board) => {
            &&& forall|i: int| 0 <= i < items.len() ==> (#[trigger] items[i]) is Ok
            &&& board@ == ranked(Seq::new(items.len(), |i: int| scored(items[i]->Ok_0)))
        },
        Err(e) => exists|i: int|
            {
                &&& 0 <= i < items.len()
                &&& #[trigger] items[i] is Err
                &&& e == ContractError::Std(items[i]->Err_0)
                &&& forall|j: int| 0 <= j < i ==> (#[trigger] items[j]) is Ok
            },
    }
}

/// Makes the leaderboard of the items that a scan of the entries gave.
pub fn board_of(items: Vec<Result<(String, UserState), StdError>>) -> (res: Result<
    Vec<Entry>,
    ContractError,
>)
    ensures
        board_from(items@, res),
{
    let ghost given = items@;
    let mut board: Vec<Entry> = Vec::new();
    for item in it: items
        invariant
            it.seq() == given,
            board@.len() == it.index(),
            forall|i: int|
                0 <= i < it.index() ==> (#[trigger] given[i]) is Ok && board@[i] == scored(
                    given[i]->Ok_0,
                ),
    {
        assert(item == given[it.index() as int]);
        match item {
            Ok((id, state)) => {
                board.push((id, state.radioactivity));
            },
            Err(failure) => {
                return Err(ContractError::Std(failure));
            },
        }
    }
    assert(board@ =~= Seq::new(given.len(), |i: int| scored(given[i]->Ok_0)));
    rank(&mut board);
    Ok(board)
}

/// Lists every identity with its score, highest score first.
pub fn query_leaderboard(deps: &Deps) -> (res: Result<Vec<Entry>, ContractError>)
    ensures
        answers_leaderboard(*deps, res),
{
    let ghost table = stored_users(*deps);
    let items = scan_users(deps);
    let ghost keys: Seq<Seq<u8>> = choose|keys: Seq<Seq<u8>>|
        is_key_listing(table, keys) && entry_scan_of(table, keys, items@);
    let ghost given = items@;
    let res = board_of(items);
    proof {
        if res is Ok {
            let entries = Seq::new(given.len(), |i: int| scored(given[i]->Ok_0));
            lemma_scan_lists_entries(table, keys, given, entries);
            lemma_ranking(table, entries);
        } else {
            let i = choose|i: int| 0 <= i < given.len() && #[trigger] given[i] is Err;
            assert(!readable(table, keys[i]));
        }
    }
    res
}

/// What [`migrate`] does: nothing is written, and the response is empty.
pub open spec fn migrates(before: Deps, after: Deps, res: Result<Response, ContractError>) -> bool {
    &&& same_contents(after, before)
    &&& same_validator(after, before)
    &&& res matches Ok(response) && carries(response, Seq::empty())
}

/// The hook for changes of the stored layout. There are none yet.
pub fn migrate(deps: &mut Deps, _env: Env, _msg: MigrateMsg) -> (res: Result<
    Response,
    ContractError,
>)
    ensures
        migrates(*old(deps), *final(deps), res),
{
    Ok(new_response())
}

} // verus!
