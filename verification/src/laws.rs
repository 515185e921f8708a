//! What follows from the contracts of the calls, stated once and proved.

use crate::contract::{
    answers_config, answers_leaderboard, answers_radioactivity, executes, instantiates, measures,
    reads_score, resets,
};
use crate::error::ContractError;
use crate::host::{stored_config, stored_users, validator_accepts, Deps};
use crate::keys::{
    key_lt, key_of, lemma_key_lt_asymmetric, lemma_key_lt_irreflexive, lemma_key_lt_total,
    lemma_key_lt_transitive, lemma_key_of_injective,
};
use crate::leaderboard::Entry;
use crate::msg::ExecuteMsg;
use crate::reset::{lemma_reset_stop_is_unique, partly_reset, reset_below, reset_stops_at};
use crate::state::{cleared, first_record, measured, Config, UserState, SECONDS_IN_DAY};
use crate::table::{all_readable, previous_record, readable, score_of, slot, UserTable};
use cosmwasm_std::Response;
use vstd::prelude::*;

verus! {

/// Recording the caller as the owner succeeds, and the configuration then
/// names the caller.
pub proof fn law_instantiate_names_the_owner(
    before: Deps,
    after: Deps,
    sender: Seq<char>,
    done: Result<Response, ContractError>,
    answer: Result<Config, ContractError>,
)
    requires
        instantiates(before, after, sender, done),
        answers_config(after, answer),
    ensures
        done is Ok,
        answer matches Ok(config) && config.owner@ == sender,
{
}

/// No action changes the configuration or the validator: the owner stays
/// the owner, and an identity that was accepted stays accepted, whatever
/// is measured or reset and however it ends.
pub proof fn law_configuration_is_kept(
    before: Deps,
    after: Deps,
    now: u64,
    sender: Seq<char>,
    msg: ExecuteMsg,
    done: Result<Response, ContractError>,
    id: Seq<char>,
)
    requires
        executes(before, after, now, sender, msg, done),
    ensures
        stored_config(after) == stored_config(before),
        validator_accepts(after, id) == validator_accepts(before, id),
{
}

/// An identity that was never measured has no score: asked for it, the
/// query fails as not found, it does not answer zero. (An identity that the
/// host's validator turns down is not looked up at all.)
pub proof fn law_unmeasured_is_not_found(
    deps: Deps,
    id: Seq<char>,
    answer: Result<u64, ContractError>,
)
    requires
        validator_accepts(deps, id),
        !stored_users(deps).contains_key(key_of(id)),
        answers_radioactivity(deps, id, answer),
    ensures
        answer matches Err(ContractError::NotFound { .. }),
        reads_score(deps, id, answer),
{
}

/// The first measurement of an identity goes through, and the query for
/// its score then answers exactly one. (The identity is one that the host's
/// validator accepts; a measurement does not change what it accepts.)
pub proof fn law_first_measurement_scores_one(
    before: Deps,
    after: Deps,
    now: u64,
    id: Seq<char>,
    done: Result<Response, ContractError>,
    answer: Result<u64, ContractError>,
)
    requires
        validator_accepts(before, id),
        !stored_users(before).contains_key(key_of(id)),
        measures(before, after, now, id, done),
        answers_radioactivity(after, id, answer),
    ensures
        done is Ok,
        answer == Ok::<u64, ContractError>(1),
        slot(stored_users(after), key_of(id)) == Some(Some(first_record(now))),
{
}

/// One accepted measurement either raises the score by one or sets it to
/// one; so a score never goes down but to one.
pub proof fn law_measurement_raises_or_restarts(state: UserState, now: u64)
    ensures
        measured(Some(state), now) matches Ok(next) ==> next.last_interaction == now && (
        next.radioactivity == state.radioactivity + 1 || next.radioactivity == 1),
        measured(Some(state), now) matches Ok(next) ==> next.radioactivity >= state.radioactivity
            || next.radioactivity == 1,
        measured(None, now) == Ok::<UserState, ContractError>(first_record(now)),
{
}

/// The record after the measurements at `times`, taken one after the other
/// on the record `start`; a measurement that is turned down leaves the
/// record as it is.
pub open spec fn replayed(start: Option<UserState>, times: Seq<u64>) -> Option<UserState>
    decreases times.len(),
{
    if times.len() == 0 {
        start
    } else {
        let so_far = replayed(start, times.drop_last());
        match measured(so_far, times.last()) {
            Ok(next) => Some(next),
            Err(_) => so_far,
        }
    }
}

/// The score of a record, zero where there is none.
pub open spec fn score(record: Option<UserState>) -> u64 {
    match record {
        Some(state) => state.radioactivity,
        None => 0,
    }
}

/// Over any sequence of measurements, from one measurement to the next the
/// score stays, goes up by one, or goes to exactly one. Measurements never
/// bring it to zero.
pub proof fn law_scores_over_a_run(start: Option<UserState>, times: Seq<u64>, step: int)
    requires
        0 <= step < times.len(),
    ensures
        ({
            let earlier = score(replayed(start, times.take(step)));
            let later = score(replayed(start, times.take(step + 1)));
            later == earlier || later == earlier + 1 || later == 1
        }),
        replayed(start, times.take(step + 1)) is Some,
        start is None ==> score(replayed(start, times.take(step + 1))) >= 1,
    decreases step,
{
    let upto = times.take(step + 1);
    assert(upto.drop_last() =~= times.take(step));
    if step > 0 {
        law_scores_over_a_run(start, times, step - 1);
    } else {
        assert(times.take(0).len() == 0);
    }
}

/// Whatever action is carried out, and however it ends, a score that was
/// there is still there afterwards, and it has stayed, gone up by one, or
/// gone to exactly one; only a reset can bring it to zero.
pub proof fn law_scores_over_a_call(
    before: Deps,
    after: Deps,
    now: u64,
    sender: Seq<char>,
    msg: ExecuteMsg,
    done: Result<Response, ContractError>,
    id: Seq<char>,
)
    requires
        executes(before, after, now, sender, msg, done),
        score_of(stored_users(before), id) is Some,
    ensures
        ({
            let earlier = score_of(stored_users(before), id)->0;
            let later = score_of(stored_users(after), id);
            &&& later is Some
            &&& later->0 == earlier || later->0 == earlier + 1 || later->0 == 1 || (msg is Reset
                && later->0 == 0)
        }),
{
    if key_of(id) == key_of(sender) {
        lemma_key_of_injective(id, sender);
    }
}

/// A measurement changes no record but the caller's, and a measurement
/// that is turned down changes none at all.
pub proof fn law_measurement_leaves_others(
    before: Deps,
    after: Deps,
    now: u64,
    sender: Seq<char>,
    done: Result<Response, ContractError>,
    other: Seq<char>,
)
    requires
        measures(before, after, now, sender, done),
        other != sender,
    ensures
        slot(stored_users(after), key_of(other)) == slot(stored_users(before), key_of(other)),
        done is Err ==> stored_users(after) == stored_users(before),
        stored_config(after) == stored_config(before),
{
    if key_of(other) == key_of(sender) {
        lemma_key_of_injective(other, sender);
    }
}

/// A second measurement less than a day after one that went through is
/// turned down, and leaves the score and the time of the record as the
/// first one set them.
pub proof fn law_second_measurement_is_turned_down(
    start: Deps,
    between: Deps,
    end: Deps,
    first: u64,
    second: u64,
    id: Seq<char>,
    accepted: Result<Response, ContractError>,
    repeated: Result<Response, ContractError>,
)
    requires
        measures(start, between, first, id, accepted),
        accepted is Ok,
        measures(between, end, second, id, repeated),
        second - first < SECONDS_IN_DAY,
    ensures
        repeated matches Err(ContractError::Limit),
        stored_users(end) == stored_users(between),
        stored_config(end) == stored_config(between),
        previous_record(stored_users(end), key_of(id)) matches Some(state)
            && state.last_interaction == first,
{
}

/// The limits of the rule, for a record whose score can still go up:
/// exactly one day after the last accepted measurement the next one counts,
/// one second earlier it is turned down; exactly two days after, it still
/// counts, one second later the score starts again at one.
pub proof fn law_day_boundaries(state: UserState, now: u64)
    requires
        state.radioactivity < u64::MAX,
    ensures
        now - state.last_interaction == 86399 ==> measured(Some(state), now) == Err::<
            UserState,
            ContractError,
        >(ContractError::Limit),
        now - state.last_interaction == 86400 ==> measured(Some(state), now) == Ok::<
            UserState,
            ContractError,
        >(UserState { last_interaction: now, radioactivity: (state.radioactivity + 1) as u64 }),
        now - state.last_interaction == 172800 ==> measured(Some(state), now) == Ok::<
            UserState,
            ContractError,
        >(UserState { last_interaction: now, radioactivity: (state.radioactivity + 1) as u64 }),
        now - state.last_interaction == 172801 ==> measured(Some(state), now) == Ok::<
            UserState,
            ContractError,
        >(UserState { last_interaction: now, radioactivity: 1 }),
{
}

/// A reset that anyone but the owner asks for is turned down as
/// unauthorized and changes nothing.
pub proof fn law_reset_by_another_changes_nothing(
    before: Deps,
    after: Deps,
    owner: Seq<char>,
    sender: Seq<char>,
    done: Result<Response, ContractError>,
)
    requires
        stored_config(before) == Some(Some(owner)),
        sender != owner,
        resets(before, after, sender, done),
    ensures
        done matches Err(ContractError::Unauthorized),
        stored_users(after) == stored_users(before),
        stored_config(after) == stored_config(before),
{
}

/// A reset by the owner goes through exactly when every entry can be read
/// back. After one that went through, every identity that had a record
/// still has one, with a score of zero and the time it had; and no identity
/// has a record that had none.
pub proof fn law_reset_by_owner_clears_scores(
    before: Deps,
    after: Deps,
    owner: Seq<char>,
    done: Result<Response, ContractError>,
    id: Seq<char>,
)
    requires
        stored_config(before) == Some(Some(owner)),
        resets(before, after, owner, done),
        done is Ok,
    ensures
        all_readable(stored_users(before)),
        stored_users(before).contains_key(key_of(id)) <==> stored_users(after).contains_key(
            key_of(id),
        ),
        previous_record(stored_users(before), key_of(id)) matches Some(state) ==> slot(
            stored_users(after),
            key_of(id),
        ) == Some(Some(cleared(state))),
        stored_users(before).contains_key(key_of(id)) ==> score_of(stored_users(after), id)
            == Some(0u64),
{
    if stored_users(before).contains_key(key_of(id)) {
        assert(readable(stored_users(before), key_of(id)));
    }
}

/// However a reset by the owner ends, each record is as it was or has a
/// score of zero and the time it had: a reset that stops half way never
/// leaves anything else behind.
pub proof fn law_reset_never_does_more(
    before: Deps,
    after: Deps,
    sender: Seq<char>,
    done: Result<Response, ContractError>,
    key: Seq<u8>,
)
    requires
        resets(before, after, sender, done),
    ensures
        stored_users(before).contains_key(key) <==> stored_users(after).contains_key(key),
        stored_users(before).contains_key(key) ==> stored_users(after)[key] == stored_users(
            before,
        )[key] || (stored_users(before)[key] matches Some(state) && stored_users(after)[key]
            == Some(cleared(state))),
{
}

/// A reset that stops half way leaves exactly one table behind: what it
/// leaves is decided by what was stored.
pub proof fn law_stopped_reset_is_determined(before: UserTable, one: UserTable, other: UserTable)
    requires
        partly_reset(before, one),
        partly_reset(before, other),
    ensures
        one == other,
        !all_readable(before),
{
    let a = choose|bound: Seq<u8>| #[trigger]
        reset_stops_at(before, bound) && one == reset_below(before, bound);
    let b = choose|bound: Seq<u8>| #[trigger]
        reset_stops_at(before, bound) && other == reset_below(before, bound);
    lemma_reset_stop_is_unique(before, a, b);
}

/// Keys stand in a strict total order: none comes before itself, of two
/// different keys exactly one comes before the other, and what comes
/// before an earlier key comes before a later one. So "ascending order of
/// the keys" names one order.
pub proof fn law_keys_are_totally_ordered(a: Seq<u8>, b: Seq<u8>, c: Seq<u8>)
    ensures
        !key_lt(a, a),
        key_lt(a, b) ==> !key_lt(b, a),
        a != b ==> key_lt(a, b) || key_lt(b, a),
        key_lt(a, b) && key_lt(b, c) ==> key_lt(a, c),
{
    lemma_key_lt_irreflexive(a);
    if key_lt(a, b) {
        lemma_key_lt_asymmetric(a, b);
        if key_lt(b, c) {
            lemma_key_lt_transitive(a, b, c);
        }
    }
    lemma_key_lt_total(a, b);
}

/// On the leaderboard no score is followed by a higher one, and of two
/// identities with the same score the one with the smaller key stands
/// first. Every identity with a record stands on it with its score.
pub proof fn law_leaderboard_order(deps: Deps, board: Vec<Entry>, i: int, j: int)
    requires
        answers_leaderboard(deps, Ok(board)),
        0 <= i < j < board.len(),
    ensures
        board@[i].1 >= board@[j].1,
        board@[i].1 == board@[j].1 ==> key_lt(key_of(board@[i].0@), key_of(board@[j].0@)),
        score_of(stored_users(deps), board@[i].0@) == Some(board@[i].1),
        score_of(stored_users(deps), board@[j].0@) == Some(board@[j].1),
{
}

} // verus!
