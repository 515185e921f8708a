//! What a reset makes of the table of user records, whether it goes through
//! or stops half way.

use crate::keys::{key_lt, lemma_key_lt_irreflexive, lemma_key_lt_total};
use crate::state::{cleared, UserState};
use crate::table::{
    all_readable, is_key_listing, lemma_listed, lemma_listing_order, readable, UserTable,
};
use vstd::prelude::*;

verus! {

/// What is stored after a reset, where `stored` was before.
pub open spec fn cleared_slot(stored: Option<UserState>) -> Option<UserState> {
    match stored {
        Some(state) => Some(cleared(state)),
        None => None,
    }
}

/// The table after a reset that went through: every record has a score of
/// zero.
pub open spec fn reset_all(table: UserTable) -> UserTable {
    Map::new(|key: Seq<u8>| table.contains_key(key), |key: Seq<u8>| cleared_slot(table[key]))
}

/// The table after a reset that got as far as `bound`: the records under
/// keys before `bound` have a score of zero, the others are as they were.
pub open spec fn reset_below(table: UserTable, bound: Seq<u8>) -> UserTable {
    Map::new(
        |key: Seq<u8>| table.contains_key(key),
        |key: Seq<u8>|
            if key_lt(key, bound) {
                cleared_slot(table[key])
            } else {
                table[key]
            },
    )
}

/// A reset of `table` stops at `bound`: it is the first key whose entry
/// cannot be read back.
pub open spec fn reset_stops_at(table: UserTable, bound: Seq<u8>) -> bool {
    &&& table.contains_key(bound)
    &&& !readable(table, bound)
    &&& forall|key: Seq<u8>| table.contains_key(key) && key_lt(key, bound) ==> readable(table, key)
}

/// `after` is what a reset leaves of `before` when it meets an entry that
/// cannot be read back: the records under the keys before that entry are
/// reset, the others are as they were.
pub open spec fn partly_reset(before: UserTable, after: UserTable) -> bool {
    exists|bound: Seq<u8>| #[trigger]
        reset_stops_at(before, bound) && after == reset_below(before, bound)
}

/// `now` is `start` with the records under the first `count` keys of `keys`
/// reset.
pub open spec fn reset_first(
    start: UserTable,
    keys: Seq<Seq<u8>>,
    count: int,
    now: UserTable,
) -> bool {
    &&& forall|key: Seq<u8>| now.contains_key(key) <==> start.contains_key(key)
    &&& forall|j: int|
        0 <= j < keys.len() ==> now[#[trigger] keys[j]] == if j < count {
            cleared_slot(start[keys[j]])
        } else {
            start[keys[j]]
        }
}

/// A reset that has come to the key in place `count` has reset the records
/// under the keys before it. If it stops there, it has stopped at the first
/// key at which a reset of the table does.
pub proof fn lemma_reset_stopped(start: UserTable, keys: Seq<Seq<u8>>, count: int, now: UserTable)
    requires
        is_key_listing(start, keys),
        0 <= count < keys.len(),
        reset_first(start, keys, count, now),
        forall|i: int| 0 <= i < count ==> readable(start, #[trigger] keys[i]),
    ensures
        now == reset_below(start, keys[count]),
        !readable(start, keys[count]) ==> partly_reset(start, now) && !all_readable(start),
{
    let bound = keys[count];
    let target = reset_below(start, bound);
    assert forall|key: Seq<u8>| now.contains_key(key) implies now[key] == target[key] by {
        let j = lemma_listed(start, keys, key);
        lemma_listing_order(start, keys, j, count);
    }
    assert(now =~= target);
    if !readable(start, bound) {
        assert forall|key: Seq<u8>|
            start.contains_key(key) && key_lt(key, bound) implies readable(start, key) by {
            let j = lemma_listed(start, keys, key);
            lemma_listing_order(start, keys, j, count);
        }
        assert(reset_stops_at(start, bound));
    }
}

/// A reset that went through all keys has reset every record, and every
/// entry of the table can be read back.
pub proof fn lemma_reset_done(start: UserTable, keys: Seq<Seq<u8>>, now: UserTable)
    requires
        is_key_listing(start, keys),
        reset_first(start, keys, keys.len() as int, now),
        forall|i: int| 0 <= i < keys.len() ==> readable(start, #[trigger] keys[i]),
    ensures
        now == reset_all(start),
        all_readable(start),
{
    let target = reset_all(start);
    assert forall|key: Seq<u8>| now.contains_key(key) implies now[key] == target[key] by {
        let j = lemma_listed(start, keys, key);
    }
    assert(now =~= target);
    assert forall|key: Seq<u8>| start.contains_key(key) implies readable(start, key) by {
        let j = lemma_listed(start, keys, key);
    }
}

/// A table has at most one first key at which a reset stops; where it has
/// one, not every entry can be read back.
pub proof fn lemma_reset_stop_is_unique(table: UserTable, a: Seq<u8>, b: Seq<u8>)
    requires
        reset_stops_at(table, a),
        reset_stops_at(table, b),
    ensures
        a == b,
        !all_readable(table),
{
    lemma_key_lt_total(a, b);
}

/// Writing the reset record under the key in place `count` takes a reset
/// one key further.
pub proof fn lemma_reset_step(start: UserTable, keys: Seq<Seq<u8>>, count: int, now: UserTable)
    requires
        is_key_listing(start, keys),
        0 <= count < keys.len(),
        reset_first(start, keys, count, now),
    ensures
        reset_first(
            start,
            keys,
            count + 1,
            now.insert(keys[count], cleared_slot(start[keys[count]])),
        ),
{
    let next = now.insert(keys[count], cleared_slot(start[keys[count]]));
    assert forall|j: int| 0 <= j < keys.len() implies next[#[trigger] keys[j]] == if j < count + 1 {
        cleared_slot(start[keys[j]])
    } else {
        start[keys[j]]
    } by {
        lemma_listing_order(start, keys, j, count);
        if j != count {
            lemma_key_lt_irreflexive(keys[j]);
            assert(keys[j] != keys[count]);
        }
    }
}

} // verus!
