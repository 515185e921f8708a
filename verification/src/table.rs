//! The user records as a table from keys to what is stored under them, and
//! what a scan of such a table yields.

use crate::keys::{key_lt, key_of, lemma_key_lt_asymmetric, lemma_key_lt_irreflexive};
use crate::leaderboard::Entry;
use crate::state::UserState;
use cosmwasm_std::StdError;
use vstd::prelude::*;
use vstd::utf8::valid_utf8;

verus! {

/// The records by key. A key maps to `None` where bytes are stored under it
/// that do not decode to a record.
pub type UserTable = Map<Seq<u8>, Option<UserState>>;

/// What `table` holds under `key`: `None` for nothing, `Some(None)` for
/// bytes that do not decode, else the record.
pub open spec fn slot(table: UserTable, key: Seq<u8>) -> Option<Option<UserState>> {
    if table.contains_key(key) {
        Some(table[key])
    } else {
        None
    }
}

/// An entry can be read back in a scan: its key is text and its value
/// decodes.
pub open spec fn readable(table: UserTable, key: Seq<u8>) -> bool {
    valid_utf8(key) && table.contains_key(key) && table[key] is Some
}

/// Every entry of `table` can be read back.
pub open spec fn all_readable(table: UserTable) -> bool {
    forall|key: Seq<u8>| table.contains_key(key) ==> readable(table, key)
}

/// `keys` holds each key of `table` once, in ascending order.
pub open spec fn is_key_listing(table: UserTable, keys: Seq<Seq<u8>>) -> bool {
    &&& forall|i: int| 0 <= i < keys.len() ==> table.contains_key(#[trigger] keys[i])
    &&& forall|key: Seq<u8>| table.contains_key(key) ==> keys.contains(key)
    &&& forall|i: int, j: int|
        #![trigger keys[i], keys[j]]
        0 <= i < j < keys.len() ==> key_lt(keys[i], keys[j])
}

/// `items` is what a scan of the keys yields for the entries under `keys`:
/// the identity where the entry can be read back, an error where not.
pub open spec fn key_scan_of(
    table: UserTable,
    keys: Seq<Seq<u8>>,
    items: Seq<Result<String, StdError>>,
) -> bool {
    &&& items.len() == keys.len()
    &&& forall|i: int|
        0 <= i < items.len() ==> match #[trigger] items[i] {
            Ok(id) => key_of(id@) == keys[i] && readable(table, keys[i]),
            Err(_) => !readable(table, keys[i]),
        }
}

/// `items` is what a scan of the entries yields for those under `keys`: the
/// identity and the record where the entry can be read back, an error where
/// not.
pub open spec fn entry_scan_of(
    table: UserTable,
    keys: Seq<Seq<u8>>,
    items: Seq<Result<(String, UserState), StdError>>,
) -> bool {
    &&& items.len() == keys.len()
    &&& forall|i: int|
        0 <= i < items.len() ==> match #[trigger] items[i] {
            Ok(entry) => key_of(entry.0@) == keys[i] && readable(table, keys[i])
                && table[keys[i]] == Some(entry.1),
            Err(_) => !readable(table, keys[i]),
        }
}

/// `items` is what a scan of the keys of `table` yields, in ascending order
/// of the keys.
pub open spec fn is_key_scan(table: UserTable, items: Seq<Result<String, StdError>>) -> bool {
    exists|keys: Seq<Seq<u8>>| is_key_listing(table, keys) && key_scan_of(table, keys, items)
}

/// `items` is what a scan of the entries of `table` yields, in ascending
/// order of the keys.
pub open spec fn is_entry_scan(
    table: UserTable,
    items: Seq<Result<(String, UserState), StdError>>,
) -> bool {
    exists|keys: Seq<Seq<u8>>| is_key_listing(table, keys) && entry_scan_of(table, keys, items)
}

/// The record to which a measurement under `key` applies, if one is stored
/// and decodes.
pub open spec fn previous_record(table: UserTable, key: Seq<u8>) -> Option<UserState> {
    match slot(table, key) {
        Some(Some(state)) => Some(state),
        _ => None,
    }
}

/// Where a key stands in a listing that holds it.
pub proof fn lemma_listed(table: UserTable, keys: Seq<Seq<u8>>, key: Seq<u8>) -> (j: int)
    requires
        is_key_listing(table, keys),
        table.contains_key(key),
    ensures
        0 <= j < keys.len(),
        keys[j] == key,
{
    assert(keys.contains(key));
    choose|j: int| 0 <= j < keys.len() && keys[j] == key
}

/// In a listing, a key comes before another exactly when it stands
/// earlier.
pub proof fn lemma_listing_order(table: UserTable, keys: Seq<Seq<u8>>, i: int, j: int)
    requires
        is_key_listing(table, keys),
        0 <= i < keys.len(),
        0 <= j < keys.len(),
    ensures
        key_lt(keys[i], keys[j]) <==> i < j,
{
    if i == j {
        lemma_key_lt_irreflexive(keys[i]);
    } else if j < i {
        lemma_key_lt_asymmetric(keys[j], keys[i]);
    }
}

/// The score that `table` holds for the identity `id`, where a record is
/// stored under its key and decodes.
pub open spec fn score_of(table: UserTable, id: Seq<char>) -> Option<u64> {
    match previous_record(table, key_of(id)) {
        Some(state) => Some(state.radioactivity),
        None => None,
    }
}

/// The identity and the score of an entry that a scan has read.
pub open spec fn scored(entry: (String, UserState)) -> Entry {
    (entry.0, entry.1.radioactivity)
}

/// `entries` holds each identity of `table` once with its score, in
/// ascending order of the keys.
pub open spec fn lists_entries(table: UserTable, entries: Seq<Entry>) -> bool {
    &&& forall|i: int|
        0 <= i < entries.len() ==> score_of(table, (#[trigger] entries[i]).0@) == Some(
            entries[i].1,
        )
    &&& forall|key: Seq<u8>|
        table.contains_key(key) ==> exists|i: int|
            0 <= i < entries.len() && key_of((#[trigger] entries[i]).0@) == key
    &&& forall|i: int, j: int|
        #![trigger entries[i], entries[j]]
        0 <= i < j < entries.len() ==> key_lt(key_of(entries[i].0@), key_of(entries[j].0@))
}

/// Where a scan of the entries met no error, every entry can be read back,
/// and the identities with their scores, in the order of the scan, list
/// the entries of the table.
pub proof fn lemma_scan_lists_entries(
    table: UserTable,
    keys: Seq<Seq<u8>>,
    items: Seq<Result<(String, UserState), StdError>>,
    entries: Seq<Entry>,
)
    requires
        is_key_listing(table, keys),
        entry_scan_of(table, keys, items),
        entries.len() == items.len(),
        forall|i: int|
            0 <= i < items.len() ==> (#[trigger] items[i]) is Ok && entries[i] == scored(
                items[i]->Ok_0,
            ),
    ensures
        all_readable(table),
        lists_entries(table, entries),
{
    assert forall|key: Seq<u8>| table.contains_key(key) implies readable(table, key) by {
        let j = lemma_listed(table, keys, key);
        assert(items[j] is Ok);
    }
    assert forall|key: Seq<u8>| table.contains_key(key) implies exists|i: int|
        0 <= i < entries.len() && key_of((#[trigger] entries[i]).0@) == key by {
        let j = lemma_listed(table, keys, key);
        assert(items[j] is Ok);
        assert(key_of(entries[j].0@) == key);
    }
    assert forall|i: int| 0 <= i < entries.len() implies score_of(
        table,
        (#[trigger] entries[i]).0@,
    ) == Some(entries[i].1) by {
        assert(items[i] is Ok);
    }
    assert forall|i: int, j: int| 0 <= i < j < entries.len() implies key_lt(
        key_of(entries[i].0@),
        key_of(entries[j].0@),
    ) by {
        assert(items[i] is Ok);
        assert(items[j] is Ok);
    }
}

} // verus!
