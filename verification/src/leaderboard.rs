//! Ranking: a stable sort of scored entries, highest score first, and what
//! it makes of the user records.

use crate::keys::{key_lt, key_of};
use crate::table::{lists_entries, score_of, UserTable};
use vstd::prelude::*;

verus! {

/// An identity with its score.
pub type Entry = (String, u64);

/// Where an entry with `score` goes into `board`: behind the leading
/// entries that score at least as much. In a board that is sorted highest
/// first these are all such entries, so an entry goes behind its equals.
pub open spec fn rank_slot(board: Seq<Entry>, score: u64) -> int
    decreases board.len(),
{
    if board.len() == 0 || board[0].1 < score {
        0
    } else {
        1 + rank_slot(board.drop_first(), score)
    }
}

/// The entries sorted by score, highest first; entries with the same score
/// keep the order in which they came.
pub open spec fn ranked(entries: Seq<Entry>) -> Seq<Entry>
    decreases entries.len(),
{
    if entries.len() == 0 {
        Seq::empty()
    } else {
        let board = ranked(entries.drop_last());
        board.insert(rank_slot(board, entries.last().1), entries.last())
    }
}

/// Scores do not rise from one place of the board to the next.
pub open spec fn descending(board: Seq<Entry>) -> bool {
    forall|i: int, j: int|
        #![trigger board[i], board[j]]
        0 <= i < j < board.len() ==> board[i].1 >= board[j].1
}

/// The slot lies within the board, behind entries that score at least as
/// much and, in a sorted board, before entries that score less.
pub proof fn lemma_rank_slot(board: Seq<Entry>, score: u64)
    ensures
        0 <= rank_slot(board, score) <= board.len(),
        forall|i: int| 0 <= i < rank_slot(board, score) ==> (#[trigger] board[i]).1 >= score,
        descending(board) ==> forall|i: int|
            rank_slot(board, score) <= i < board.len() ==> (#[trigger] board[i]).1 < score,
    decreases board.len(),
{
    if board.len() == 0 || board[0].1 < score {
    } else {
        let rest = board.drop_first();
        lemma_rank_slot(rest, score);
        assert forall|i: int| 0 <= i < rank_slot(board, score) implies (#[trigger] board[i]).1
            >= score by {
            if i > 0 {
                assert(board[i] == rest[i - 1]);
            }
        }
        if descending(board) {
            assert(descending(rest)) by {
                assert forall|i: int, j: int| 0 <= i < j < rest.len() implies rest[i].1
                    >= rest[j].1 by {
                    assert(rest[i] == board[i + 1]);
                    assert(rest[j] == board[j + 1]);
                }
            }
            assert forall|i: int| rank_slot(board, score) <= i < board.len() implies (
            #[trigger] board[i]).1 < score by {
                assert(board[i] == rest[i - 1]);
            }
        }
    }
}

/// The place that a scan from the front finds is the slot.
pub proof fn lemma_rank_slot_found(board: Seq<Entry>, score: u64, place: int)
    requires
        0 <= place <= board.len(),
        forall|i: int| 0 <= i < place ==> (#[trigger] board[i]).1 >= score,
        place < board.len() ==> board[place].1 < score,
    ensures
        rank_slot(board, score) == place,
    decreases board.len(),
{
    if place > 0 {
        let rest = board.drop_first();
        assert(board[0].1 >= score);
        assert forall|i: int| 0 <= i < place - 1 implies (#[trigger] rest[i]).1 >= score by {
            assert(rest[i] == board[i + 1]);
        }
        lemma_rank_slot_found(rest, score, place - 1);
    }
}

/// Ranking keeps every entry, as often as it came.
pub proof fn lemma_ranked_permutes(entries: Seq<Entry>)
    ensures
        ranked(entries).len() == entries.len(),
        ranked(entries).to_multiset() == entries.to_multiset(),
    decreases entries.len(),
{
    broadcast use vstd::seq_lib::group_to_multiset_ensures;

    if entries.len() == 0 {
        assert(ranked(entries) =~= entries);
    } else {
        let front = entries.drop_last();
        let board = ranked(front);
        let slot = rank_slot(board, entries.last().1);
        lemma_ranked_permutes(front);
        lemma_rank_slot(board, entries.last().1);
        vstd::seq_lib::to_multiset_insert(board, slot, entries.last());
        assert(entries =~= front.push(entries.last()));
        assert(front.push(entries.last()).to_multiset() == front.to_multiset().insert(
            entries.last(),
        ));
    }
}

/// A ranked board is sorted, highest score first.
pub proof fn lemma_ranked_descending(entries: Seq<Entry>)
    ensures
        descending(ranked(entries)),
    decreases entries.len(),
{
    if entries.len() > 0 {
        let board = ranked(entries.drop_last());
        let last = entries.last();
        let slot = rank_slot(board, last.1);
        lemma_ranked_descending(entries.drop_last());
        lemma_rank_slot(board, last.1);
        let out = board.insert(slot, last);
        assert forall|i: int, j: int| 0 <= i < j < out.len() implies out[i].1 >= out[j].1 by {
            let a = if i < slot { i } else { i - 1 };
            let b = if j < slot { j } else { j - 1 };
            if i != slot {
                assert(out[i] == board[a]);
            }
            if j != slot {
                assert(out[j] == board[b]);
            }
        }
    }
}

/// Ranking is stable. Where every entry is related by `before` to each one
/// that comes after it, two places of the board either hold a higher and a
/// lower score, or equal scores with the entries still related by `before`.
pub proof fn lemma_ranked_stable(entries: Seq<Entry>, before: spec_fn(Entry, Entry) -> bool)
    requires
        forall|i: int, j: int|
            #![trigger entries[i], entries[j]]
            0 <= i < j < entries.len() ==> before(entries[i], entries[j]),
    ensures
        forall|i: int, j: int|
            #![trigger ranked(entries)[i], ranked(entries)[j]]
            0 <= i < j < ranked(entries).len() ==> ranked(entries)[i].1 > ranked(entries)[j].1 || (
            ranked(entries)[i].1 == ranked(entries)[j].1 && before(
                ranked(entries)[i],
                ranked(entries)[j],
            )),
        forall|i: int|
            0 <= i < ranked(entries).len() ==> entries.contains(#[trigger] ranked(entries)[i]),
    decreases entries.len(),
{
    if entries.len() > 0 {
        let front = entries.drop_last();
        let board = ranked(front);
        let last = entries.last();
        let slot = rank_slot(board, last.1);
        assert forall|i: int, j: int| 0 <= i < j < front.len() implies before(
            front[i],
            front[j],
        ) by {
            assert(front[i] == entries[i]);
            assert(front[j] == entries[j]);
        }
        lemma_ranked_stable(front, before);
        lemma_ranked_descending(front);
        lemma_rank_slot(board, last.1);
        let out = board.insert(slot, last);
        assert forall|i: int| 0 <= i < out.len() implies entries.contains(#[trigger] out[i]) by {
            if i == slot {
                assert(entries[entries.len() - 1] == last);
            } else {
                let a = if i < slot { i } else { i - 1 };
                assert(out[i] == board[a]);
                assert(front.contains(board[a]));
                let k = choose|k: int| 0 <= k < front.len() && front[k] == board[a];
                assert(entries[k] == board[a]);
            }
        }
        assert forall|i: int, j: int| 0 <= i < j < out.len() implies out[i].1 > out[j].1 || (
        out[i].1 == out[j].1 && before(out[i], out[j])) by {
            let a = if i < slot { i } else { i - 1 };
            let b = if j < slot { j } else { j - 1 };
            if j == slot {
                // An entry before the slot came earlier than the last one.
                assert(out[i] == board[a]);
                assert(front.contains(board[a]));
                let k = choose|k: int| 0 <= k < front.len() && front[k] == board[a];
                assert(entries[k] == board[a]);
                assert(before(entries[k], entries[entries.len() - 1]));
            } else if i == slot {
                assert(out[j] == board[b]);
            } else {
                assert(out[i] == board[a]);
                assert(out[j] == board[b]);
            }
        }
    }
}

/// Sorts the entries by score, highest first. Entries with the same score
/// keep their order, and no entry is lost or made up.
pub fn rank(entries: &mut Vec<Entry>)
    ensures
        final(entries)@ == ranked(old(entries)@),
        descending(final(entries)@),
        final(entries)@.to_multiset() == old(entries)@.to_multiset(),
{
    let ghost given = entries@;
    let mut done: usize = 0;
    while done < entries.len()
        invariant
            done <= entries.len(),
            entries@.len() == given.len(),
            entries@.take(done as int) == ranked(given.take(done as int)),
            entries@.skip(done as int) == given.skip(done as int),
        decreases entries.len() - done,
    {
        let score: u64 = entries[done].1;
        let mut place: usize = 0;
        while place < done && entries[place].1 >= score
            invariant
                place <= done < entries.len(),
                forall|i: int| 0 <= i < place ==> (#[trigger] entries@[i]).1 >= score,
            decreases done - place,
        {
            place += 1;
        }
        let ghost before = entries@;
        let ghost board = entries@.take(done as int);
        let entry = entries.remove(done);
        entries.insert(place, entry);
        proof {
            assert(entry == given[done as int]) by {
                assert(before.skip(done as int)[0] == given.skip(done as int)[0]);
            }
            assert forall|i: int| 0 <= i < place implies (#[trigger] board[i]).1 >= score by {
                assert(board[i] == before[i]);
            }
            if place < done {
                assert(board[place as int] == before[place as int]);
            }
            lemma_rank_slot_found(board, score, place as int);
            let next = given.take(done + 1);
            assert(next.drop_last() =~= given.take(done as int));
            assert(next.last() == given[done as int]);
            assert(entries@.take(done + 1) =~= board.insert(place as int, entry));
            assert(entries@.skip(done + 1) =~= given.skip(done + 1)) by {
                assert forall|i: int| done < i < given.len() implies #[trigger] entries@[i]
                    == given[i] by {
                    assert(before.skip(done as int)[i - done] == given.skip(done as int)[i
                        - done]);
                }
            }
        }
        done += 1;
    }
    proof {
        assert(entries@.take(done as int) =~= entries@);
        assert(given.take(done as int) =~= given);
        lemma_ranked_descending(given);
        lemma_ranked_permutes(given);
    }
}

/// `board` holds each identity of `table` once with its score; the scores
/// do not rise, and identities with the same score stand in ascending order
/// of their keys.
pub open spec fn is_leaderboard(table: UserTable, board: Seq<Entry>) -> bool {
    &&& forall|i: int|
        0 <= i < board.len() ==> score_of(table, (#[trigger] board[i]).0@) == Some(board[i].1)
    &&& forall|key: Seq<u8>|
        table.contains_key(key) ==> exists|i: int|
            0 <= i < board.len() && key_of((#[trigger] board[i]).0@) == key
    &&& forall|i: int, j: int|
        #![trigger board[i], board[j]]
        0 <= i < j < board.len() ==> board[i].1 > board[j].1 || (board[i].1 == board[j].1
            && key_lt(key_of(board[i].0@), key_of(board[j].0@)))
}

/// Whether one entry comes before another by its key.
pub open spec fn key_before(a: Entry, b: Entry) -> bool {
    key_lt(key_of(a.0@), key_of(b.0@))
}

/// Ranking the entries of a table, listed in ascending order of the keys,
/// gives its leaderboard.
pub proof fn lemma_ranking(table: UserTable, entries: Seq<Entry>)
    requires
        lists_entries(table, entries),
    ensures
        is_leaderboard(table, ranked(entries)),
{
    broadcast use vstd::seq_lib::group_to_multiset_ensures;

    let board = ranked(entries);
    lemma_ranked_permutes(entries);
    lemma_ranked_stable(entries, |a: Entry, b: Entry| key_before(a, b));
    assert forall|i: int| 0 <= i < board.len() implies score_of(table, (#[trigger] board[i]).0@)
        == Some(board[i].1) by {
        assert(entries.contains(board[i]));
        let k = choose|k: int| 0 <= k < entries.len() && entries[k] == board[i];
        assert(score_of(table, entries[k].0@) == Some(entries[k].1));
    }
    assert forall|key: Seq<u8>| table.contains_key(key) implies exists|i: int|
        0 <= i < board.len() && key_of((#[trigger] board[i]).0@) == key by {
        let k = choose|k: int| 0 <= k < entries.len() && key_of((#[trigger] entries[k]).0@) == key;
        assert(entries.contains(entries[k]));
        assert(board.to_multiset().count(entries[k]) > 0);
        assert(board.contains(entries[k]));
        let i = choose|i: int| 0 <= i < board.len() && board[i] == entries[k];
        assert(key_of(board[i].0@) == key);
    }
}

} // verus!
