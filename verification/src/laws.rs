//! Laws relating sequences of operations on the map, proved from the step
//! relations that the operations' own contracts establish
//! ([`insert_step`], [`remove_step`], [`next_step`]).
//!
//! Each lemma takes the pending sets a run of calls passed through, related by
//! those step relations, exactly as the contracts of [`crate::DelayHandler`]'s
//! methods hand them to a caller.

use vstd::prelude::*;

use tokio_util::time::delay_queue::Key;

use crate::handler::insert_step;
use crate::handler::next_step;
use crate::handler::remove_step;
use crate::handler::DelayHandler;
use crate::handler::NextOutcome;

verus! {

/// Law: deduplication reaches the expiration queue too. In every well-formed
/// map, no two queue entries hold equal items — each pending item has exactly
/// one entry, under the one key its index remembers.
pub proof fn lemma_no_duplicate_entries(handler: DelayHandler, k1: Key, k2: Key)
    requires
        handler.inv(),
        handler.expirations().dom().contains(k1),
        handler.expirations().dom().contains(k2),
        k1 != k2,
    ensures
        handler.expirations()[k1] != handler.expirations()[k2],
{
}

/// Law: inserting the same item twice, with any delays, succeeds the first
/// time and is rejected the second time, and the rejected call changes
/// nothing — the first timeout stands.
pub proof fn lemma_insert_dedup(
    p0: Set<u64>,
    p1: Set<u64>,
    p2: Set<u64>,
    x: u64,
    first: bool,
    second: bool,
)
    requires
        !p0.contains(x),
        insert_step(p0, p1, x, first),
        insert_step(p1, p2, x, second),
    ensures
        first,
        !second,
        p2 == p1,
{
}

/// Law: once an item is inserted, removing it twice reports `true` exactly
/// once — the first removal takes it out, the second finds nothing.
pub proof fn lemma_remove_once(
    p0: Set<u64>,
    p1: Set<u64>,
    p2: Set<u64>,
    p3: Set<u64>,
    x: u64,
    first: bool,
    second: bool,
)
    requires
        insert_step(p0, p1, x, true),
        remove_step(p1, p2, x, first),
        remove_step(p2, p3, x, second),
    ensures
        first,
        !second,
{
}

/// Law: an item that is not pending — never inserted, already expired, or
/// removed — is never the one a `next` call hands out, and stays not pending.
pub proof fn lemma_removed_never_yielded(
    pre: Set<u64>,
    post: Set<u64>,
    x: u64,
    outcome: NextOutcome,
)
    requires
        !pre.contains(x),
        next_step(pre, post, outcome),
    ensures
        outcome != NextOutcome::Expired(x),
        !post.contains(x),
{
}

/// Law: each pending item is handed out at most once — two expirations in a
/// row, with nothing re-inserted between them, yield distinct items. (In which
/// order items come due is the timer's business: earliest deadline first, ties
/// in either order.)
pub proof fn lemma_no_item_yielded_twice(
    p0: Set<u64>,
    p1: Set<u64>,
    p2: Set<u64>,
    x: u64,
    y: u64,
)
    requires
        next_step(p0, p1, NextOutcome::Expired(x)),
        next_step(p1, p2, NextOutcome::Expired(y)),
    ensures
        y != x,
{
}

/// Law: when `next` reports no value, the map has been drained — nothing is
/// pending, and `is_empty` (whose contract says it reports exactly whether the
/// pending set is empty) agrees.
pub proof fn lemma_drained_means_empty(pre: Set<u64>, post: Set<u64>)
    requires
        next_step(pre, post, NextOutcome::Empty),
    ensures
        post == Set::<u64>::empty(),
{
}

/// Law: the no-value report is not permanent. After `next` reports no value,
/// inserting a new item succeeds, and a later `next` call no longer reports no
/// value: it either leaves the item pending for its deadline or hands out
/// exactly that item.
pub proof fn lemma_resumable(
    p0: Set<u64>,
    p1: Set<u64>,
    p2: Set<u64>,
    p3: Set<u64>,
    x: u64,
    inserted: bool,
    outcome: NextOutcome,
)
    requires
        next_step(p0, p1, NextOutcome::Empty),
        insert_step(p1, p2, x, inserted),
        next_step(p2, p3, outcome),
    ensures
        inserted,
        outcome != NextOutcome::Empty,
        outcome is Expired ==> outcome == NextOutcome::Expired(x),
{
    assert(p2.contains(x));
}

} // verus!
