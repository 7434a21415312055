//! Trusted boundary around `tokio_util::time::DelayQueue`, the time-ordered
//! expiration queue that this crate builds on.
//!
//! The queue is opaque to the verifier; `queue_entries` names what it holds as
//! a mathematical map from cancellation key to stored item. Each wrapper below
//! states, over that name, what the corresponding `DelayQueue` method does to
//! the contents, as its source and documentation show. When an item expires and
//! in which order items come due is decided by tokio's timer; the contracts
//! here therefore speak only of membership, never of time.
//!
//! `DelayQueue` refuses two kinds of input with a panic — a delay beyond its
//! timer wheel's horizon and an insert into a full queue — so the insert
//! wrapper's `requires` excludes both, with [`MAX_DELAY_MS`] and
//! [`MAX_PENDING`] naming the queue's own limits. Two ambient conditions
//! remain that no `requires` over the arguments can state: the queue registers
//! its deadlines with tokio's timer, so the mutating and polling wrappers must
//! run inside a tokio runtime with time enabled (tokio panics otherwise); and
//! the wheel measures its horizon from the time it was last polled, so a queue
//! left unpolled for years loses that much of the horizon.

use vstd::prelude::*;

use core::task::Context;
use std::time::Duration;
use tokio_util::time::delay_queue::Key;
use tokio_util::time::DelayQueue;

verus! {

#[verifier::external_type_specification]
#[verifier::external_body]
#[verifier::reject_recursive_types(T)]
pub struct ExDelayQueue<T>(DelayQueue<T>);

#[verifier::external_type_specification]
#[verifier::external_body]
pub struct ExKey(Key);

#[verifier::external_type_specification]
#[verifier::external_body]
pub struct ExContext<'a>(Context<'a>);

/// The entries a queue currently holds: each pending item under the
/// cancellation key that `insert` handed out for it.
pub uninterp spec fn queue_entries(q: DelayQueue<u64>) -> Map<Key, u64>;

/// The longest delay the expiration queue accepts, in milliseconds. Its timer
/// wheel spans 2^36 - 1 ms (about two years) and deadlines are rounded up to
/// the next millisecond, so one millisecond of headroom is kept under that
/// span; tokio panics on a longer delay.
pub const MAX_DELAY_MS: u64 = 68719476734;

/// The most entries the expiration queue can hold at once: its slab is capped
/// at 2^30 - 1 entries, and tokio panics on an insert that would pass the cap.
pub const MAX_PENDING: usize = 1073741823;

/// What one poll of the queue reported.
pub(crate) enum QueuePoll {
    /// At least one entry is pending, none is due yet.
    Pending,
    /// The queue holds no entries at all.
    Finished,
    /// This entry's deadline has passed; it has left the queue.
    Expired(Key, u64),
}

/// Relies on `tokio_util::time::DelayQueue::new`: a freshly built queue holds
/// no entries.
#[verifier::external_body]
pub(crate) fn queue_new() -> (q: DelayQueue<u64>)
    ensures
        (queue_entries(q) == Map::<Key, u64>::empty()),
{
    DelayQueue::new()
}

/// Relies on `tokio_util::time::DelayQueue::insert`: the queue stores the item
/// at deadline now-plus-`delay_ms` milliseconds under a key that no current
/// entry uses, and hands that key back for later cancellation. The call panics
/// on a delay beyond the timer wheel's horizon and on a queue already at its
/// cap, so the contract demands inputs under both limits.
#[verifier::external_body]
pub(crate) fn queue_insert(q: &mut DelayQueue<u64>, item: u64, delay_ms: u64) -> (k: Key)
    requires
        delay_ms <= MAX_DELAY_MS,
        queue_entries(*old(q)).dom().finite(),
        queue_entries(*old(q)).dom().len() < MAX_PENDING,
    ensures
        !queue_entries(*old(q)).dom().contains(k),
        queue_entries(*final(q)) == queue_entries(*old(q)).insert(k, item),
{
    q.insert(item, Duration::from_millis(delay_ms))
}

/// Relies on `tokio_util::time::DelayQueue::remove` and
/// `tokio_util::time::delay_queue::Expired::into_inner`: removing a live key
/// takes exactly that entry out, before its deadline can fire, and returns its
/// item. `DelayQueue::remove` panics on a key it does not hold, so the
/// contract demands a live one.
#[verifier::external_body]
pub(crate) fn queue_remove(q: &mut DelayQueue<u64>, k: &Key) -> (item: u64)
    requires
        queue_entries(*old(q)).dom().contains(*k),
    ensures
        item == queue_entries(*old(q))[*k],
        queue_entries(*final(q)) == queue_entries(*old(q)).remove(*k),
{
    q.remove(k).into_inner()
}

/// Relies on `tokio_util::time::DelayQueue::is_empty`: true exactly when the
/// queue holds no entries, due or not.
#[verifier::external_body]
pub(crate) fn queue_is_empty(q: &DelayQueue<u64>) -> (r: bool)
    ensures
        r <==> queue_entries(*q).dom() == Set::<Key>::empty(),
{
    q.is_empty()
}

/// Relies on `tokio_util::time::DelayQueue::poll_expired` and
/// `tokio_util::time::delay_queue::Expired::{key, into_inner}`: polling either
/// reports that nothing is due yet (registering the caller's waker for the
/// next deadline), reports a queue with no entries at all, or removes and
/// returns one entry whose deadline has passed, key and item together.
/// Abandoning a poll mutates nothing. Which due entry comes out first is the
/// timer's choice (earliest deadline, per its documentation); the contract
/// does not rely on that order.
#[verifier::external_body]
pub(crate) fn queue_poll_expired(q: &mut DelayQueue<u64>, cx: &mut Context<'_>) -> (r: QueuePoll)
    ensures
        match r {
            QueuePoll::Pending => {
                &&& queue_entries(*final(q)) == queue_entries(*old(q))
                &&& queue_entries(*old(q)).dom() != Set::<Key>::empty()
            },
            QueuePoll::Finished => {
                &&& queue_entries(*final(q)) == queue_entries(*old(q))
                &&& queue_entries(*old(q)).dom() == Set::<Key>::empty()
            },
            QueuePoll::Expired(k, item) => {
                &&& queue_entries(*old(q)).dom().contains(k)
                &&& queue_entries(*old(q))[k] == item
                &&& queue_entries(*final(q)) == queue_entries(*old(q)).remove(k)
            },
        },
{
    match q.poll_expired(cx) {
        std::task::Poll::Pending => QueuePoll::Pending,
        std::task::Poll::Ready(None) => QueuePoll::Finished,
        std::task::Poll::Ready(Some(expired)) => {
            let key = expired.key();
            QueuePoll::Expired(key, expired.into_inner())
        },
    }
}

} // verus!
