//! The delay-indexed map itself: a key index (item to cancellation key) kept
//! in step with a time-ordered expiration queue (cancellation key to item).

use vstd::prelude::*;

use core::task::Context;
use std::collections::HashMap;
use tokio_util::time::delay_queue::Key;
use tokio_util::time::DelayQueue;

use crate::queue::queue_entries;
use crate::queue::queue_insert;
use crate::queue::queue_is_empty;
use crate::queue::queue_new;
use crate::queue::queue_poll_expired;
use crate::queue::queue_remove;
use crate::queue::QueuePoll;
use crate::queue::MAX_DELAY_MS;
use crate::queue::MAX_PENDING;

verus! {

/// Outcome of one poll for the next expired item.
pub enum NextOutcome {
    /// At least one item is still pending, but none is due yet; the caller's
    /// waker fires once the earliest deadline passes.
    Pending,
    /// The map holds no pending items at all.
    Empty,
    /// This item's deadline has passed; it has left the map.
    Expired(u64),
}

/// How one `insert` call relates the set of pending items before it (`pre`) to
/// the set after it (`post`): a new item is added and reported `true`; an item
/// already pending is rejected with `false` and nothing changes.
pub open spec fn insert_step(pre: Set<u64>, post: Set<u64>, item: u64, inserted: bool) -> bool {
    &&& inserted == !pre.contains(item)
    &&& post == if inserted {
        pre.insert(item)
    } else {
        pre
    }
}

/// How one `remove` call relates the pending sets before and after it: the
/// item is no longer pending afterwards, and the call reports whether it had
/// been.
pub open spec fn remove_step(pre: Set<u64>, post: Set<u64>, item: u64, removed: bool) -> bool {
    &&& removed == pre.contains(item)
    &&& post == pre.remove(item)
}

/// How one `next` call relates the pending sets before and after it: `Empty`
/// is reported exactly on an empty map, `Pending` leaves a non-empty map
/// untouched, and `Expired` hands out one pending item, which stops pending.
pub open spec fn next_step(pre: Set<u64>, post: Set<u64>, outcome: NextOutcome) -> bool {
    match outcome {
        NextOutcome::Pending => post == pre && pre != Set::<u64>::empty(),
        NextOutcome::Empty => post == pre && pre == Set::<u64>::empty(),
        NextOutcome::Expired(item) => pre.contains(item) && post == pre.remove(item),
    }
}

/// A map from items to a pending expiration: each item is registered with a
/// delay, can be cancelled early by value, and is handed out by [`Self::next`]
/// once its deadline passes.
pub struct DelayHandler {
    queue: DelayQueue<u64>,
    map: HashMap<u64, Key>,
}

impl DelayHandler {
    /// The key index as a mathematical map: pending item to cancellation key.
    pub closed spec fn key_index(self) -> Map<u64, Key> {
        self.map@
    }

    /// The expiration queue's entries: cancellation key to pending item.
    pub closed spec fn expirations(self) -> Map<Key, u64> {
        queue_entries(self.queue)
    }

    /// The set of items with a pending timeout.
    pub closed spec fn pending(self) -> Set<u64> {
        self.map@.dom()
    }

    /// Well-formedness: the key index and the expiration queue hold exactly
    /// the same entries, each index the inverse of the other — an item is
    /// pending if and only if the queue holds one entry for it, under the one
    /// key the index remembers for that item — and so the two indexes hold
    /// finitely many entries, equally many each.
    pub open spec fn inv(self) -> bool {
        &&& forall|x: u64| #[trigger] self.key_index().dom().contains(x) ==> {
            &&& self.expirations().dom().contains(self.key_index()[x])
            &&& self.expirations()[self.key_index()[x]] == x
        }
        &&& forall|k: Key| #[trigger] self.expirations().dom().contains(k) ==> {
            &&& self.key_index().dom().contains(self.expirations()[k])
            &&& self.key_index()[self.expirations()[k]] == k
        }
        &&& self.key_index().dom().finite()
        &&& self.expirations().dom().finite()
        &&& self.expirations().dom().len() == self.key_index().dom().len()
    }

    /// Registers `item` to expire after `delay_ms` milliseconds, reporting
    /// `true`. If `item` is already pending, nothing changes — its original
    /// timeout stands, not reset or extended — and the call reports `false`.
    /// The two bounds are the expiration queue's own machine limits: its timer
    /// refuses longer delays, its slab refuses more entries.
    pub fn insert(&mut self, item: u64, delay_ms: u64) -> (inserted: bool)
        requires
            old(self).inv(),
            delay_ms <= MAX_DELAY_MS,
            old(self).pending().len() < MAX_PENDING,
        ensures
            final(self).inv(),
            insert_step(old(self).pending(), final(self).pending(), item, inserted),
            !inserted ==> *final(self) == *old(self),
            inserted ==> (exists|k: Key|
                {
                    &&& !old(self).expirations().dom().contains(k)
                    &&& final(self).key_index() == old(self).key_index().insert(item, k)
                    &&& final(self).expirations() == old(self).expirations().insert(k, item)
                }),
    {
        if self.map.contains_key(&item) {
            false
        } else {
            let k = queue_insert(&mut self.queue, item, delay_ms);
            self.map.insert(item, k);
            proof {
                let m0 = old(self).key_index();
                let e0 = old(self).expirations();
                let m1 = self.key_index();
                let e1 = self.expirations();
                assert(m1.dom() =~= m0.dom().insert(item));
                assert(e1.dom() =~= e0.dom().insert(k));
                assert forall|x: u64| #[trigger] m1.dom().contains(x) implies {
                    &&& e1.dom().contains(m1[x])
                    &&& e1[m1[x]] == x
                } by {
                    if x != item {
                        assert(m0.dom().contains(x));
                        assert(m0[x] != k);
                    }
                }
                assert forall|kk: Key| #[trigger] e1.dom().contains(kk) implies {
                    &&& m1.dom().contains(e1[kk])
                    &&& m1[e1[kk]] == kk
                } by {
                    if kk != k {
                        assert(e0.dom().contains(kk));
                        assert(e0[kk] != item);
                    }
                }
                assert(self.pending() =~= old(self).pending().insert(item));
            }
            true
        }
    }

    /// Cancels the pending timeout for `item`, reporting whether one existed.
    /// A cancelled item is dropped from both indexes at once and will never be
    /// handed out by [`Self::next`]; cancelling an absent item (never inserted,
    /// already expired, or already cancelled) changes nothing.
    pub fn remove(&mut self, item: &u64) -> (removed: bool)
        requires
            old(self).inv(),
        ensures
            final(self).inv(),
            remove_step(old(self).pending(), final(self).pending(), *item, removed),
            !removed ==> *final(self) == *old(self),
            removed ==> final(self).key_index() == old(self).key_index().remove(*item),
            removed ==> (final(self).expirations() == old(self).expirations().remove(
                old(self).key_index()[*item],
            )),
    {
        if self.map.contains_key(item) {
            let k = self.map.remove(item).unwrap();
            proof {
                assert(old(self).key_index().dom().contains(*item));
                assert(old(self).expirations().dom().contains(k));
            }
            let _ = queue_remove(&mut self.queue, &k);
            proof {
                let m0 = old(self).key_index();
                let e0 = old(self).expirations();
                let m1 = self.key_index();
                let e1 = self.expirations();
                assert(m1.dom() =~= m0.dom().remove(*item));
                assert(e1.dom() =~= e0.dom().remove(k));
                assert forall|x: u64| #[trigger] m1.dom().contains(x) implies {
                    &&& e1.dom().contains(m1[x])
                    &&& e1[m1[x]] == x
                } by {
                    assert(m0.dom().contains(x));
                    assert(e0[m0[x]] == x);
                    assert(m0[x] != k);
                }
                assert forall|kk: Key| #[trigger] e1.dom().contains(kk) implies {
                    &&& m1.dom().contains(e1[kk])
                    &&& m1[e1[kk]] == kk
                } by {
                    assert(e0.dom().contains(kk));
                    assert(m0[e0[kk]] == kk);
                    assert(e0[kk] != *item);
                }
                assert(self.pending() =~= old(self).pending().remove(*item));
            }
            true
        } else {
            proof {
                assert(self.pending() =~= old(self).pending().remove(*item));
            }
            false
        }
    }

    /// Polls for the next expired item. When one item's deadline has passed,
    /// it is dropped from both indexes at once and handed out; when items are
    /// pending but none is due, the caller's context is registered for a wake
    /// at the earliest deadline and nothing changes; on a map with nothing
    /// pending the call reports [`NextOutcome::Empty`] immediately. That
    /// report is not permanent: items inserted afterwards are handed out by
    /// later calls as their deadlines pass.
    pub fn next(&mut self, cx: &mut Context<'_>) -> (outcome: NextOutcome)
        requires
            old(self).inv(),
        ensures
            final(self).inv(),
            next_step(old(self).pending(), final(self).pending(), outcome),
            match outcome {
                NextOutcome::Expired(item) => {
                    &&& final(self).key_index() == old(self).key_index().remove(item)
                    &&& final(self).expirations() == old(self).expirations().remove(
                        old(self).key_index()[item],
                    )
                },
                _ => {
                    &&& final(self).key_index() == old(self).key_index()
                    &&& final(self).expirations() == old(self).expirations()
                },
            },
    {
        match queue_poll_expired(&mut self.queue, cx) {
            QueuePoll::Pending => {
                proof {
                    let e0 = old(self).expirations();
                    if self.pending() == Set::<u64>::empty() {
                        assert forall|kk: Key| !(#[trigger] e0.dom().contains(kk)) by {
                            if e0.dom().contains(kk) {
                                assert(self.pending().contains(e0[kk]));
                            }
                        }
                        assert(e0.dom() =~= Set::<Key>::empty());
                    }
                }
                NextOutcome::Pending
            },
            QueuePoll::Finished => {
                proof {
                    assert forall|x: u64| !(#[trigger] self.pending().contains(x)) by {
                        if self.pending().contains(x) {
                            assert(old(self).key_index().dom().contains(x));
                            assert(old(self).expirations().dom().contains(
                                old(self).key_index()[x],
                            ));
                        }
                    }
                    assert(self.pending() =~= Set::<u64>::empty());
                }
                NextOutcome::Empty
            },
            QueuePoll::Expired(k, item) => {
                proof {
                    assert(old(self).expirations().dom().contains(k));
                    assert(old(self).expirations()[k] == item);
                    assert(old(self).key_index().dom().contains(item));
                    assert(old(self).key_index()[item] == k);
                }
                let _ = self.map.remove(&item);
                proof {
                    let m0 = old(self).key_index();
                    let e0 = old(self).expirations();
                    let m1 = self.key_index();
                    let e1 = self.expirations();
                    assert(m1.dom() =~= m0.dom().remove(item));
                    assert(e1.dom() =~= e0.dom().remove(k));
                    assert forall|x: u64| #[trigger] m1.dom().contains(x) implies {
                        &&& e1.dom().contains(m1[x])
                        &&& e1[m1[x]] == x
                    } by {
                        assert(m0.dom().contains(x));
                        assert(e0[m0[x]] == x);
                        assert(m0[x] != k);
                    }
                    assert forall|kk: Key| #[trigger] e1.dom().contains(kk) implies {
                        &&& m1.dom().contains(e1[kk])
                        &&& m1[e1[kk]] == kk
                    } by {
                        assert(e0.dom().contains(kk));
                        assert(m0[e0[kk]] == kk);
                        assert(e0[kk] != item);
                    }
                    assert(self.pending() =~= old(self).pending().remove(item));
                }
                NextOutcome::Expired(item)
            },
        }
    }

    /// Reports whether nothing is pending. Immediate and side-effect free;
    /// meant as a guard so a caller in a multi-way wait need not block on
    /// [`Self::next`] when the map is empty.
    pub fn is_empty(&self) -> (empty: bool)
        requires
            self.inv(),
        ensures
            empty <==> self.pending() == Set::<u64>::empty(),
    {
        let r = queue_is_empty(&self.queue);
        proof {
            if self.expirations().dom() == Set::<Key>::empty() {
                assert forall|x: u64| !(#[trigger] self.pending().contains(x)) by {
                    if self.pending().contains(x) {
                        assert(self.expirations().dom().contains(self.key_index()[x]));
                    }
                }
                assert(self.pending() =~= Set::<u64>::empty());
            } else {
                if self.pending() == Set::<u64>::empty() {
                    assert forall|kk: Key| !(#[trigger] self.expirations().dom().contains(kk)) by {
                        if self.expirations().dom().contains(kk) {
                            assert(self.pending().contains(self.expirations()[kk]));
                        }
                    }
                    assert(self.expirations().dom() =~= Set::<Key>::empty());
                }
            }
        }
        r
    }
}

impl Default for DelayHandler {
    /// Builds an empty map: nothing pending, both indexes empty.
    fn default() -> (handler: Self)
        ensures
            handler.inv(),
            handler.pending() == Set::<u64>::empty(),
    {
        let handler = DelayHandler { queue: queue_new(), map: HashMap::new() };
        proof {
            assert(handler.pending() =~= Set::<u64>::empty());
            assert(handler.expirations().dom() =~= Set::<Key>::empty());
        }
        handler
    }
}

} // verus!
