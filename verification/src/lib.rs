//! A delay-indexed map: items are registered with a delay, can be cancelled
//! early by value, and are handed out one by one once their deadlines pass.
//!
//! The map keeps two indexes over the same set of pending items: a key index
//! (item to cancellation key) and a time-ordered expiration queue (cancellation
//! key to item). Every operation keeps the two in step; [`DelayHandler::inv`]
//! states exactly how, and each operation's contract says what it does to the
//! set of pending items.

mod handler;
mod laws;
mod queue;

pub use handler::insert_step;
pub use handler::next_step;
pub use handler::remove_step;
pub use handler::DelayHandler;
pub use handler::NextOutcome;
pub use laws::lemma_drained_means_empty;
pub use laws::lemma_insert_dedup;
pub use laws::lemma_no_duplicate_entries;
pub use laws::lemma_no_item_yielded_twice;
pub use laws::lemma_removed_never_yielded;
pub use laws::lemma_remove_once;
pub use laws::lemma_resumable;
pub use queue::MAX_DELAY_MS;
pub use queue::MAX_PENDING;
