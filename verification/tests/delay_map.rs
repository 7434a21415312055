use std::task::Poll;
use std::time::Duration;

use delay_handler::DelayHandler;
use delay_handler::NextOutcome;

/// A single-threaded runtime with the clock paused: timers auto-advance the
/// moment the runtime is idle, so multi-second scenarios run instantly and
/// deterministically.
fn runtime() -> tokio::runtime::Runtime {
    tokio::runtime::Builder::new_current_thread()
        .enable_time()
        .start_paused(true)
        .build()
        .unwrap()
}

/// Awaits the next expired item: suspends while items are pending but not due.
async fn drain_next(handler: &mut DelayHandler) -> Option<u64> {
    std::future::poll_fn(|cx| match handler.next(cx) {
        NextOutcome::Pending => Poll::Pending,
        NextOutcome::Empty => Poll::Ready(None),
        NextOutcome::Expired(item) => Poll::Ready(Some(item)),
    })
    .await
}

/// Polls exactly once and reports the raw outcome, without suspending.
async fn poll_once(handler: &mut DelayHandler) -> NextOutcome {
    std::future::poll_fn(|cx| Poll::Ready(handler.next(cx))).await
}

#[test]
fn insert_dedup_reports_true_then_false() {
    runtime().block_on(async {
        let mut handler = DelayHandler::default();
        assert!(handler.insert(1, 10000));
        assert!(!handler.insert(1, 40000));
        assert!(!handler.insert(1, 1000));
        assert!(handler.insert(2, 10000));
    });
}

#[test]
fn dedup_keeps_the_first_delay() {
    runtime().block_on(async {
        let mut handler = DelayHandler::default();
        let start = tokio::time::Instant::now();
        assert!(handler.insert(1, 10000));
        // The re-insert is rejected; the 40 s delay must not replace the 10 s one.
        assert!(!handler.insert(1, 40000));
        assert_eq!(drain_next(&mut handler).await, Some(1));
        let waited = start.elapsed();
        assert!(waited >= Duration::from_secs(10));
        assert!(waited < Duration::from_secs(40));
        assert_eq!(drain_next(&mut handler).await, None);
    });
}

#[test]
fn remove_reports_true_exactly_once() {
    runtime().block_on(async {
        let mut handler = DelayHandler::default();
        assert!(handler.insert(5, 10000));
        assert!(handler.remove(&5));
        assert!(!handler.remove(&5));
        assert_eq!(drain_next(&mut handler).await, None);
    });
}

#[test]
fn remove_of_an_unknown_item_reports_false() {
    runtime().block_on(async {
        let mut handler = DelayHandler::default();
        assert!(!handler.remove(&99));
        assert!(handler.insert(1, 1000));
        assert!(!handler.remove(&2));
    });
}

#[test]
fn remove_after_natural_expiry_reports_false() {
    runtime().block_on(async {
        let mut handler = DelayHandler::default();
        assert!(handler.insert(1, 1000));
        assert_eq!(drain_next(&mut handler).await, Some(1));
        assert!(!handler.remove(&1));
    });
}

#[test]
fn removed_item_is_never_yielded() {
    runtime().block_on(async {
        let mut handler = DelayHandler::default();
        assert!(handler.insert(1, 15000));
        assert!(handler.insert(2, 5000));
        assert!(handler.insert(3, 10000));
        assert!(handler.remove(&3));
        let mut yielded = Vec::new();
        while let Some(item) = drain_next(&mut handler).await {
            yielded.push(item);
        }
        assert_eq!(yielded, vec![2, 1]);
    });
}

#[test]
fn drain_yields_in_delay_order() {
    runtime().block_on(async {
        let mut handler = DelayHandler::default();
        // Insertion order deliberately differs from delay order.
        assert!(handler.insert(30, 12000));
        assert!(handler.insert(10, 3000));
        assert!(handler.insert(20, 7000));
        let mut yielded = Vec::new();
        while let Some(item) = drain_next(&mut handler).await {
            yielded.push(item);
        }
        assert_eq!(yielded, vec![10, 20, 30]);
    });
}

#[test]
fn is_empty_after_drain() {
    runtime().block_on(async {
        let mut handler = DelayHandler::default();
        assert!(handler.insert(1, 2000));
        assert!(handler.insert(2, 4000));
        assert!(!handler.is_empty());
        while drain_next(&mut handler).await.is_some() {}
        assert!(handler.is_empty());
    });
}

#[test]
fn empty_report_is_not_permanent() {
    runtime().block_on(async {
        let mut handler = DelayHandler::default();
        assert_eq!(drain_next(&mut handler).await, None);
        let start = tokio::time::Instant::now();
        assert!(handler.insert(8, 6000));
        assert_eq!(drain_next(&mut handler).await, Some(8));
        assert!(start.elapsed() >= Duration::from_secs(6));
        assert_eq!(drain_next(&mut handler).await, None);
    });
}

#[test]
fn equal_delays_yield_each_item_exactly_once() {
    runtime().block_on(async {
        let mut handler = DelayHandler::default();
        let start = tokio::time::Instant::now();
        assert!(handler.insert(1, 10000));
        assert!(handler.insert(2, 10000));
        assert!(handler.insert(3, 10000));
        let mut yielded = Vec::new();
        while let Some(item) = drain_next(&mut handler).await {
            yielded.push(item);
        }
        // All three come out around the 10 s mark, each exactly once.
        let waited = start.elapsed();
        assert!(waited >= Duration::from_secs(10));
        assert!(waited < Duration::from_secs(11));
        // Entries with equal deadlines may come out in either order (the
        // timer's tie-break), but each exactly once.
        yielded.sort();
        assert_eq!(yielded, vec![1, 2, 3]);
    });
}

#[test]
fn remove_middle_delay_scenario() {
    runtime().block_on(async {
        let mut handler = DelayHandler::default();
        let start = tokio::time::Instant::now();
        assert!(handler.insert(1, 15000));
        assert!(handler.insert(2, 5000));
        assert!(handler.insert(3, 10000));
        assert!(handler.remove(&3));
        assert_eq!(drain_next(&mut handler).await, Some(2));
        let at_two = start.elapsed();
        assert!(at_two >= Duration::from_secs(5) && at_two < Duration::from_secs(6));
        assert_eq!(drain_next(&mut handler).await, Some(1));
        let at_one = start.elapsed();
        assert!(at_one >= Duration::from_secs(15) && at_one < Duration::from_secs(16));
        assert_eq!(drain_next(&mut handler).await, None);
    });
}

#[test]
fn ordering_is_independent_of_insertion_order() {
    runtime().block_on(async {
        let mut handler = DelayHandler::default();
        let start = tokio::time::Instant::now();
        assert!(handler.insert(1, 10000));
        assert!(handler.insert(2, 5000));
        assert_eq!(drain_next(&mut handler).await, Some(2));
        let at_two = start.elapsed();
        assert!(at_two >= Duration::from_secs(5) && at_two < Duration::from_secs(6));
        assert_eq!(drain_next(&mut handler).await, Some(1));
        let at_one = start.elapsed();
        assert!(at_one >= Duration::from_secs(10) && at_one < Duration::from_secs(11));
        assert_eq!(drain_next(&mut handler).await, None);
    });
}

#[test]
fn zero_delay_expires_at_the_next_poll() {
    runtime().block_on(async {
        let mut handler = DelayHandler::default();
        assert!(handler.insert(4, 0));
        assert_eq!(drain_next(&mut handler).await, Some(4));
        assert!(handler.is_empty());
    });
}

#[test]
fn poll_reports_pending_before_the_deadline() {
    runtime().block_on(async {
        let mut handler = DelayHandler::default();
        assert!(handler.insert(1, 10000));
        // Nothing is due yet: one poll reports Pending and removes nothing.
        assert!(matches!(poll_once(&mut handler).await, NextOutcome::Pending));
        assert!(!handler.is_empty());
        assert_eq!(drain_next(&mut handler).await, Some(1));
    });
}

#[test]
fn is_empty_tracks_inserts_and_removes() {
    runtime().block_on(async {
        let mut handler = DelayHandler::default();
        assert!(handler.is_empty());
        assert!(handler.insert(1, 30000));
        assert!(!handler.is_empty());
        assert!(handler.remove(&1));
        assert!(handler.is_empty());
    });
}

#[test]
fn reinsert_is_allowed_once_the_item_left() {
    runtime().block_on(async {
        let mut handler = DelayHandler::default();
        assert!(handler.insert(1, 10000));
        assert!(handler.remove(&1));
        assert!(handler.insert(1, 1000));
        assert_eq!(drain_next(&mut handler).await, Some(1));
        // Expired items may be inserted again as well.
        assert!(handler.insert(1, 1000));
        assert_eq!(drain_next(&mut handler).await, Some(1));
    });
}

#[test]
fn longest_allowed_delay_can_be_inserted_and_cancelled() {
    runtime().block_on(async {
        let mut handler = DelayHandler::default();
        assert!(handler.insert(9, delay_handler::MAX_DELAY_MS));
        assert!(!handler.is_empty());
        assert!(handler.remove(&9));
        assert!(handler.is_empty());
        assert_eq!(drain_next(&mut handler).await, None);
    });
}
