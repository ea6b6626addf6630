use tx_orderer::types::atomic_epoch_metadata::AtomicEpochMetadata;
use tx_orderer::types::redirect_ring::{RedirectRing, REDIRECT_WINDOW};

#[test]
fn issued_orders_are_consecutive_per_epoch() {
    let mut metadata = AtomicEpochMetadata::new();
    assert_eq!(metadata.transaction_order(3), 0);
    assert_eq!(metadata.issue_transaction_order(3), 0);
    assert_eq!(metadata.issue_transaction_order(3), 1);
    assert_eq!(metadata.issue_transaction_order(3), 2);
    assert_eq!(metadata.transaction_order(3), 3);
    assert_eq!(metadata.issue_transaction_order(4), 0);
    assert_eq!(metadata.transaction_order(3), 3);
    assert_eq!(metadata.transaction_order(4), 1);
}

#[test]
fn issued_order_counter_wraps_like_fetch_add() {
    let mut metadata = AtomicEpochMetadata::new();
    assert_eq!(metadata.set_transaction_order_if_absent(9, u64::MAX), None);
    assert_eq!(metadata.issue_transaction_order(9), u64::MAX);
    assert_eq!(metadata.transaction_order(9), 0);
}

#[test]
fn transaction_order_set_only_when_absent() {
    let mut metadata = AtomicEpochMetadata::new();
    assert_eq!(metadata.set_transaction_order_if_absent(5, 40), None);
    assert_eq!(metadata.transaction_order(5), 40);
    assert_eq!(metadata.set_transaction_order_if_absent(5, 7), Some(40));
    assert_eq!(metadata.transaction_order(5), 40);
    assert_eq!(metadata.issue_transaction_order(5), 40);
}

#[test]
fn received_counts_grow_to_cover_the_node() {
    let mut metadata = AtomicEpochMetadata::new();
    metadata.increment_received_transaction_count(2, 3);
    assert_eq!(metadata.received_transaction_count(2, 3), 1);
    assert_eq!(metadata.received_transaction_count(2, 0), 0);
    assert_eq!(metadata.received_transaction_count(2, 10), 0);
    metadata.increment_received_transaction_count(2, 3);
    metadata.increment_received_transaction_count(2, 1);
    assert_eq!(metadata.received_transaction_count(2, 3), 2);
    assert_eq!(metadata.received_transaction_count(2, 1), 1);
    assert_eq!(metadata.received_transaction_count(7, 1), 0);
}

#[test]
fn retain_drops_batched_epochs() {
    let mut metadata = AtomicEpochMetadata::new();
    for epoch in 1..=5u64 {
        metadata.issue_transaction_order(epoch);
        metadata.increment_received_transaction_count(epoch, 0);
    }
    metadata.retain_epochs_after(3);
    for epoch in 1..=3u64 {
        assert_eq!(metadata.transaction_order(epoch), 0);
        assert_eq!(metadata.received_transaction_count(epoch, 0), 0);
    }
    for epoch in 4..=5u64 {
        assert_eq!(metadata.transaction_order(epoch), 1);
        assert_eq!(metadata.received_transaction_count(epoch, 0), 1);
    }
}

#[test]
fn redirect_ring_counts_and_evicts() {
    let mut ring = RedirectRing::new();
    assert_eq!(REDIRECT_WINDOW, 4096);
    assert_eq!(ring.get(17), 0);
    assert_eq!(ring.get(u64::MAX), 0);
    ring.incr(17);
    ring.incr(17);
    ring.incr(18);
    assert_eq!(ring.get(17), 2);
    assert_eq!(ring.get(18), 1);
    ring.incr(17 + 4096);
    assert_eq!(ring.get(17), 0);
    assert_eq!(ring.get(17 + 4096), 1);
    assert_eq!(ring.get(18), 1);
}

#[test]
fn redirect_ring_counts_the_top_epochs() {
    let mut ring = RedirectRing::new();
    ring.incr(u64::MAX);
    ring.incr(u64::MAX - 1);
    assert_eq!(ring.get(u64::MAX), 1);
    assert_eq!(ring.get(u64::MAX - 1), 1);
    ring.incr(u64::MAX - 1 - 4096);
    assert_eq!(ring.get(u64::MAX - 1), 0);
    assert_eq!(ring.get(u64::MAX - 1 - 4096), 1);
}
