//! The leader tells the other nodes which epochs are already in batches.

use vstd::prelude::*;

use crate::types::atomic_epoch_metadata::{epochs_after, AtomicEpochMetadata};
use crate::types::epoch_metadata::EpochMetadata;
use crate::types::rollup::RollupId;

verus! {

/// The last epoch whose transactions the leader placed in batches.
#[derive(Clone, Debug)]
pub struct SyncEpochMetadata {
    pub last_batched_epoch: u64,
    pub rollup_id: RollupId,
}

/// Records the last batched epoch and drops the in-memory counters of that
/// epoch and every earlier one, which no request reads any more.
pub fn apply_sync_epoch_metadata(
    epoch_metadata: &mut EpochMetadata,
    counters: &mut AtomicEpochMetadata,
    last_batched_epoch: u64,
)
    ensures
        final(epoch_metadata).last_batched_epoch == Some(last_batched_epoch),
        final(counters).issued_orders() == epochs_after(old(counters).issued_orders(), last_batched_epoch),
        final(counters).received_counts() == epochs_after(
            old(counters).received_counts(),
            last_batched_epoch,
        ),
{
    epoch_metadata.last_batched_epoch = Some(last_batched_epoch);
    counters.retain_epochs_after(last_batched_epoch);
}

} // verus!
