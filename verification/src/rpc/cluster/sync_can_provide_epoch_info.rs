//! The leader of an epoch tells the other nodes that the epoch is complete and
//! how many transactions it holds.

use vstd::prelude::*;

use crate::types::atomic_epoch_metadata::AtomicEpochMetadata;
use crate::types::epoch_metadata::CanProvideEpochInfo;
use crate::types::rollup::RollupId;

verus! {

/// An epoch every node has reported, with the number of transactions the
/// leader ordered in it.
#[derive(Clone, Debug)]
pub struct SyncCanProvideEpochInfo {
    pub epoch: u64,
    pub transaction_order: u64,
    pub rollup_id: RollupId,
}

/// Records the epoch's number of transactions unless one is recorded already
/// (then returns the recorded one, which is kept), and marks the epoch
/// completed.
pub fn apply_sync_can_provide_epoch_info(
    counters: &mut AtomicEpochMetadata,
    info: &mut CanProvideEpochInfo,
    epoch: u64,
    transaction_order: u64,
) -> (existing: Option<u64>)
    ensures
        existing == old(counters).issued_orders().get(epoch),
        final(counters).issued_orders() == (if old(counters).issued_orders().contains_key(epoch) {
            old(counters).issued_orders()
        } else {
            old(counters).issued_orders().insert(epoch, transaction_order)
        }),
        final(counters).received_counts() == old(counters).received_counts(),
        final(info).completed_epoch@ == old(info).completed_epoch@.insert(epoch),
{
    let existing = counters.set_transaction_order_if_absent(epoch, transaction_order);
    info.add_completed_epoch(epoch);
    existing
}

} // verus!
