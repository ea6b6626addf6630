//! Persistent per-rollup epoch metadata.

use std::collections::BTreeSet;

use vstd::prelude::*;

verus! {

broadcast use vstd::laws_cmp::group_laws_cmp;

/// Epochs whose transactions every node has reported.
#[derive(Clone, Debug)]
pub struct CanProvideEpochInfo {
    pub completed_epoch: BTreeSet<u64>,
}

impl CanProvideEpochInfo {
    /// No completed epoch.
    pub fn default() -> (info: Self)
        ensures
            info.completed_epoch@ == Set::<u64>::empty(),
    {
        CanProvideEpochInfo { completed_epoch: BTreeSet::new() }
    }

    /// Records `epoch` as completed.
    pub fn add_completed_epoch(&mut self, epoch: u64)
        ensures
            final(self).completed_epoch@ == old(self).completed_epoch@.insert(epoch),
    {
        self.completed_epoch.insert(epoch);
    }
}

/// The last epoch whose transactions have been placed in batches, if any.
#[derive(Clone, Copy, Debug)]
pub struct EpochMetadata {
    pub last_batched_epoch: Option<u64>,
}

impl EpochMetadata {
    /// No epoch batched yet.
    pub fn default() -> (metadata: Self)
        ensures
            metadata.last_batched_epoch is None,
    {
        EpochMetadata { last_batched_epoch: None }
    }
}

} // verus!
