//! Lets a node process requests as the leader of its cluster.

use vstd::prelude::*;

use crate::types::cluster_metadata::ClusterMetadata;
use crate::types::rollup::RollupId;

verus! {

/// Asks a node to start processing requests as the leader for a rollup.
#[derive(Clone, Debug)]
pub struct EnableLeaderProcessing {
    pub rollup_id: RollupId,
}

/// Marks the cluster metadata as able to process requests as the leader;
/// nothing else changes.
pub fn enable_leader_processing(cluster_metadata: &mut ClusterMetadata)
    ensures
        final(cluster_metadata).can_process_as_leader,
        final(cluster_metadata).cluster_id == old(cluster_metadata).cluster_id,
        final(cluster_metadata).platform_block_height == old(cluster_metadata).platform_block_height,
        final(cluster_metadata).is_leader == old(cluster_metadata).is_leader,
        final(cluster_metadata).leader_tx_orderer_rpc_info == old(
            cluster_metadata,
        ).leader_tx_orderer_rpc_info,
        final(cluster_metadata).epoch == old(cluster_metadata).epoch,
        final(cluster_metadata).epoch_leader_map@ == old(cluster_metadata).epoch_leader_map@,
        final(cluster_metadata).epoch_sent_transaction_count@ == old(
            cluster_metadata,
        ).epoch_sent_transaction_count@,
        final(cluster_metadata).end_signal_bitmap@ == old(cluster_metadata).end_signal_bitmap@,
{
    cluster_metadata.can_process_as_leader = true;
}

} // verus!
