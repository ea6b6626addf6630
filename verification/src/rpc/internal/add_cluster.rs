//! The operator registers the node in a cluster.

use vstd::prelude::*;

use crate::types::cluster_metadata::ClusterMetadata;
use crate::types::rollup::{ClusterId, LivenessServiceProvider, Platform};

verus! {

/// Registers the node in a cluster of a liveness service on a platform.
#[derive(Clone, Debug)]
pub struct AddCluster {
    pub platform: Platform,
    pub liveness_service_provider: LivenessServiceProvider,
    pub cluster_id: ClusterId,
}

/// Whether clusters on a platform can be added: only Ethereum has a client.
pub open spec fn cluster_platform_supported(platform: Platform) -> bool {
    platform == Platform::Ethereum
}

impl AddCluster {
    /// Whether the cluster's platform has a client to register with.
    pub fn is_supported(&self) -> (supported: bool)
        ensures
            supported == cluster_platform_supported(self.platform),
    {
        match self.platform {
            Platform::Ethereum => true,
            Platform::Holesky => false,
            Platform::Local => false,
        }
    }

    /// The metadata of the newly added cluster, seen at the platform's current
    /// block height: epoch zero, no leader known yet.
    pub fn initial_cluster_metadata(&self, platform_block_height: u64) -> (metadata: ClusterMetadata)
        ensures
            metadata.cluster_id@ == self.cluster_id@,
            metadata.platform_block_height == platform_block_height,
            !metadata.is_leader,
            !metadata.can_process_as_leader,
            metadata.leader_tx_orderer_rpc_info is None,
            metadata.epoch == 0,
            metadata.epoch_leader_map@.is_empty(),
            metadata.epoch_sent_transaction_count@.is_empty(),
            metadata.end_signal_bitmap@.is_empty(),
    {
        ClusterMetadata::new(self.cluster_id.clone(), platform_block_height)
    }
}

} // verus!
