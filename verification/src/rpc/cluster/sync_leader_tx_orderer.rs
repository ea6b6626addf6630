//! The former leader hands the leadership's state to the other nodes: who
//! leads which epoch, and how far the rollup's transactions have gone.

use vstd::prelude::*;

use crate::error::Error;
use crate::rpc::cluster::get_raw_transaction_list::LeaderChangeMessage;
use crate::types::address::{Address, Signature};
use crate::types::cluster_metadata::{leader_map_after_change, rpc_info_of, Cluster, ClusterMetadata};
use crate::types::epoch_metadata::EpochMetadata;
use crate::types::rollup_metadata::RollupMetadata;

verus! {

/// A change of leader, with the rollup's batch position, how far its
/// transactions were provided, the epochs left and entered, and the epoch
/// metadata.
#[derive(Clone, Debug)]
pub struct SyncLeaderTxOrderer {
    pub leader_change_message: LeaderChangeMessage,
    pub rollup_signature: Signature,
    pub batch_number: u64,
    pub transaction_order: u64,
    pub provided_batch_number: u64,
    pub provided_transaction_order: i64,
    pub old_epoch: u64,
    pub new_epoch: u64,
    pub epoch_metadata: EpochMetadata,
}

/// Applies a change of leader that another node reports on the node
/// `own_address`: the next leader must be a node of the cluster (else
/// `TxOrdererInfoNotFound`, with nothing changed). The node records the block
/// height, whether it leads now and where the leader is, moves from the old to
/// the new epoch, and takes the rollup's batch and provided positions and the
/// last batched epoch from the request. Returns whether another leader had been
/// recorded for the new epoch.
pub fn apply_sync_leader_tx_orderer(
    cluster_metadata: &mut ClusterMetadata,
    rollup_metadata: &mut RollupMetadata,
    epoch_metadata: &mut EpochMetadata,
    cluster: &Cluster,
    own_address: &Address,
    request: &SyncLeaderTxOrderer,
) -> (applied: Result<bool, Error>)
    ensures
        ({
            let message = request.leader_change_message;
            match rpc_info_of(cluster.tx_orderer_rpc_infos@, message.next_leader_tx_orderer_address) {
                None => {
                    &&& applied matches Err(Error::TxOrdererInfoNotFound)
                    &&& final(cluster_metadata).platform_block_height == old(
                        cluster_metadata,
                    ).platform_block_height
                    &&& final(cluster_metadata).is_leader == old(cluster_metadata).is_leader
                    &&& final(cluster_metadata).leader_tx_orderer_rpc_info == old(
                        cluster_metadata,
                    ).leader_tx_orderer_rpc_info
                    &&& final(cluster_metadata).epoch == old(cluster_metadata).epoch
                    &&& final(cluster_metadata).epoch_leader_map@ == old(
                        cluster_metadata,
                    ).epoch_leader_map@
                    &&& *final(rollup_metadata) == *old(rollup_metadata)
                    &&& *final(epoch_metadata) == *old(epoch_metadata)
                },
                Some(leader_info) => applied matches Ok(mismatch) && {
                    &&& final(cluster_metadata).platform_block_height
                        == message.platform_block_height
                    &&& final(cluster_metadata).is_leader == (own_address@
                        == message.next_leader_tx_orderer_address@)
                    &&& final(cluster_metadata).leader_tx_orderer_rpc_info == Some(leader_info)
                    &&& final(cluster_metadata).epoch == request.new_epoch
                    &&& final(cluster_metadata).epoch_leader_map@ == leader_map_after_change(
                        old(cluster_metadata).epoch_leader_map@,
                        request.old_epoch,
                        request.new_epoch,
                        message.current_leader_tx_orderer_address,
                        message.next_leader_tx_orderer_address,
                    )
                    &&& mismatch == ({
                        let with_old = if old(cluster_metadata).epoch_leader_map@.contains_key(
                            request.old_epoch,
                        ) {
                            old(cluster_metadata).epoch_leader_map@
                        } else {
                            old(cluster_metadata).epoch_leader_map@.insert(
                                request.old_epoch,
                                message.current_leader_tx_orderer_address,
                            )
                        };
                        with_old.contains_key(request.new_epoch) && with_old[request.new_epoch]@
                            != message.next_leader_tx_orderer_address@
                    })
                    &&& final(rollup_metadata).batch_number == request.batch_number
                    &&& final(rollup_metadata).transaction_order == request.transaction_order
                    &&& final(rollup_metadata).provided_batch_number
                        == request.provided_batch_number
                    &&& final(rollup_metadata).provided_transaction_order
                        == request.provided_transaction_order
                    &&& final(rollup_metadata).max_transaction_count_per_batch == old(
                        rollup_metadata,
                    ).max_transaction_count_per_batch
                    &&& final(rollup_metadata).cluster_id == old(rollup_metadata).cluster_id
                    &&& final(epoch_metadata).last_batched_epoch
                        == request.epoch_metadata.last_batched_epoch
                },
            }
        }),
        final(cluster_metadata).cluster_id == old(cluster_metadata).cluster_id,
        final(cluster_metadata).can_process_as_leader == old(cluster_metadata).can_process_as_leader,
        final(cluster_metadata).epoch_sent_transaction_count@ == old(
            cluster_metadata,
        ).epoch_sent_transaction_count@,
        final(cluster_metadata).end_signal_bitmap@ == old(cluster_metadata).end_signal_bitmap@,
{
    let message = &request.leader_change_message;
    let leader_info = match cluster.get_tx_orderer_rpc_info(&message.next_leader_tx_orderer_address) {
        Some(info) => info,
        None => {
            return Err(Error::TxOrdererInfoNotFound);
        },
    };
    let is_leader = own_address.same_as(&message.next_leader_tx_orderer_address);
    let mismatch = cluster_metadata.apply_leader_change(
        message.platform_block_height,
        is_leader,
        leader_info,
        request.old_epoch,
        request.new_epoch,
        message.current_leader_tx_orderer_address,
        message.next_leader_tx_orderer_address,
    );
    rollup_metadata.batch_number = request.batch_number;
    rollup_metadata.transaction_order = request.transaction_order;
    rollup_metadata.provided_batch_number = request.provided_batch_number;
    rollup_metadata.provided_transaction_order = request.provided_transaction_order;
    epoch_metadata.last_batched_epoch = request.epoch_metadata.last_batched_epoch;
    Ok(mismatch)
}

/// The cluster RPC URL of the recorded leader of `epoch`: `EpochLeaderAddressNotFound` when
/// none is recorded, `EpochLeaderClusterRpcUrlNotFound` when that leader is not a node of the
/// cluster or has no cluster RPC URL.
pub fn epoch_leader_cluster_rpc_url(
    cluster_metadata: &ClusterMetadata,
    cluster: &Cluster,
    epoch: u64,
) -> (url: Result<String, Error>)
    ensures
        match cluster_metadata.epoch_leader_map@.get(epoch) {
            None => url matches Err(Error::EpochLeaderAddressNotFound),
            Some(leader) => match rpc_info_of(cluster.tx_orderer_rpc_infos@, leader) {
                Some(info) => match info.cluster_rpc_url {
                    Some(expected) => url matches Ok(u) && u@ == expected@,
                    None => url matches Err(Error::EpochLeaderClusterRpcUrlNotFound),
                },
                None => url matches Err(Error::EpochLeaderClusterRpcUrlNotFound),
            },
        },
{
    let leader = match cluster_metadata.epoch_leader(epoch) {
        Some(leader) => leader,
        None => {
            return Err(Error::EpochLeaderAddressNotFound);
        },
    };
    match cluster.get_tx_orderer_rpc_info(&leader) {
        Some(info) => match info.cluster_rpc_url {
            Some(url) => Ok(url),
            None => Err(Error::EpochLeaderClusterRpcUrlNotFound),
        },
        None => Err(Error::EpochLeaderClusterRpcUrlNotFound),
    }
}

} // verus!
