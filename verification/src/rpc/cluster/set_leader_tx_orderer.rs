//! The rollup tells the current leader that the leadership moves on: the node
//! records the next leader and moves to the next epoch.

use vstd::prelude::*;

use crate::error::Error;
use crate::rpc::cluster::get_raw_transaction_list::LeaderChangeMessage;
use crate::types::address::{Address, Signature};
use crate::types::cluster_metadata::{leader_map_after_change, rpc_info_of, Cluster, ClusterMetadata};

verus! {

/// A change of leader, signed by the rollup.
#[derive(Clone, Debug)]
pub struct SetLeaderTxOrderer {
    pub leader_change_message: LeaderChangeMessage,
    pub rollup_signature: Signature,
}

/// Applies a change of leader on the node `own_address`: the next leader must
/// be a node of the cluster (else `TxOrdererInfoNotFound`, with nothing
/// changed); the node records the block height, whether it leads now and where
/// the leader is, and moves from its epoch to the next one, whose leader is the
/// next leader. Returns the old and the new epoch, and whether another leader
/// had been recorded for the new epoch.
pub fn apply_set_leader_tx_orderer(
    cluster_metadata: &mut ClusterMetadata,
    cluster: &Cluster,
    own_address: &Address,
    message: &LeaderChangeMessage,
) -> (changed: Result<(u64, u64, bool), Error>)
    requires
        old(cluster_metadata).epoch < u64::MAX,
    ensures
        match rpc_info_of(cluster.tx_orderer_rpc_infos@, message.next_leader_tx_orderer_address) {
            None => {
                &&& changed matches Err(Error::TxOrdererInfoNotFound)
                &&& final(cluster_metadata).platform_block_height == old(
                    cluster_metadata,
                ).platform_block_height
                &&& final(cluster_metadata).is_leader == old(cluster_metadata).is_leader
                &&& final(cluster_metadata).leader_tx_orderer_rpc_info == old(
                    cluster_metadata,
                ).leader_tx_orderer_rpc_info
                &&& final(cluster_metadata).epoch == old(cluster_metadata).epoch
                &&& final(cluster_metadata).epoch_leader_map@ == old(
                    cluster_metadata,
                ).epoch_leader_map@
            },
            Some(leader_info) => changed matches Ok(rotated) && {
                &&& rotated.0 == old(cluster_metadata).epoch
                &&& rotated.1 == old(cluster_metadata).epoch + 1
                &&& final(cluster_metadata).platform_block_height
                    == message.platform_block_height
                &&& final(cluster_metadata).is_leader == (own_address@
                    == message.next_leader_tx_orderer_address@)
                &&& final(cluster_metadata).leader_tx_orderer_rpc_info == Some(leader_info)
                &&& final(cluster_metadata).epoch == rotated.1
                &&& final(cluster_metadata).epoch_leader_map@ == leader_map_after_change(
                    old(cluster_metadata).epoch_leader_map@,
                    rotated.0,
                    rotated.1,
                    message.current_leader_tx_orderer_address,
                    message.next_leader_tx_orderer_address,
                )
                &&& rotated.2 == ({
                    let with_old = if old(cluster_metadata).epoch_leader_map@.contains_key(
                        rotated.0,
                    ) {
                        old(cluster_metadata).epoch_leader_map@
                    } else {
                        old(cluster_metadata).epoch_leader_map@.insert(
                            rotated.0,
                            message.current_leader_tx_orderer_address,
                        )
                    };
                    with_old.contains_key(rotated.1) && with_old[rotated.1]@
                        != message.next_leader_tx_orderer_address@
                })
            },
        },
        final(cluster_metadata).cluster_id == old(cluster_metadata).cluster_id,
        final(cluster_metadata).can_process_as_leader == old(cluster_metadata).can_process_as_leader,
        final(cluster_metadata).epoch_sent_transaction_count@ == old(
            cluster_metadata,
        ).epoch_sent_transaction_count@,
        final(cluster_metadata).end_signal_bitmap@ == old(cluster_metadata).end_signal_bitmap@,
{
    let leader_info = match cluster.get_tx_orderer_rpc_info(&message.next_leader_tx_orderer_address) {
        Some(info) => info,
        None => {
            return Err(Error::TxOrdererInfoNotFound);
        },
    };
    let is_next_leader = own_address.same_as(&message.next_leader_tx_orderer_address);
    let rotated = cluster_metadata.rotate_epoch_leader(
        message.platform_block_height,
        is_next_leader,
        leader_info,
        message.current_leader_tx_orderer_address,
        message.next_leader_tx_orderer_address,
    );
    Ok(rotated)
}

} // verus!
