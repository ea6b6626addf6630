//! Every node tells the leader of an epoch when the epoch has ended for it; once
//! all nodes have, the epoch is complete.

use vstd::prelude::*;

use crate::error::Error;
use crate::types::address::Address;
use crate::types::cluster_metadata::{
    has_signalled, node_index_of, other_cluster_rpc_urls, rpc_info_of, Cluster, ClusterMetadata,
};
use crate::types::rollup::RollupId;
use crate::util::filter_out;

verus! {

/// A node's signal that `epoch` has ended for it.
#[derive(Clone, Debug)]
pub struct SendEndSignal {
    pub rollup_id: RollupId,
    pub epoch: u64,
    pub sender_address: Address,
}

/// What the leader learned from an end signal: its own cluster RPC URL, and
/// whether every node has now signalled the epoch's end.
#[derive(Clone, Debug)]
pub struct EndSignalReceipt {
    pub current_node_cluster_rpc_url: String,
    pub epoch_completed: bool,
}

/// Nothing of the cluster metadata but its end signals changed.
pub open spec fn only_signals_changed(a: ClusterMetadata, b: ClusterMetadata) -> bool {
    &&& a.cluster_id == b.cluster_id
    &&& a.platform_block_height == b.platform_block_height
    &&& a.is_leader == b.is_leader
    &&& a.can_process_as_leader == b.can_process_as_leader
    &&& a.leader_tx_orderer_rpc_info == b.leader_tx_orderer_rpc_info
    &&& a.epoch == b.epoch
    &&& a.epoch_leader_map@ == b.epoch_leader_map@
    &&& a.epoch_sent_transaction_count@ == b.epoch_sent_transaction_count@
}

/// Records an end signal on the leader `own_address` of the signal's epoch.
///
/// Refused, with nothing changed, when this node is not in the cluster
/// (`TxOrdererInfoNotFound`), has no cluster RPC URL (`ClusterRpcUrlNotFound`), is not
/// the epoch's recorded leader (`NotEpochLeader`), or the sender is not a node
/// of the cluster (`SenderNotInCluster`). Otherwise the sender's bit is set, and
/// the epoch is complete when every node of the cluster has signalled.
pub fn accept_end_signal(
    cluster_metadata: &mut ClusterMetadata,
    cluster: &Cluster,
    own_address: &Address,
    signal: &SendEndSignal,
) -> (receipt: Result<EndSignalReceipt, Error>)
    requires
        forall|i: int|
            0 <= i < cluster.tx_orderer_rpc_infos@.len() ==> cluster.tx_orderer_rpc_infos@[i].0
                < usize::MAX,
    ensures
        only_signals_changed(*final(cluster_metadata), *old(cluster_metadata)),
        ({
            let infos = cluster.tx_orderer_rpc_infos@;
            let old_bits = old(cluster_metadata).end_signal_bitmap@;
            let new_bits = final(cluster_metadata).end_signal_bitmap@;
            let leads = old(cluster_metadata).epoch_leader_map@.contains_key(signal.epoch) && old(
                cluster_metadata,
            ).epoch_leader_map@[signal.epoch]@ == own_address@;
            match rpc_info_of(infos, *own_address) {
                None => receipt matches Err(Error::TxOrdererInfoNotFound) && new_bits == old_bits,
                Some(own_info) => match own_info.cluster_rpc_url {
                    None => receipt matches Err(Error::ClusterRpcUrlNotFound) && new_bits == old_bits,
                    Some(own_url) => if !leads {
                        receipt matches Err(Error::NotEpochLeader) && new_bits == old_bits
                    } else {
                        match node_index_of(infos, signal.sender_address) {
                            None => receipt matches Err(Error::SenderNotInCluster) && new_bits
                                == old_bits,
                            Some(node_index) => receipt matches Ok(r) && {
                                &&& r.current_node_cluster_rpc_url@ == own_url@
                                &&& forall|e: u64, i: int|
                                    0 <= i ==> #[trigger] has_signalled(new_bits, e, i) == ((e
                                        == signal.epoch && i == node_index) || has_signalled(
                                        old_bits,
                                        e,
                                        i,
                                    ))
                                &&& r.epoch_completed == forall|i: int|
                                    0 <= i < infos.len() ==> #[trigger] has_signalled(
                                        new_bits,
                                        signal.epoch,
                                        i,
                                    )
                            },
                        }
                    },
                },
            }
        }),
{
    let own_info = match cluster.get_tx_orderer_rpc_info(own_address) {
        Some(info) => info,
        None => {
            return Err(Error::TxOrdererInfoNotFound);
        },
    };
    let current_node_cluster_rpc_url = match own_info.cluster_rpc_url {
        Some(url) => url,
        None => {
            return Err(Error::ClusterRpcUrlNotFound);
        },
    };
    if !cluster_metadata.is_epoch_leader(signal.epoch, own_address) {
        return Err(Error::NotEpochLeader);
    }
    let node_index = match cluster.find_node_index(&signal.sender_address) {
        Some(index) => index,
        None => {
            return Err(Error::SenderNotInCluster);
        },
    };
    proof {
        lemma_found_index_is_below_max(cluster.tx_orderer_rpc_infos@, signal.sender_address);
    }
    cluster_metadata.set_node_bit(signal.epoch, node_index);
    let epoch_completed = cluster_metadata.all_nodes_sent_signal(
        signal.epoch,
        cluster.tx_orderer_rpc_infos.len(),
    );
    Ok(EndSignalReceipt { current_node_cluster_rpc_url, epoch_completed })
}

/// A node index found in records whose indices are all below `usize::MAX` is
/// below it too.
proof fn lemma_found_index_is_below_max(
    infos: Seq<(usize, crate::types::cluster_metadata::TxOrdererRpcInfo)>,
    address: Address,
)
    requires
        node_index_of(infos, address) is Some,
        forall|i: int| 0 <= i < infos.len() ==> infos[i].0 < usize::MAX,
    ensures
        node_index_of(infos, address).unwrap() < usize::MAX,
    decreases infos.len(),
{
    if infos[0].1.tx_orderer_address@ != address@ {
        assert forall|i: int| 0 <= i < infos.drop_first().len() implies infos.drop_first()[i].0
            < usize::MAX by {
            assert(infos.drop_first()[i] == infos[i + 1]);
        }
        lemma_found_index_is_below_max(infos.drop_first(), address);
    }
}

/// The cluster RPC URLs to tell that an epoch is complete: those of the other
/// nodes but the current one's; nothing when there is no other node to tell.
pub fn end_signal_sync_targets(cluster: &Cluster, current_node_cluster_rpc_url: &String) -> (targets: Option<Vec<String>>)
    ensures
        ({
            let others = other_cluster_rpc_urls(cluster.tx_orderer_rpc_infos@, cluster.tx_orderer_address);
            match targets {
                None => others.len() == 0,
                Some(urls) => others.len() > 0 && urls@.map_values(|s: String| s@)
                    == others.map_values(|s: String| s@).filter(
                    |s: Seq<char>| s != current_node_cluster_rpc_url@,
                ),
            }
        }),
{
    let others = cluster.get_other_cluster_rpc_url_list();
    if others.len() == 0 {
        None
    } else {
        Some(filter_out(others, current_node_cluster_rpc_url))
    }
}

} // verus!
