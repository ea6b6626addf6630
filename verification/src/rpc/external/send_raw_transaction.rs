//! A client's raw transaction: the node stamps it with the current epoch and
//! either sequences it, when it leads that epoch, or forwards it to the leader.

use vstd::prelude::*;

use crate::error::Error;
use crate::types::redirect_ring::{counted_one_more, RedirectRing};
use crate::types::address::Address;
use crate::types::atomic_epoch_metadata::{
    counters_after_receipt, counters_of, issued_in, next_count, AtomicEpochMetadata,
};
use crate::types::cluster_metadata::{
    leader_map_after_change, node_index_of, rpc_info_of, Cluster, ClusterMetadata, TxOrdererRpcInfo,
};
use crate::types::order_commitment::{
    OrderCommitment, SingleOrderCommitment, TransactionHashOrderCommitment,
};
use crate::types::raw_epoch_transaction::{
    hash_defined, transaction_hash_text, EthRawEpochTransaction, RawEpochTransaction,
    RawTransactionHash,
};
use crate::types::rollup::{OrderCommitmentType, RollupId};

verus! {

/// When the handler started and ended, in milliseconds since the Unix epoch.
#[derive(Clone, Copy, Debug)]
pub struct SendRawTransactionHandlerTimings {
    pub start_ms: u128,
    pub end_ms: u128,
}

/// When the cluster metadata was read.
#[derive(Clone, Copy, Debug)]
pub struct SendRawTransactionClusterMetadataTimings {
    pub start_ms: u128,
    pub end_ms: u128,
}

/// When the epoch metadata was read.
#[derive(Clone, Copy, Debug)]
pub struct SendRawTransactionEpochMetadataTimings {
    pub start_ms: u128,
    pub end_ms: u128,
}

/// When the epoch metadata was updated.
#[derive(Clone, Copy, Debug)]
pub struct SendRawTransactionEpochUpdateTimings {
    pub start_ms: u128,
    pub end_ms: u128,
}

/// When the signer was fetched.
#[derive(Clone, Copy, Debug)]
pub struct SendRawTransactionSignerTimings {
    pub start_ms: u128,
    pub end_ms: u128,
}

/// When the request was forwarded to the leader.
#[derive(Clone, Copy, Debug)]
pub struct SendRawTransactionRedirectRpcTimings {
    pub start_ms: u128,
    pub end_ms: u128,
}

/// When the cluster metadata was updated.
#[derive(Clone, Copy, Debug)]
pub struct SendRawTransactionClusterUpdateTimings {
    pub start_ms: u128,
    pub end_ms: u128,
}

/// When the order commitment was issued.
#[derive(Clone, Copy, Debug)]
pub struct SendRawTransactionIssueOCTimings {
    pub start_ms: u128,
    pub end_ms: u128,
}

/// When the transaction hash was added to the Merkle tree.
#[derive(Clone, Copy, Debug)]
pub struct SendRawTransactionMerkleTimings {
    pub start_ms: u128,
    pub end_ms: u128,
}

/// When the transaction was stored.
#[derive(Clone, Copy, Debug)]
pub struct SendRawTransactionTXPutTimings {
    pub start_ms: u128,
    pub end_ms: u128,
}

/// When the order commitment was stored.
#[derive(Clone, Copy, Debug)]
pub struct SendRawTransactionOCPutTimings {
    pub start_ms: u128,
    pub end_ms: u128,
}

/// When the transaction was sent to the other nodes.
#[derive(Clone, Copy, Debug)]
pub struct SendRawTransactionSyncEpochTXTimings {
    pub start_ms: u128,
    pub end_ms: u128,
}

/// The answer to a raw transaction: its order commitment, whether it was
/// forwarded to the leader, and when each step ran.
#[derive(Clone, Debug)]
#[allow(non_snake_case)]
pub struct SendRawTransactionResponse {
    pub order_commitment: OrderCommitment,
    pub redirect: bool,
    pub handler_timings: SendRawTransactionHandlerTimings,
    pub cluster_metadata_timings: SendRawTransactionClusterMetadataTimings,
    pub epoch_metadata_timings: SendRawTransactionEpochMetadataTimings,
    pub epoch_update_timings: SendRawTransactionEpochUpdateTimings,
    pub signer_timings: SendRawTransactionSignerTimings,
    pub redirect_rpc_timings: Option<SendRawTransactionRedirectRpcTimings>,
    pub leader_cluster_metadata_timings: Option<SendRawTransactionClusterMetadataTimings>,
    pub cluster_update_timings: SendRawTransactionClusterUpdateTimings,
    pub leader_cluster_update_timings: Option<SendRawTransactionClusterUpdateTimings>,
    pub issue_order_commitment_timings: SendRawTransactionIssueOCTimings,
    pub merkle_timings: SendRawTransactionMerkleTimings,
    pub TX_put_timings: SendRawTransactionTXPutTimings,
    pub OC_put_timings: SendRawTransactionOCPutTimings,
    pub sync_epoch_TX_timings: SendRawTransactionSyncEpochTXTimings,
}

/// A raw transaction for a rollup; `sender_address` names the node that
/// forwarded it, and is empty when it comes from a client.
#[derive(Clone, Debug)]
pub struct SendRawTransaction {
    pub rollup_id: RollupId,
    pub raw_transaction: RawEpochTransaction,
    pub sender_address: Option<Address>,
}

/// Where a raw transaction goes: this node sequences it in `epoch`, or
/// forwards it to the leader (the epoch's recorded leader, if any).
#[derive(Clone, Copy, Debug)]
pub enum RawTransactionRoute {
    Leader { epoch: u64 },
    Forward { epoch: u64, leader_address: Option<Address> },
}

/// The epoch a transaction belongs to: the one an Ethereum transaction carries,
/// the cluster's current epoch otherwise.
pub open spec fn request_epoch(cluster_epoch: u64, transaction: RawEpochTransaction) -> u64 {
    match transaction {
        RawEpochTransaction::Eth(eth) => match eth.epoch {
            Some(epoch) => epoch,
            None => cluster_epoch,
        },
        RawEpochTransaction::EthBundle(_) => cluster_epoch,
    }
}

/// The transaction as the node passes it on: an Ethereum transaction from a
/// client (one without epoch) gets the cluster's current epoch.
pub open spec fn stamped_transaction(cluster_epoch: u64, transaction: RawEpochTransaction) -> RawEpochTransaction {
    match transaction {
        RawEpochTransaction::Eth(eth) => if eth.epoch is None {
            RawEpochTransaction::Eth(
                EthRawEpochTransaction { raw_transaction: eth.raw_transaction, epoch: Some(cluster_epoch) },
            )
        } else {
            transaction
        },
        RawEpochTransaction::EthBundle(_) => transaction,
    }
}

/// The leaders after a transaction is seen: one of a later epoch than the
/// cluster's, whose leader is not known yet, makes this node that epoch's
/// provisional leader.
pub open spec fn leaders_after_request(
    leaders: Map<u64, Address>,
    cluster_epoch: u64,
    transaction: RawEpochTransaction,
    own_address: Address,
) -> Map<u64, Address> {
    match transaction {
        RawEpochTransaction::Eth(eth) => match eth.epoch {
            Some(epoch) => if epoch > cluster_epoch && !leaders.contains_key(epoch) {
                leaders.insert(epoch, own_address)
            } else {
                leaders
            },
            None => leaders,
        },
        RawEpochTransaction::EthBundle(_) => leaders,
    }
}

/// The leader a transaction is bound to: for an Ethereum transaction, the
/// recorded leader of its epoch; a bundle has none.
pub open spec fn request_leader(
    leaders: Map<u64, Address>,
    cluster_epoch: u64,
    transaction: RawEpochTransaction,
) -> Option<Address> {
    match transaction {
        RawEpochTransaction::Eth(_) => leaders.get(request_epoch(cluster_epoch, transaction)),
        RawEpochTransaction::EthBundle(_) => None,
    }
}

/// Whether this node sequences the transaction: for an Ethereum transaction,
/// whether it is the recorded leader of the epoch; for a bundle, whether the
/// cluster metadata says it leads.
pub open spec fn leads_request(
    leaders: Map<u64, Address>,
    cluster_epoch: u64,
    is_leader: bool,
    transaction: RawEpochTransaction,
    own_address: Address,
) -> bool {
    match transaction {
        RawEpochTransaction::Eth(_) => match request_leader(leaders, cluster_epoch, transaction) {
            Some(leader) => leader@ == own_address@,
            None => false,
        },
        RawEpochTransaction::EthBundle(_) => is_leader,
    }
}

/// The cluster metadata changed at most in its leaders and forwarded counts.
pub open spec fn same_cluster_state(a: ClusterMetadata, b: ClusterMetadata) -> bool {
    &&& a.cluster_id == b.cluster_id
    &&& a.platform_block_height == b.platform_block_height
    &&& a.is_leader == b.is_leader
    &&& a.can_process_as_leader == b.can_process_as_leader
    &&& a.leader_tx_orderer_rpc_info == b.leader_tx_orderer_rpc_info
    &&& a.epoch == b.epoch
    &&& a.end_signal_bitmap@ == b.end_signal_bitmap@
}

/// What routing a raw transaction does, as the node `own` sees its cluster:
/// see `route_raw_transaction`.
pub open spec fn raw_transaction_routed(
    before: ClusterMetadata,
    after: ClusterMetadata,
    request_before: SendRawTransaction,
    request_after: SendRawTransaction,
    own: Address,
    route: Result<RawTransactionRoute, Error>,
) -> bool {
    &&& ({
        let epoch = request_epoch(before.epoch, request_before.raw_transaction);
        let leaders = leaders_after_request(
            before.epoch_leader_map@,
            before.epoch,
            request_before.raw_transaction,
            own,
        );
        let leader = request_leader(
            leaders,
            before.epoch,
            request_before.raw_transaction,
        );
        let leads = leads_request(
            leaders,
            before.epoch,
            before.is_leader,
            request_before.raw_transaction,
            own,
        );
        match route {
            Err(error) => {
                &&& error == Error::NoEpochLeader
                &&& request_before.raw_transaction is Eth
                &&& leader is None
                &&& after.epoch_leader_map@ == before.epoch_leader_map@
                &&& after.epoch_sent_transaction_count@ == before.epoch_sent_transaction_count@
                &&& request_after == request_before
            },
            Ok(r) => {
                &&& (request_before.raw_transaction is EthBundle || leader is Some)
                &&& after.epoch_leader_map@ == leaders
                &&& request_after.rollup_id == request_before.rollup_id
                &&& request_after.raw_transaction == stamped_transaction(
                    before.epoch,
                    request_before.raw_transaction,
                )
                &&& match r {
                    RawTransactionRoute::Leader { epoch: e } => {
                        &&& leads
                        &&& e == epoch
                        &&& after.epoch_sent_transaction_count@ == before.epoch_sent_transaction_count@
                        &&& request_after.sender_address == request_before.sender_address
                    },
                    RawTransactionRoute::Forward { epoch: e, leader_address } => {
                        &&& !leads
                        &&& e == epoch
                        &&& leader_address == leader
                        &&& after.epoch_sent_transaction_count@ == before.epoch_sent_transaction_count@.insert(
                            epoch,
                            (before.sent_count(epoch) + 1) as u64,
                        )
                        &&& request_after.sender_address == Some(own)
                    },
                }
            },
        }
    })
    &&& same_cluster_state(after, before)
}

/// Decides where a raw transaction goes, as the node `own_address` sees its
/// cluster.
///
/// A client's Ethereum transaction is stamped with the current epoch; one from
/// a later epoch whose leader is unknown makes this node its provisional leader.
/// An Ethereum transaction whose epoch has no recorded leader is refused with
/// `NoEpochLeader`, and nothing changes. This node sequences the transaction
/// when it leads; otherwise it counts one more transaction forwarded in the
/// epoch and names itself as the sender.
pub fn route_raw_transaction(
    cluster_metadata: &mut ClusterMetadata,
    request: &mut SendRawTransaction,
    own_address: &Address,
) -> (route: Result<RawTransactionRoute, Error>)
    requires
        ({
            let leaders = leaders_after_request(
                old(cluster_metadata).epoch_leader_map@,
                old(cluster_metadata).epoch,
                old(request).raw_transaction,
                *own_address,
            );
            &&& old(request).raw_transaction is EthBundle || request_leader(
                leaders,
                old(cluster_metadata).epoch,
                old(request).raw_transaction,
            ) is Some
            &&& !leads_request(
                leaders,
                old(cluster_metadata).epoch,
                old(cluster_metadata).is_leader,
                old(request).raw_transaction,
                *own_address,
            )
        }) ==> old(cluster_metadata).sent_count(
            request_epoch(old(cluster_metadata).epoch, old(request).raw_transaction),
        ) < u64::MAX,
    ensures
        raw_transaction_routed(
            *old(cluster_metadata),
            *final(cluster_metadata),
            *old(request),
            *final(request),
            *own_address,
            route,
        ),
{
    let cluster_epoch = cluster_metadata.epoch;
    let (epoch, provisional) = match &request.raw_transaction {
        RawEpochTransaction::Eth(eth) => match eth.epoch {
            Some(e) => (e, e > cluster_epoch && !cluster_metadata.epoch_leader_map.contains_key(&e)),
            None => (cluster_epoch, false),
        },
        RawEpochTransaction::EthBundle(_) => (cluster_epoch, false),
    };
    let (leader_address, leads) = match &request.raw_transaction {
        RawEpochTransaction::Eth(_) => {
            let leader = if provisional {
                Some(*own_address)
            } else {
                cluster_metadata.epoch_leader(epoch)
            };
            match leader {
                Some(address) => (leader, address.same_as(own_address)),
                None => {
                    return Err(Error::NoEpochLeader);
                },
            }
        },
        RawEpochTransaction::EthBundle(_) => (None, cluster_metadata.is_leader),
    };
    match &mut request.raw_transaction {
        RawEpochTransaction::Eth(eth) => {
            if eth.epoch.is_none() {
                eth.set_epoch(cluster_epoch);
            }
        },
        RawEpochTransaction::EthBundle(_) => {},
    }
    if provisional {
        cluster_metadata.epoch_leader_map.insert(epoch, *own_address);
    }
    if leads {
        Ok(RawTransactionRoute::Leader { epoch })
    } else {
        cluster_metadata.increment_sent_transaction_count(epoch);
        request.sender_address = Some(*own_address);
        Ok(RawTransactionRoute::Forward { epoch, leader_address })
    }
}

/// The epoch of a routed transaction, read off its route.
pub open spec fn route_epoch(route: RawTransactionRoute) -> u64 {
    match route {
        RawTransactionRoute::Leader { epoch } => epoch,
        RawTransactionRoute::Forward { epoch, .. } => epoch,
    }
}

/// How an Ethereum transaction is routed, by its epoch `e` (the one it carries,
/// or the cluster's when it carries none). Only an epoch after the cluster's
/// whose leader is unknown makes this node its leader, and the transaction is
/// then sequenced here. An epoch that is not after the cluster's never changes
/// the recorded leaders; without a recorded leader it is refused with
/// `NoEpochLeader`. With a recorded leader, the transaction is sequenced here
/// exactly when this node is that leader, and forwarded otherwise, in epoch `e`.
pub proof fn lemma_routing_follows_the_epoch_leader(
    before: ClusterMetadata,
    after: ClusterMetadata,
    request_before: SendRawTransaction,
    request_after: SendRawTransaction,
    own: Address,
    route: Result<RawTransactionRoute, Error>,
)
    requires
        raw_transaction_routed(before, after, request_before, request_after, own, route),
    ensures
        request_before.raw_transaction matches RawEpochTransaction::Eth(eth) ==> {
            let e = match eth.epoch {
                Some(x) => x,
                None => before.epoch,
            };
            let leaders = before.epoch_leader_map@;
            &&& e <= before.epoch ==> after.epoch_leader_map@ == leaders
            &&& e <= before.epoch && !leaders.contains_key(e) ==> route == Err::<
                RawTransactionRoute,
                Error,
            >(Error::NoEpochLeader)
            &&& e > before.epoch && !leaders.contains_key(e) ==> {
                &&& after.epoch_leader_map@ == leaders.insert(e, own)
                &&& route == Ok::<RawTransactionRoute, Error>(RawTransactionRoute::Leader { epoch: e })
            }
            &&& leaders.contains_key(e) ==> {
                &&& after.epoch_leader_map@ == leaders
                &&& route matches Ok(r) && route_epoch(r) == e && (r is Leader <==> leaders[e]@
                    == own@)
            }
            &&& route is Ok ==> request_after.raw_transaction == RawEpochTransaction::Eth(
                EthRawEpochTransaction { raw_transaction: eth.raw_transaction, epoch: Some(e) },
            )
        },
        request_before.raw_transaction is EthBundle ==> {
            &&& after.epoch_leader_map@ == before.epoch_leader_map@
            &&& route matches Ok(r) && route_epoch(r) == before.epoch && (r is Leader
                <==> before.is_leader)
            &&& request_after.raw_transaction == request_before.raw_transaction
        },
        route matches Ok(RawTransactionRoute::Forward { epoch, .. }) ==> {
            &&& after.epoch_sent_transaction_count@ == before.epoch_sent_transaction_count@.insert(
                epoch,
                (before.sent_count(epoch) + 1) as u64,
            )
            &&& request_after.sender_address == Some(own)
        },
        !(route matches Ok(RawTransactionRoute::Forward { .. })) ==> {
            &&& after.epoch_sent_transaction_count@ == before.epoch_sent_transaction_count@
            &&& request_after.sender_address == request_before.sender_address
        },
{
}

/// Counts a routed transaction in the ring of redirects when it was forwarded
/// to the leader; one this node sequences is not counted.
pub fn count_redirect(ring: &mut RedirectRing, route: &RawTransactionRoute)
    ensures
        match route {
            RawTransactionRoute::Forward { epoch, .. } => counted_one_more(
                *old(ring),
                *final(ring),
                *epoch,
            ),
            RawTransactionRoute::Leader { .. } => *final(ring) == *old(ring),
        },
{
    match route {
        RawTransactionRoute::Forward { epoch, .. } => ring.incr(*epoch),
        RawTransactionRoute::Leader { .. } => {},
    }
}

/// The node a forwarded transaction goes to: the epoch's leader when it is a
/// node of the cluster, the cluster's current leader otherwise.
pub open spec fn forward_target(
    infos: Seq<(usize, TxOrdererRpcInfo)>,
    current_leader: Option<TxOrdererRpcInfo>,
    leader_address: Option<Address>,
) -> Option<TxOrdererRpcInfo> {
    match leader_address {
        Some(address) => match rpc_info_of(infos, address) {
            Some(info) => Some(info),
            None => current_leader,
        },
        None => current_leader,
    }
}

/// The external RPC URL of the node a forwarded transaction goes to;
/// `EmptyLeader` when there is no such node, `EmptyLeaderClusterRpcUrl` when it
/// has no external URL.
pub fn forward_target_url(
    cluster: &Cluster,
    cluster_metadata: &ClusterMetadata,
    leader_address: &Option<Address>,
) -> (url: Result<String, Error>)
    ensures
        match forward_target(
            cluster.tx_orderer_rpc_infos@,
            cluster_metadata.leader_tx_orderer_rpc_info,
            *leader_address,
        ) {
            Some(info) => match info.external_rpc_url {
                Some(expected) => url matches Ok(u) && u@ == expected@,
                None => url matches Err(Error::EmptyLeaderClusterRpcUrl),
            },
            None => url matches Err(Error::EmptyLeader),
        },
{
    let from_cluster = match leader_address {
        Some(address) => cluster.get_tx_orderer_rpc_info(address),
        None => None,
    };
    let target_url = match &from_cluster {
        Some(info) => Some(&info.external_rpc_url),
        None => match &cluster_metadata.leader_tx_orderer_rpc_info {
            Some(info) => Some(&info.external_rpc_url),
            None => None,
        },
    };
    match target_url {
        Some(Some(url)) => Ok(url.clone()),
        Some(None) => Err(Error::EmptyLeaderClusterRpcUrl),
        None => Err(Error::EmptyLeader),
    }
}

/// What the leader assigns a transaction it sequences.
#[derive(Debug)]
pub struct LeaderSequencing {
    pub epoch: u64,
    pub transaction_order: u64,
    pub transaction_hash: RawTransactionHash,
}

/// What sequencing a transaction on the leader does: see `sequence_as_leader`.
pub open spec fn leader_sequencing_outcome(
    before: AtomicEpochMetadata,
    after: AtomicEpochMetadata,
    cluster: Cluster,
    request: SendRawTransaction,
    cluster_epoch: u64,
    sequenced: Result<LeaderSequencing, Error>,
) -> bool {
    let epoch = request_epoch(cluster_epoch, request.raw_transaction);
    let infos = cluster.tx_orderer_rpc_infos@;
    match sequenced {
        Err(error) => {
            &&& error == Error::SenderNotInCluster
            &&& request.sender_address matches Some(sender) && node_index_of(
                infos,
                sender,
            ) is None
            &&& after.issued_orders() == before.issued_orders()
            &&& after.received_counts() == before.received_counts()
        },
        Ok(s) => {
            &&& s.epoch == epoch
            &&& s.transaction_order == issued_in(before.issued_orders(), epoch)
            &&& s.transaction_hash@ == transaction_hash_text(request.raw_transaction)
            &&& after.issued_orders() == before.issued_orders().insert(
                epoch,
                next_count(s.transaction_order),
            )
            &&& match request.sender_address {
                None => after.received_counts() == before.received_counts(),
                Some(sender) => node_index_of(infos, sender) matches Some(node_index)
                    && after.received_counts() == before.received_counts().insert(
                    epoch,
                    counters_after_receipt(
                        counters_of(before.received_counts(), epoch),
                        node_index as int,
                    ),
                ),
            }
        },
    }
}

/// Sequences a transaction on the leader: issues the next order of its epoch,
/// takes its hash, and, when another node forwarded it, counts one more
/// transaction received from that node. A sender that is not a node of the
/// cluster is refused with `SenderNotInCluster`, and no order is issued.
pub fn sequence_as_leader(
    metadata: &mut AtomicEpochMetadata,
    cluster: &Cluster,
    request: &SendRawTransaction,
    cluster_epoch: u64,
) -> (sequenced: Result<LeaderSequencing, Error>)
    requires
        hash_defined(request.raw_transaction),
        node_indices_in_range(*cluster),
    ensures
        leader_sequencing_outcome(*old(metadata), *final(metadata), *cluster, *request, cluster_epoch, sequenced),
{
    let epoch = match &request.raw_transaction {
        RawEpochTransaction::Eth(eth) => match eth.epoch {
            Some(e) => e,
            None => cluster_epoch,
        },
        RawEpochTransaction::EthBundle(_) => cluster_epoch,
    };
    let sender_index = match &request.sender_address {
        Some(sender) => match cluster.find_node_index(sender) {
            Some(index) => Some(index),
            None => {
                return Err(Error::SenderNotInCluster);
            },
        },
        None => None,
    };
    let transaction_order = metadata.issue_transaction_order(epoch);
    let transaction_hash = request.raw_transaction.raw_transaction_hash();
    match sender_index {
        Some(node_index) => {
            proof {
                lemma_node_index_in_cluster(
                    cluster.tx_orderer_rpc_infos@,
                    request.sender_address.unwrap(),
                );
            }
            metadata.increment_received_transaction_count(epoch, node_index);
        },
        None => {},
    }
    Ok(LeaderSequencing { epoch, transaction_order, transaction_hash })
}

/// The leader sequences a transaction in the epoch it carries, or in the
/// cluster's epoch when it carries none or is a bundle: the order it gets is
/// the number issued so far in that epoch, that epoch's counter alone moves one
/// step, and every other epoch's count stays.
pub proof fn lemma_sequencing_uses_the_transaction_epoch(
    before: AtomicEpochMetadata,
    after: AtomicEpochMetadata,
    cluster: Cluster,
    request: SendRawTransaction,
    cluster_epoch: u64,
    sequenced: LeaderSequencing,
)
    requires
        leader_sequencing_outcome(before, after, cluster, request, cluster_epoch, Ok(sequenced)),
    ensures
        sequenced.epoch == match request.raw_transaction {
            RawEpochTransaction::Eth(eth) => match eth.epoch {
                Some(e) => e,
                None => cluster_epoch,
            },
            RawEpochTransaction::EthBundle(_) => cluster_epoch,
        },
        sequenced.transaction_order == issued_in(before.issued_orders(), sequenced.epoch),
        issued_in(after.issued_orders(), sequenced.epoch) == next_count(sequenced.transaction_order),
        forall|other: u64|
            other != sequenced.epoch ==> #[trigger] issued_in(after.issued_orders(), other) == issued_in(
                before.issued_orders(),
                other,
            ),
        forall|other: u64|
            other != sequenced.epoch ==> #[trigger] counters_of(after.received_counts(), other)
                == counters_of(before.received_counts(), other),
        request.sender_address is None ==> after.received_counts() == before.received_counts(),
{
}

/// No node of the cluster has the largest index, so every node's counter can
/// be kept.
pub open spec fn node_indices_in_range(cluster: Cluster) -> bool {
    forall|i: int|
        0 <= i < cluster.tx_orderer_rpc_infos@.len() ==> cluster.tx_orderer_rpc_infos@[i].0
            < usize::MAX
}

/// Sequences a transaction on the leader as `sequence_as_leader` does, where
/// that can be done: nothing, with the counters unchanged, when the transaction's
/// text does not decode or a node of the cluster has the largest index.
pub fn checked_sequence_as_leader(
    metadata: &mut AtomicEpochMetadata,
    cluster: &Cluster,
    request: &SendRawTransaction,
    cluster_epoch: u64,
) -> (sequenced: Option<Result<LeaderSequencing, Error>>)
    ensures
        sequenced is None <==> !(hash_defined(request.raw_transaction) && node_indices_in_range(
            *cluster,
        )),
        sequenced is None ==> final(metadata).issued_orders() == old(metadata).issued_orders()
            && final(metadata).received_counts() == old(metadata).received_counts(),
        sequenced matches Some(s) ==> leader_sequencing_outcome(
            *old(metadata),
            *final(metadata),
            *cluster,
            *request,
            cluster_epoch,
            s,
        ),
{
    let mut i: usize = 0;
    while i < cluster.tx_orderer_rpc_infos.len()
        invariant
            0 <= i <= cluster.tx_orderer_rpc_infos@.len(),
            forall|k: int| 0 <= k < i ==> cluster.tx_orderer_rpc_infos@[k].0 < usize::MAX,
        decreases cluster.tx_orderer_rpc_infos.len() - i,
    {
        if cluster.tx_orderer_rpc_infos[i].0 == usize::MAX {
            return None;
        }
        i = i + 1;
    }
    if request.raw_transaction.checked_raw_transaction_hash().is_none() {
        return None;
    }
    Some(sequence_as_leader(metadata, cluster, request, cluster_epoch))
}

/// A node index found in a cluster is one of its records' indices.
proof fn lemma_node_index_in_cluster(infos: Seq<(usize, TxOrdererRpcInfo)>, address: Address)
    requires
        node_index_of(infos, address) is Some,
    ensures
        exists|i: int| 0 <= i < infos.len() && infos[i].0 == node_index_of(infos, address).unwrap(),
    decreases infos.len(),
{
    if infos[0].1.tx_orderer_address@ != address@ {
        lemma_node_index_in_cluster(infos.drop_first(), address);
        let i = choose|i: int|
            0 <= i < infos.drop_first().len() && infos.drop_first()[i].0 == node_index_of(
                infos,
                address,
            ).unwrap();
        assert(infos[i + 1] == infos.drop_first()[i]);
    } else {
        assert(infos[0].0 == node_index_of(infos, address).unwrap());
    }
}

/// The order commitment the leader answers with: the transaction's hash for
/// rollups that take hash commitments, the issued (signed) one otherwise.
pub fn leader_order_commitment(
    order_commitment_type: OrderCommitmentType,
    transaction_hash: RawTransactionHash,
    issued: OrderCommitment,
) -> (commitment: OrderCommitment)
    ensures
        match order_commitment_type {
            OrderCommitmentType::TransactionHash => commitment matches OrderCommitment::Single(
                SingleOrderCommitment::TransactionHash(TransactionHashOrderCommitment(hash)),
            ) && hash@ == transaction_hash@,
            OrderCommitmentType::Sign => commitment == issued,
        },
{
    match order_commitment_type {
        OrderCommitmentType::TransactionHash => OrderCommitment::Single(
            SingleOrderCommitment::TransactionHash(
                TransactionHashOrderCommitment::new(transaction_hash.as_string()),
            ),
        ),
        OrderCommitmentType::Sign => issued,
    }
}

/// The answer of a node that forwarded a transaction: the leader's order
/// commitment and the leader's timings of the steps only the leader ran, with
/// this node's own timings of the steps it ran; the leader's cluster metadata
/// timings are reported beside this node's.
pub fn redirected_response(
    leader_response: SendRawTransactionResponse,
    handler_timings: SendRawTransactionHandlerTimings,
    cluster_metadata_timings: SendRawTransactionClusterMetadataTimings,
    signer_timings: SendRawTransactionSignerTimings,
    redirect_rpc_timings: SendRawTransactionRedirectRpcTimings,
    cluster_update_timings: SendRawTransactionClusterUpdateTimings,
) -> (response: SendRawTransactionResponse)
    ensures
        response == (SendRawTransactionResponse {
            order_commitment: leader_response.order_commitment,
            redirect: true,
            handler_timings,
            cluster_metadata_timings,
            epoch_metadata_timings: leader_response.epoch_metadata_timings,
            epoch_update_timings: leader_response.epoch_update_timings,
            signer_timings,
            redirect_rpc_timings: Some(redirect_rpc_timings),
            leader_cluster_metadata_timings: Some(leader_response.cluster_metadata_timings),
            cluster_update_timings,
            leader_cluster_update_timings: Some(leader_response.cluster_update_timings),
            issue_order_commitment_timings: leader_response.issue_order_commitment_timings,
            merkle_timings: leader_response.merkle_timings,
            TX_put_timings: leader_response.TX_put_timings,
            OC_put_timings: leader_response.OC_put_timings,
            sync_epoch_TX_timings: leader_response.sync_epoch_TX_timings,
        }),
{
    SendRawTransactionResponse {
        order_commitment: leader_response.order_commitment,
        redirect: true,
        handler_timings,
        cluster_metadata_timings,
        epoch_metadata_timings: leader_response.epoch_metadata_timings,
        epoch_update_timings: leader_response.epoch_update_timings,
        signer_timings,
        redirect_rpc_timings: Some(redirect_rpc_timings),
        leader_cluster_metadata_timings: Some(leader_response.cluster_metadata_timings),
        cluster_update_timings,
        leader_cluster_update_timings: Some(leader_response.cluster_update_timings),
        issue_order_commitment_timings: leader_response.issue_order_commitment_timings,
        merkle_timings: leader_response.merkle_timings,
        TX_put_timings: leader_response.TX_put_timings,
        OC_put_timings: leader_response.OC_put_timings,
        sync_epoch_TX_timings: leader_response.sync_epoch_TX_timings,
    }
}

/// A node that made itself the provisional leader of a later epoch, because a
/// transaction of that epoch came first, does not keep it: the change of leader
/// into that epoch records the real next leader.
pub proof fn lemma_leader_change_overrides_provisional_leader(
    leaders: Map<u64, Address>,
    cluster_epoch: u64,
    transaction: RawEpochTransaction,
    own_address: Address,
    current_leader: Address,
    next_leader: Address,
)
    ensures
        ({
            let epoch = request_epoch(cluster_epoch, transaction);
            let after = leader_map_after_change(
                leaders_after_request(leaders, cluster_epoch, transaction, own_address),
                cluster_epoch,
                epoch,
                current_leader,
                next_leader,
            );
            after.contains_key(epoch) && after[epoch] == next_leader
        }),
{
}

} // verus!
