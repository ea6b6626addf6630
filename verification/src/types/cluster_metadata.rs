//! What a node knows of its cluster: the nodes, the current epoch, and which
//! node leads each epoch.

use std::collections::HashMap;

use vstd::prelude::*;

use crate::types::address::Address;
use crate::types::rollup::ClusterId;

verus! {

broadcast use vstd::std_specs::hash::group_hash_axioms;

/// Where a node of the cluster can be reached.
#[derive(Debug)]
pub struct TxOrdererRpcInfo {
    pub tx_orderer_address: Address,
    pub external_rpc_url: Option<String>,
    pub cluster_rpc_url: Option<String>,
}

/// A copy of an optional text.
fn copy_optional_text(text: &Option<String>) -> (copy: Option<String>)
    ensures
        copy == *text,
{
    match text {
        Some(t) => Some(t.clone()),
        None => None,
    }
}

impl TxOrdererRpcInfo {
    /// A copy of the record.
    pub fn duplicate(&self) -> (copy: Self)
        ensures
            copy == *self,
    {
        TxOrdererRpcInfo {
            tx_orderer_address: self.tx_orderer_address,
            external_rpc_url: copy_optional_text(&self.external_rpc_url),
            cluster_rpc_url: copy_optional_text(&self.cluster_rpc_url),
        }
    }
}

/// The nodes of a cluster, each with its index, as seen by the node
/// `tx_orderer_address`.
#[derive(Debug)]
pub struct Cluster {
    pub tx_orderer_address: Address,
    pub tx_orderer_rpc_infos: Vec<(usize, TxOrdererRpcInfo)>,
}

/// The record of the first node with the given address.
pub open spec fn rpc_info_of(infos: Seq<(usize, TxOrdererRpcInfo)>, address: Address) -> Option<TxOrdererRpcInfo>
    decreases infos.len(),
{
    if infos.len() == 0 {
        None
    } else if infos[0].1.tx_orderer_address@ == address@ {
        Some(infos[0].1)
    } else {
        rpc_info_of(infos.drop_first(), address)
    }
}

/// The index of the first node with the given address.
pub open spec fn node_index_of(infos: Seq<(usize, TxOrdererRpcInfo)>, address: Address) -> Option<usize>
    decreases infos.len(),
{
    if infos.len() == 0 {
        None
    } else if infos[0].1.tx_orderer_address@ == address@ {
        Some(infos[0].0)
    } else {
        node_index_of(infos.drop_first(), address)
    }
}

/// The first record with an address is found at the first position holding it.
proof fn lemma_first_record(infos: Seq<(usize, TxOrdererRpcInfo)>, address: Address, i: int)
    requires
        0 <= i < infos.len(),
        infos[i].1.tx_orderer_address@ == address@,
        forall|j: int| 0 <= j < i ==> infos[j].1.tx_orderer_address@ != address@,
    ensures
        rpc_info_of(infos, address) == Some(infos[i].1),
        node_index_of(infos, address) == Some(infos[i].0),
    decreases i,
{
    if i > 0 {
        assert forall|j: int| 0 <= j < i - 1 implies infos.drop_first()[j].1.tx_orderer_address@
            != address@ by {
            assert(infos.drop_first()[j] == infos[j + 1]);
        }
        lemma_first_record(infos.drop_first(), address, i - 1);
    }
}

/// No record is found for an address that no node has.
proof fn lemma_no_record(infos: Seq<(usize, TxOrdererRpcInfo)>, address: Address)
    requires
        forall|j: int| 0 <= j < infos.len() ==> infos[j].1.tx_orderer_address@ != address@,
    ensures
        rpc_info_of(infos, address) is None,
        node_index_of(infos, address) is None,
    decreases infos.len(),
{
    if infos.len() > 0 {
        assert forall|j: int| 0 <= j < infos.len() - 1 implies infos.drop_first()[j].1.tx_orderer_address@
            != address@ by {
            assert(infos.drop_first()[j] == infos[j + 1]);
        }
        lemma_no_record(infos.drop_first(), address);
    }
}

impl Cluster {
    fn position_of(&self, address: &Address) -> (position: Option<usize>)
        ensures
            match position {
                Some(i) => i < self.tx_orderer_rpc_infos@.len()
                    && self.tx_orderer_rpc_infos@[i as int].1.tx_orderer_address@ == address@
                    && forall|j: int|
                    0 <= j < i ==> self.tx_orderer_rpc_infos@[j].1.tx_orderer_address@ != address@,
                None => forall|j: int|
                    0 <= j < self.tx_orderer_rpc_infos@.len()
                        ==> self.tx_orderer_rpc_infos@[j].1.tx_orderer_address@ != address@,
            },
    {
        let mut i: usize = 0;
        while i < self.tx_orderer_rpc_infos.len()
            invariant
                0 <= i <= self.tx_orderer_rpc_infos@.len(),
                forall|j: int|
                    0 <= j < i ==> self.tx_orderer_rpc_infos@[j].1.tx_orderer_address@ != address@,
            decreases self.tx_orderer_rpc_infos.len() - i,
        {
            if self.tx_orderer_rpc_infos[i].1.tx_orderer_address.same_as(address) {
                return Some(i);
            }
            i = i + 1;
        }
        None
    }

    /// The index of the node with the given address, if it is in the cluster.
    pub fn find_node_index(&self, address: &Address) -> (index: Option<usize>)
        ensures
            index == node_index_of(self.tx_orderer_rpc_infos@, *address),
    {
        match self.position_of(address) {
            Some(i) => {
                proof {
                    lemma_first_record(self.tx_orderer_rpc_infos@, *address, i as int);
                }
                Some(self.tx_orderer_rpc_infos[i].0)
            },
            None => {
                proof {
                    lemma_no_record(self.tx_orderer_rpc_infos@, *address);
                }
                None
            },
        }
    }

    /// Where the node with the given address can be reached, if it is in the
    /// cluster.
    pub fn get_tx_orderer_rpc_info(&self, address: &Address) -> (info: Option<TxOrdererRpcInfo>)
        ensures
            info == rpc_info_of(self.tx_orderer_rpc_infos@, *address),
    {
        match self.position_of(address) {
            Some(i) => {
                proof {
                    lemma_first_record(self.tx_orderer_rpc_infos@, *address, i as int);
                }
                Some(self.tx_orderer_rpc_infos[i].1.duplicate())
            },
            None => {
                proof {
                    lemma_no_record(self.tx_orderer_rpc_infos@, *address);
                }
                None
            },
        }
    }

    /// The addresses of the nodes, in order.
    pub fn get_tx_orderer_address_list(&self) -> (addresses: Vec<Address>)
        ensures
            addresses@.len() == self.tx_orderer_rpc_infos@.len(),
            forall|i: int|
                0 <= i < addresses@.len() ==> addresses@[i] == self.tx_orderer_rpc_infos@[i].1.tx_orderer_address,
    {
        let mut addresses: Vec<Address> = Vec::new();
        let mut i: usize = 0;
        while i < self.tx_orderer_rpc_infos.len()
            invariant
                0 <= i <= self.tx_orderer_rpc_infos@.len(),
                addresses@.len() == i,
                forall|j: int|
                    0 <= j < i ==> addresses@[j] == self.tx_orderer_rpc_infos@[j].1.tx_orderer_address,
            decreases self.tx_orderer_rpc_infos.len() - i,
        {
            addresses.push(self.tx_orderer_rpc_infos[i].1.tx_orderer_address);
            i = i + 1;
        }
        addresses
    }

    /// The cluster RPC URLs of the other nodes (those whose address is not this
    /// node's and that have one), in order.
    pub fn get_other_cluster_rpc_url_list(&self) -> (urls: Vec<String>)
        ensures
            urls@ == other_cluster_rpc_urls(self.tx_orderer_rpc_infos@, self.tx_orderer_address),
            urls@ == self.tx_orderer_rpc_infos@.filter(
                |record: (usize, TxOrdererRpcInfo)|
                    is_other_reachable_node(record, self.tx_orderer_address),
            ).map_values(|record: (usize, TxOrdererRpcInfo)| record.1.cluster_rpc_url.unwrap()),
    {
        proof {
            lemma_other_cluster_rpc_urls_filter(self.tx_orderer_rpc_infos@, self.tx_orderer_address);
        }
        let mut urls: Vec<String> = Vec::new();
        let mut i: usize = 0;
        while i < self.tx_orderer_rpc_infos.len()
            invariant
                0 <= i <= self.tx_orderer_rpc_infos@.len(),
                urls@ == other_cluster_rpc_urls(
                    self.tx_orderer_rpc_infos@.take(i as int),
                    self.tx_orderer_address,
                ),
            decreases self.tx_orderer_rpc_infos.len() - i,
        {
            let info = &self.tx_orderer_rpc_infos[i].1;
            proof {
                assert(self.tx_orderer_rpc_infos@.take(i + 1).drop_last() =~= self.tx_orderer_rpc_infos@.take(
                    i as int,
                ));
            }
            if !info.tx_orderer_address.same_as(&self.tx_orderer_address) {
                match &info.cluster_rpc_url {
                    Some(url) => {
                        urls.push(url.clone());
                    },
                    None => {},
                }
            }
            i = i + 1;
        }
        proof {
            assert(self.tx_orderer_rpc_infos@.take(self.tx_orderer_rpc_infos@.len() as int)
                =~= self.tx_orderer_rpc_infos@);
        }
        urls
    }
}

/// The cluster RPC URLs of the records whose address is not `own`, in order.
pub open spec fn other_cluster_rpc_urls(infos: Seq<(usize, TxOrdererRpcInfo)>, own: Address) -> Seq<String>
    decreases infos.len(),
{
    if infos.len() == 0 {
        Seq::empty()
    } else {
        let last = infos.last().1;
        let rest = other_cluster_rpc_urls(infos.drop_last(), own);
        if last.tx_orderer_address@ != own@ && last.cluster_rpc_url is Some {
            rest.push(last.cluster_rpc_url.unwrap())
        } else {
            rest
        }
    }
}

/// Whether a record is another node's (not `own`) with a cluster RPC URL.
pub open spec fn is_other_reachable_node(record: (usize, TxOrdererRpcInfo), own: Address) -> bool {
    record.1.tx_orderer_address@ != own@ && record.1.cluster_rpc_url is Some
}

/// Other nodes' URLs, as the filter of the records that are other reachable
/// nodes.
proof fn lemma_other_cluster_rpc_urls_filter(infos: Seq<(usize, TxOrdererRpcInfo)>, own: Address)
    ensures
        other_cluster_rpc_urls(infos, own) == infos.filter(
            |record: (usize, TxOrdererRpcInfo)| is_other_reachable_node(record, own),
        ).map_values(|record: (usize, TxOrdererRpcInfo)| record.1.cluster_rpc_url.unwrap()),
    decreases infos.len(),
{
    let pred = |record: (usize, TxOrdererRpcInfo)| is_other_reachable_node(record, own);
    let url = |record: (usize, TxOrdererRpcInfo)| record.1.cluster_rpc_url.unwrap();
    reveal(Seq::filter);
    if infos.len() > 0 {
        let rest = infos.drop_last();
        lemma_other_cluster_rpc_urls_filter(rest, own);
        let last = infos.last();
        if pred(last) {
            assert(rest.filter(pred).push(last).map_values(url) =~= rest.filter(pred).map_values(
                url,
            ).push(url(last)));
        }
    } else {
        assert(infos.filter(pred).map_values(url) =~= Seq::<String>::empty());
    }
}

/// Each of the other nodes' URLs is that of a record of another node.
proof fn lemma_other_cluster_rpc_urls_sound(infos: Seq<(usize, TxOrdererRpcInfo)>, own: Address, k: int)
    requires
        0 <= k < other_cluster_rpc_urls(infos, own).len(),
    ensures
        exists|i: int|
            #![trigger infos[i]]
            0 <= i < infos.len() && infos[i].1.tx_orderer_address@ != own@
                && infos[i].1.cluster_rpc_url == Some(other_cluster_rpc_urls(infos, own)[k]),
    decreases infos.len(),
{
    let rest = infos.drop_last();
    let last = infos.last();
    let rr = other_cluster_rpc_urls(rest, own);
    if k < rr.len() {
        lemma_other_cluster_rpc_urls_sound(rest, own, k);
        let i = choose|i: int|
            #![trigger rest[i]]
            0 <= i < rest.len() && rest[i].1.tx_orderer_address@ != own@
                && rest[i].1.cluster_rpc_url == Some(rr[k]);
        assert(infos[i] == rest[i]);
    } else {
        assert(infos[infos.len() - 1] == last);
    }
}

/// Every other node's URL is among the other nodes' URLs.
proof fn lemma_other_cluster_rpc_urls_complete(infos: Seq<(usize, TxOrdererRpcInfo)>, own: Address, i: int)
    requires
        0 <= i < infos.len(),
        infos[i].1.tx_orderer_address@ != own@,
        infos[i].1.cluster_rpc_url is Some,
    ensures
        other_cluster_rpc_urls(infos, own).contains(infos[i].1.cluster_rpc_url.unwrap()),
    decreases infos.len(),
{
    let rest = infos.drop_last();
    let r = other_cluster_rpc_urls(infos, own);
    let rr = other_cluster_rpc_urls(rest, own);
    if i < rest.len() {
        assert(infos[i] == rest[i]);
        lemma_other_cluster_rpc_urls_complete(rest, own, i);
        let k = choose|k: int| 0 <= k < rr.len() && rr[k] == rest[i].1.cluster_rpc_url.unwrap();
        assert(r[k] == rr[k]);
    } else {
        assert(r[r.len() - 1] == infos[i].1.cluster_rpc_url.unwrap());
    }
}

/// The cluster RPC URLs of the other nodes are those of the records, in order,
/// whose address is not the node's own and that have a URL: the node's own URL
/// is never among them, and every other node that has one is.
pub proof fn lemma_other_cluster_rpc_urls_are_the_other_nodes(
    infos: Seq<(usize, TxOrdererRpcInfo)>,
    own: Address,
)
    ensures
        other_cluster_rpc_urls(infos, own) == infos.filter(
            |record: (usize, TxOrdererRpcInfo)| is_other_reachable_node(record, own),
        ).map_values(|record: (usize, TxOrdererRpcInfo)| record.1.cluster_rpc_url.unwrap()),
        forall|k: int|
            #![trigger other_cluster_rpc_urls(infos, own)[k]]
            0 <= k < other_cluster_rpc_urls(infos, own).len() ==> exists|i: int|
                #![trigger infos[i]]
                0 <= i < infos.len() && infos[i].1.tx_orderer_address@ != own@
                    && infos[i].1.cluster_rpc_url == Some(other_cluster_rpc_urls(infos, own)[k]),
        forall|i: int|
            0 <= i < infos.len() && (#[trigger] infos[i]).1.tx_orderer_address@ != own@
                && infos[i].1.cluster_rpc_url is Some ==> other_cluster_rpc_urls(
                infos,
                own,
            ).contains(infos[i].1.cluster_rpc_url.unwrap()),
{
    lemma_other_cluster_rpc_urls_filter(infos, own);
    assert forall|k: int| 0 <= k < other_cluster_rpc_urls(infos, own).len() implies exists|i: int|
        #![trigger infos[i]]
        0 <= i < infos.len() && infos[i].1.tx_orderer_address@ != own@
            && infos[i].1.cluster_rpc_url == Some(#[trigger] other_cluster_rpc_urls(infos, own)[k]) by {
        lemma_other_cluster_rpc_urls_sound(infos, own, k);
    }
    assert forall|i: int|
        0 <= i < infos.len() && (#[trigger] infos[i]).1.tx_orderer_address@ != own@
            && infos[i].1.cluster_rpc_url is Some implies other_cluster_rpc_urls(infos, own).contains(
        infos[i].1.cluster_rpc_url.unwrap(),
    ) by {
        lemma_other_cluster_rpc_urls_complete(infos, own, i);
    }
}

/// The state of a cluster as one node sees it.
#[derive(Debug)]
pub struct ClusterMetadata {
    pub cluster_id: ClusterId,
    pub platform_block_height: u64,
    pub is_leader: bool,
    pub can_process_as_leader: bool,
    pub leader_tx_orderer_rpc_info: Option<TxOrdererRpcInfo>,
    pub epoch: u64,
    /// The leader of each epoch.
    pub epoch_leader_map: HashMap<u64, Address>,
    /// How many transactions this node forwarded to the leader in each epoch.
    pub epoch_sent_transaction_count: HashMap<u64, u64>,
    /// Which nodes have signalled the end of each epoch, indexed by node.
    pub end_signal_bitmap: HashMap<u64, Vec<bool>>,
}

/// The end-of-epoch signals recorded for `epoch`, none when it has no entry.
pub open spec fn signals_of(bitmap: Map<u64, Vec<bool>>, epoch: u64) -> Seq<bool> {
    if bitmap.contains_key(epoch) {
        bitmap[epoch]@
    } else {
        Seq::empty()
    }
}

/// Whether node `node_index` signalled the end of `epoch`.
pub open spec fn has_signalled(bitmap: Map<u64, Vec<bool>>, epoch: u64, node_index: int) -> bool {
    0 <= node_index < signals_of(bitmap, epoch).len() && signals_of(bitmap, epoch)[node_index]
}

/// The leader map after a change of leader: the leader of the old epoch is
/// recorded unless one already is, and the new epoch is led by the next leader.
pub open spec fn leader_map_after_change(
    map: Map<u64, Address>,
    old_epoch: u64,
    new_epoch: u64,
    current_leader: Address,
    next_leader: Address,
) -> Map<u64, Address> {
    let with_old = if map.contains_key(old_epoch) {
        map
    } else {
        map.insert(old_epoch, current_leader)
    };
    with_old.insert(new_epoch, next_leader)
}

impl ClusterMetadata {
    /// A cluster at epoch zero, seen at the given block height, with no leader
    /// known yet.
    pub fn new(cluster_id: ClusterId, platform_block_height: u64) -> (metadata: Self)
        ensures
            metadata.cluster_id == cluster_id,
            metadata.platform_block_height == platform_block_height,
            !metadata.is_leader,
            !metadata.can_process_as_leader,
            metadata.leader_tx_orderer_rpc_info is None,
            metadata.epoch == 0,
            metadata.epoch_leader_map@ == Map::<u64, Address>::empty(),
            metadata.epoch_sent_transaction_count@ == Map::<u64, u64>::empty(),
            metadata.end_signal_bitmap@ == Map::<u64, Vec<bool>>::empty(),
    {
        ClusterMetadata {
            cluster_id,
            platform_block_height,
            is_leader: false,
            can_process_as_leader: false,
            leader_tx_orderer_rpc_info: None,
            epoch: 0,
            epoch_leader_map: HashMap::new(),
            epoch_sent_transaction_count: HashMap::new(),
            end_signal_bitmap: HashMap::new(),
        }
    }

    /// The number of transactions forwarded in `epoch`, zero when none was.
    pub open spec fn sent_count(&self, epoch: u64) -> int {
        if self.epoch_sent_transaction_count@.contains_key(epoch) {
            self.epoch_sent_transaction_count@[epoch] as int
        } else {
            0
        }
    }

    /// Counts one more transaction forwarded in `epoch`.
    pub fn increment_sent_transaction_count(&mut self, epoch: u64)
        requires
            old(self).sent_count(epoch) < u64::MAX,
        ensures
            final(self).epoch_sent_transaction_count@ == old(
                self,
            ).epoch_sent_transaction_count@.insert(epoch, (old(self).sent_count(epoch) + 1) as u64),
            final(self).cluster_id == old(self).cluster_id,
            final(self).platform_block_height == old(self).platform_block_height,
            final(self).is_leader == old(self).is_leader,
            final(self).can_process_as_leader == old(self).can_process_as_leader,
            final(self).leader_tx_orderer_rpc_info == old(self).leader_tx_orderer_rpc_info,
            final(self).epoch == old(self).epoch,
            final(self).epoch_leader_map@ == old(self).epoch_leader_map@,
            final(self).end_signal_bitmap@ == old(self).end_signal_bitmap@,
    {
        let count = match self.epoch_sent_transaction_count.get(&epoch) {
            Some(count) => *count,
            None => 0,
        };
        self.epoch_sent_transaction_count.insert(epoch, count + 1);
    }

    /// Records that node `node_index` signalled the end of `epoch`.
    pub fn set_node_bit(&mut self, epoch: u64, node_index: usize)
        requires
            node_index < usize::MAX,
        ensures
            forall|e: u64, i: int|
                0 <= i ==> #[trigger] has_signalled(final(self).end_signal_bitmap@, e, i) == ((e
                    == epoch && i == node_index) || has_signalled(old(self).end_signal_bitmap@, e, i)),
            final(self).end_signal_bitmap@.dom() == old(self).end_signal_bitmap@.dom().insert(epoch),
            final(self).cluster_id == old(self).cluster_id,
            final(self).platform_block_height == old(self).platform_block_height,
            final(self).is_leader == old(self).is_leader,
            final(self).can_process_as_leader == old(self).can_process_as_leader,
            final(self).leader_tx_orderer_rpc_info == old(self).leader_tx_orderer_rpc_info,
            final(self).epoch == old(self).epoch,
            final(self).epoch_leader_map@ == old(self).epoch_leader_map@,
            final(self).epoch_sent_transaction_count@ == old(self).epoch_sent_transaction_count@,
    {
        let mut bits: Vec<bool> = match self.end_signal_bitmap.get(&epoch) {
            Some(bits) => bits.clone(),
            None => Vec::new(),
        };
        let ghost start = signals_of(old(self).end_signal_bitmap@, epoch);
        assert(bits@ == start);
        while bits.len() <= node_index
            invariant
                node_index < usize::MAX,
                start.len() <= bits@.len(),
                bits@.len() <= (if start.len() > node_index {
                    start.len() as int
                } else {
                    node_index + 1
                }),
                bits@.subrange(0, start.len() as int) == start,
                forall|i: int| start.len() <= i < bits@.len() ==> !bits@[i],
            decreases node_index + 1 - bits.len(),
        {
            bits.push(false);
        }
        let ghost grown = bits@;
        bits.set(node_index, true);
        let ghost updated = bits@;
        self.end_signal_bitmap.insert(epoch, bits);
        assert forall|e: u64, i: int|
            0 <= i implies #[trigger] has_signalled(self.end_signal_bitmap@, e, i) == ((e == epoch && i
                == node_index) || has_signalled(old(self).end_signal_bitmap@, e, i)) by {
            if e == epoch {
                assert(signals_of(self.end_signal_bitmap@, e) == updated);
                if i < start.len() {
                    assert(grown.subrange(0, start.len() as int)[i] == start[i]);
                }
            }
        }
    }

    /// Whether every node of a cluster of `total_nodes` nodes (numbered from
    /// zero) signalled the end of `epoch`.
    pub fn all_nodes_sent_signal(&self, epoch: u64, total_nodes: usize) -> (all: bool)
        ensures
            all == forall|i: int| 0 <= i < total_nodes ==> #[trigger] has_signalled(
                self.end_signal_bitmap@,
                epoch,
                i,
            ),
    {
        match self.end_signal_bitmap.get(&epoch) {
            Some(bits) => {
                if bits.len() < total_nodes {
                    proof {
                        assert(!has_signalled(self.end_signal_bitmap@, epoch, bits@.len() as int));
                    }
                    return false;
                }
                let mut i: usize = 0;
                while i < total_nodes
                    invariant
                        i <= total_nodes <= bits@.len(),
                        bits@ == signals_of(self.end_signal_bitmap@, epoch),
                        forall|j: int| 0 <= j < i ==> #[trigger] has_signalled(self.end_signal_bitmap@, epoch, j),
                    decreases total_nodes - i,
                {
                    if !bits[i] {
                        proof {
                            assert(!has_signalled(self.end_signal_bitmap@, epoch, i as int));
                        }
                        return false;
                    }
                    i = i + 1;
                }
                true
            },
            None => {
                proof {
                    if total_nodes > 0 {
                        assert(!has_signalled(self.end_signal_bitmap@, epoch, 0));
                    }
                }
                total_nodes == 0
            },
        }
    }

    /// The leader of `epoch`, if one is recorded.
    pub fn epoch_leader(&self, epoch: u64) -> (leader: Option<Address>)
        ensures
            leader == self.epoch_leader_map@.get(epoch),
    {
        match self.epoch_leader_map.get(&epoch) {
            Some(address) => Some(*address),
            None => None,
        }
    }

    /// Whether `address` is the recorded leader of `epoch`.
    pub fn is_epoch_leader(&self, epoch: u64, address: &Address) -> (is_leader: bool)
        ensures
            is_leader == (self.epoch_leader_map@.contains_key(epoch)
                && self.epoch_leader_map@[epoch]@ == address@),
    {
        match self.epoch_leader_map.get(&epoch) {
            Some(leader) => leader.same_as(address),
            None => false,
        }
    }

    /// Applies a change of leader from `old_epoch` to `new_epoch`: records the
    /// block height, whether this node leads, and where the leader is; records the
    /// current leader for the old epoch unless one is recorded; moves to the new
    /// epoch, led by the next leader. Tells whether another leader had been
    /// recorded for the new epoch before.
    pub fn apply_leader_change(
        &mut self,
        platform_block_height: u64,
        is_leader: bool,
        leader_tx_orderer_rpc_info: TxOrdererRpcInfo,
        old_epoch: u64,
        new_epoch: u64,
        current_leader: Address,
        next_leader: Address,
    ) -> (mismatch: bool)
        ensures
            final(self).platform_block_height == platform_block_height,
            final(self).is_leader == is_leader,
            final(self).leader_tx_orderer_rpc_info == Some(leader_tx_orderer_rpc_info),
            final(self).epoch == new_epoch,
            final(self).epoch_leader_map@ == leader_map_after_change(
                old(self).epoch_leader_map@,
                old_epoch,
                new_epoch,
                current_leader,
                next_leader,
            ),
            mismatch == ({
                let with_old = if old(self).epoch_leader_map@.contains_key(old_epoch) {
                    old(self).epoch_leader_map@
                } else {
                    old(self).epoch_leader_map@.insert(old_epoch, current_leader)
                };
                with_old.contains_key(new_epoch) && with_old[new_epoch]@ != next_leader@
            }),
            final(self).cluster_id == old(self).cluster_id,
            final(self).can_process_as_leader == old(self).can_process_as_leader,
            final(self).epoch_sent_transaction_count@ == old(self).epoch_sent_transaction_count@,
            final(self).end_signal_bitmap@ == old(self).end_signal_bitmap@,
    {
        self.platform_block_height = platform_block_height;
        self.is_leader = is_leader;
        self.leader_tx_orderer_rpc_info = Some(leader_tx_orderer_rpc_info);
        if !self.epoch_leader_map.contains_key(&old_epoch) {
            self.epoch_leader_map.insert(old_epoch, current_leader);
        }
        self.epoch = new_epoch;
        let mismatch = match self.epoch_leader_map.get(&new_epoch) {
            Some(provisional_leader) => !provisional_leader.same_as(&next_leader),
            None => false,
        };
        self.epoch_leader_map.insert(new_epoch, next_leader);
        mismatch
    }

    /// A change of leader that moves from the current epoch to the next one; see
    /// `apply_leader_change`. Returns the old and the new epoch and whether
    /// another leader had been recorded for the new epoch.
    pub fn rotate_epoch_leader(
        &mut self,
        platform_block_height: u64,
        is_leader: bool,
        leader_tx_orderer_rpc_info: TxOrdererRpcInfo,
        current_leader: Address,
        next_leader: Address,
    ) -> (rotated: (u64, u64, bool))
        requires
            old(self).epoch < u64::MAX,
        ensures
            rotated.0 == old(self).epoch,
            rotated.1 == old(self).epoch + 1,
            final(self).platform_block_height == platform_block_height,
            final(self).is_leader == is_leader,
            final(self).leader_tx_orderer_rpc_info == Some(leader_tx_orderer_rpc_info),
            final(self).epoch == old(self).epoch + 1,
            final(self).epoch_leader_map@ == leader_map_after_change(
                old(self).epoch_leader_map@,
                rotated.0,
                rotated.1,
                current_leader,
                next_leader,
            ),
            rotated.2 == ({
                let with_old = if old(self).epoch_leader_map@.contains_key(rotated.0) {
                    old(self).epoch_leader_map@
                } else {
                    old(self).epoch_leader_map@.insert(rotated.0, current_leader)
                };
                with_old.contains_key(rotated.1) && with_old[rotated.1]@ != next_leader@
            }),
            final(self).cluster_id == old(self).cluster_id,
            final(self).can_process_as_leader == old(self).can_process_as_leader,
            final(self).epoch_sent_transaction_count@ == old(self).epoch_sent_transaction_count@,
            final(self).end_signal_bitmap@ == old(self).end_signal_bitmap@,
    {
        let old_epoch = self.epoch;
        let new_epoch = old_epoch + 1;
        let mismatch = self.apply_leader_change(
            platform_block_height,
            is_leader,
            leader_tx_orderer_rpc_info,
            old_epoch,
            new_epoch,
            current_leader,
            next_leader,
        );
        (old_epoch, new_epoch, mismatch)
    }
}

/// After a change of leader, the new epoch is led by the next leader whatever
/// was recorded for it before; the old epoch keeps the leader recorded for it,
/// or gets the current leader when none was; every other epoch keeps its
/// leader.
pub proof fn lemma_leader_change_outcome(
    leaders: Map<u64, Address>,
    old_epoch: u64,
    new_epoch: u64,
    current_leader: Address,
    next_leader: Address,
    other_epoch: u64,
)
    ensures
        ({
            let after = leader_map_after_change(
                leaders,
                old_epoch,
                new_epoch,
                current_leader,
                next_leader,
            );
            &&& after.contains_key(new_epoch) && after[new_epoch] == next_leader
            &&& old_epoch != new_epoch ==> after.contains_key(old_epoch) && after[old_epoch] == (
            if leaders.contains_key(old_epoch) {
                leaders[old_epoch]
            } else {
                current_leader
            })
            &&& other_epoch != old_epoch && other_epoch != new_epoch ==> after.get(other_epoch)
                == leaders.get(other_epoch)
        }),
{
}

/// End signals only accumulate: once every node of a cluster has signalled the
/// end of an epoch, recording another signal keeps it so.
pub proof fn lemma_completion_is_kept(
    before: Map<u64, Vec<bool>>,
    after: Map<u64, Vec<bool>>,
    signalled_epoch: u64,
    node_index: int,
    epoch: u64,
    total_nodes: int,
)
    requires
        forall|e: u64, i: int|
            0 <= i ==> #[trigger] has_signalled(after, e, i) == ((e == signalled_epoch && i
                == node_index) || has_signalled(before, e, i)),
    ensures
        (forall|i: int| 0 <= i < total_nodes ==> #[trigger] has_signalled(before, epoch, i)) ==> (
        forall|i: int| 0 <= i < total_nodes ==> #[trigger] has_signalled(after, epoch, i)),
{
    if forall|i: int| 0 <= i < total_nodes ==> #[trigger] has_signalled(before, epoch, i) {
        assert forall|i: int| 0 <= i < total_nodes implies #[trigger] has_signalled(
            after,
            epoch,
            i,
        ) by {
            assert(has_signalled(before, epoch, i));
        }
    }
}

} // verus!
