//! The leader passes each sequenced transaction, with its order commitment, to
//! the other nodes; they accept it only when a node of the cluster signed the
//! commitment.

use vstd::prelude::*;

use crate::error::Error;
use crate::types::address::Address;
use crate::types::cluster_metadata::Cluster;
use crate::types::order_commitment::{OrderCommitment, SingleOrderCommitment};
use crate::types::raw_transaction::RawTransaction;
use crate::types::rollup::RollupId;

verus! {

/// A transaction the leader sequenced at `(epoch, transaction_order)`, with
/// its order commitment; `is_direct_sent` tells whether a client sent it to
/// the leader itself.
#[derive(Clone, Debug)]
pub struct SyncEpochRawTransaction {
    pub rollup_id: RollupId,
    pub epoch: u64,
    pub transaction_order: u64,
    pub raw_transaction: RawTransaction,
    pub order_commitment: OrderCommitment,
    pub is_direct_sent: bool,
}

/// Whether some address of the list is `address`.
fn contains_address(addresses: &Vec<Address>, address: &Address) -> (found: bool)
    ensures
        found == exists|i: int| 0 <= i < addresses@.len() && addresses@[i]@ == address@,
{
    let mut i: usize = 0;
    while i < addresses.len()
        invariant
            i <= addresses@.len(),
            forall|j: int| 0 <= j < i ==> addresses@[j]@ != address@,
        decreases addresses.len() - i,
    {
        if addresses[i].same_as(address) {
            return true;
        }
        i = i + 1;
    }
    false
}

/// Whether an order commitment can be accepted: a hash commitment always; a
/// signed one when the address recovered from its signature is that of a node
/// of the cluster.
pub open spec fn order_commitment_accepted(
    order_commitment: OrderCommitment,
    signer_address: Option<Address>,
    cluster: Cluster,
) -> bool {
    match order_commitment {
        OrderCommitment::Single(SingleOrderCommitment::TransactionHash(_)) => true,
        OrderCommitment::Single(SingleOrderCommitment::Sign(_)) => match signer_address {
            Some(signer) => exists|i: int|
                0 <= i < cluster.tx_orderer_rpc_infos@.len()
                    && cluster.tx_orderer_rpc_infos@[i].1.tx_orderer_address@ == signer@,
            None => false,
        },
        OrderCommitment::Bundle(_) => false,
    }
}

/// Checks the order commitment of a synchronized transaction; a signed one is
/// checked against `signer_address`, the address recovered from its signature.
/// `InvalidOrderCommitment` when it cannot be accepted.
pub fn check_order_commitment(
    order_commitment: &OrderCommitment,
    signer_address: &Option<Address>,
    cluster: &Cluster,
) -> (checked: Result<(), Error>)
    requires
        order_commitment is Single,
    ensures
        checked is Ok <==> order_commitment_accepted(*order_commitment, *signer_address, *cluster),
        checked matches Err(e) ==> e == Error::InvalidOrderCommitment,
{
    let valid = match order_commitment {
        OrderCommitment::Single(SingleOrderCommitment::Sign(_)) => match signer_address {
            Some(signer) => {
                let addresses = cluster.get_tx_orderer_address_list();
                let found = contains_address(&addresses, signer);
                proof {
                    if found {
                        let i = choose|i: int| 0 <= i < addresses@.len() && addresses@[i]@ == signer@;
                        assert(cluster.tx_orderer_rpc_infos@[i].1.tx_orderer_address@ == signer@);
                    } else {
                        assert forall|i: int| 0 <= i < cluster.tx_orderer_rpc_infos@.len() implies
                            cluster.tx_orderer_rpc_infos@[i].1.tx_orderer_address@ != signer@ by {
                            assert(addresses@[i] == cluster.tx_orderer_rpc_infos@[i].1.tx_orderer_address);
                        }
                    }
                }
                found
            },
            None => false,
        },
        OrderCommitment::Single(SingleOrderCommitment::TransactionHash(_)) => true,
        OrderCommitment::Bundle(_) => false,
    };
    if valid {
        Ok(())
    } else {
        Err(Error::InvalidOrderCommitment)
    }
}

} // verus!
