//! A client's encrypted transaction: the leader places it at the next
//! position of the current batch; another node forwards it to the leader.

use vstd::prelude::*;

use crate::error::Error;
use crate::types::cluster_metadata::ClusterMetadata;
use crate::types::encrypted_transaction::EncryptedTransaction;
use crate::types::rollup_metadata::RollupMetadata;
use crate::types::rollup::{EncryptedTransactionType, Rollup, RollupId};

verus! {

/// An encrypted transaction for a rollup.
#[derive(Clone, Debug)]
pub struct SendEncryptedTransaction {
    pub rollup_id: RollupId,
    pub encrypted_transaction: EncryptedTransaction,
}

/// Whether a rollup accepts an encrypted transaction: one with a PVDE mempool
/// accepts both kinds, one with an SKDE mempool only SKDE transactions, one
/// without an encrypted mempool none.
pub open spec fn encrypted_transaction_supported(
    mempool: EncryptedTransactionType,
    encrypted_transaction: EncryptedTransaction,
) -> bool {
    match mempool {
        EncryptedTransactionType::Pvde => true,
        EncryptedTransactionType::Skde => encrypted_transaction is Skde,
        EncryptedTransactionType::NotSupport => false,
    }
}

/// Which encrypted transactions a rollup accepts: one without an encrypted
/// mempool accepts none, of either kind; one with a PVDE mempool accepts both
/// kinds; one with an SKDE mempool only SKDE transactions. So a transaction is
/// accepted only by a rollup that has an encrypted mempool, and a PVDE
/// transaction only by a PVDE mempool.
pub proof fn lemma_encrypted_mempool_acceptance(
    mempool: EncryptedTransactionType,
    encrypted_transaction: EncryptedTransaction,
)
    ensures
        mempool is NotSupport ==> !encrypted_transaction_supported(mempool, encrypted_transaction),
        mempool is Pvde ==> encrypted_transaction_supported(mempool, encrypted_transaction),
        mempool is Skde ==> (encrypted_transaction_supported(mempool, encrypted_transaction)
            <==> encrypted_transaction is Skde),
        encrypted_transaction_supported(mempool, encrypted_transaction) ==> !(mempool is NotSupport),
        encrypted_transaction is Pvde && encrypted_transaction_supported(
            mempool,
            encrypted_transaction,
        ) ==> mempool is Pvde,
{
}

/// `UnsupportedEncryptedMempool` when the rollup does not accept the
/// transaction.
pub fn check_supported_encrypted_transaction(
    rollup: &Rollup,
    encrypted_transaction: &EncryptedTransaction,
) -> (checked: Result<(), Error>)
    ensures
        checked is Ok <==> encrypted_transaction_supported(
            rollup.encrypted_transaction_type,
            *encrypted_transaction,
        ),
        checked matches Err(e) ==> e == Error::UnsupportedEncryptedMempool,
        rollup.encrypted_transaction_type is NotSupport ==> checked is Err,
        rollup.encrypted_transaction_type is Pvde ==> checked is Ok,
        rollup.encrypted_transaction_type is Skde ==> (checked is Ok <==> encrypted_transaction is Skde),
{
    match rollup.encrypted_transaction_type {
        EncryptedTransactionType::Pvde => Ok(()),
        EncryptedTransactionType::Skde => match encrypted_transaction {
            EncryptedTransaction::Skde(_) => Ok(()),
            EncryptedTransaction::Pvde(_) => Err(Error::UnsupportedEncryptedMempool),
        },
        EncryptedTransactionType::NotSupport => Err(Error::UnsupportedEncryptedMempool),
    }
}

/// The external RPC URL of the cluster's current leader, to forward an
/// encrypted transaction to: `EmptyLeader` when no leader is known,
/// `EmptyLeaderClusterRpcUrl` when it has no external URL.
pub fn leader_external_rpc_url(cluster_metadata: &ClusterMetadata) -> (url: Result<String, Error>)
    ensures
        match cluster_metadata.leader_tx_orderer_rpc_info {
            Some(info) => match info.external_rpc_url {
                Some(expected) => url matches Ok(u) && u@ == expected@,
                None => url matches Err(Error::EmptyLeaderClusterRpcUrl),
            },
            None => url matches Err(Error::EmptyLeader),
        },
{
    match &cluster_metadata.leader_tx_orderer_rpc_info {
        Some(info) => match &info.external_rpc_url {
            Some(url) => Ok(url.clone()),
            None => Err(Error::EmptyLeaderClusterRpcUrl),
        },
        None => Err(Error::EmptyLeader),
    }
}

/// Where an encrypted transaction goes.
#[derive(Clone, Debug)]
pub enum EncryptedTransactionRoute {
    /// This node leads: the transaction takes this position; `batch_completed`
    /// tells whether it filled its batch.
    Leader { batch_number: u64, transaction_order: u64, batch_completed: bool },
    /// Another node leads: the transaction goes to its external RPC URL.
    Forward { leader_external_rpc_url: String },
}

/// The rollup's batch bookkeeping after a position was handed out: the next
/// order, or the next batch at order zero when the batch became full.
pub open spec fn after_issued_position(before: RollupMetadata, after: RollupMetadata) -> bool {
    if before.transaction_order + 1 == before.max_transaction_count_per_batch {
        after == (RollupMetadata {
            batch_number: (before.batch_number + 1) as u64,
            transaction_order: 0,
            ..before
        })
    } else {
        after == (RollupMetadata { transaction_order: (before.transaction_order + 1) as u64, ..before })
    }
}

/// Decides where a client's encrypted transaction goes.
/// `UnsupportedEncryptedMempool`, with nothing changed, when the rollup does
/// not accept it. When this node leads, the transaction takes the rollup's
/// current position, which moves on one order (or to the next batch when the
/// current one is full). Otherwise nothing changes and the transaction goes to
/// the current leader's external RPC URL (`EmptyLeader` when no leader is known,
/// `EmptyLeaderClusterRpcUrl` when it has no external URL).
pub fn route_encrypted_transaction(
    rollup: &Rollup,
    cluster_metadata: &ClusterMetadata,
    rollup_metadata: &mut RollupMetadata,
    encrypted_transaction: &EncryptedTransaction,
) -> (route: Result<EncryptedTransactionRoute, Error>)
    requires
        encrypted_transaction_supported(rollup.encrypted_transaction_type, *encrypted_transaction)
            && cluster_metadata.is_leader ==> {
            &&& old(rollup_metadata).transaction_order < u64::MAX
            &&& old(rollup_metadata).transaction_order + 1 == old(
                rollup_metadata,
            ).max_transaction_count_per_batch ==> old(rollup_metadata).batch_number < u64::MAX
        },
    ensures
        !encrypted_transaction_supported(rollup.encrypted_transaction_type, *encrypted_transaction)
            ==> (route matches Err(Error::UnsupportedEncryptedMempool) && *final(rollup_metadata)
            == *old(rollup_metadata)),
        rollup.encrypted_transaction_type is NotSupport ==> (route matches Err(
            Error::UnsupportedEncryptedMempool,
        ) && *final(rollup_metadata) == *old(rollup_metadata)),
        encrypted_transaction_supported(rollup.encrypted_transaction_type, *encrypted_transaction)
            && cluster_metadata.is_leader ==> {
            &&& route matches Ok(
                EncryptedTransactionRoute::Leader { batch_number, transaction_order, batch_completed },
            )
            &&& batch_number == old(rollup_metadata).batch_number
            &&& transaction_order == old(rollup_metadata).transaction_order
            &&& batch_completed == (old(rollup_metadata).transaction_order + 1 == old(
                rollup_metadata,
            ).max_transaction_count_per_batch)
            &&& after_issued_position(*old(rollup_metadata), *final(rollup_metadata))
        },
        encrypted_transaction_supported(rollup.encrypted_transaction_type, *encrypted_transaction)
            && !cluster_metadata.is_leader ==> {
            &&& *final(rollup_metadata) == *old(rollup_metadata)
            &&& match cluster_metadata.leader_tx_orderer_rpc_info {
                Some(info) => match info.external_rpc_url {
                    Some(expected) => (route matches Ok(
                        EncryptedTransactionRoute::Forward { leader_external_rpc_url },
                    ) && leader_external_rpc_url@ == expected@),
                    None => route matches Err(Error::EmptyLeaderClusterRpcUrl),
                },
                None => route matches Err(Error::EmptyLeader),
            }
        },
{
    match check_supported_encrypted_transaction(rollup, encrypted_transaction) {
        Err(error) => Err(error),
        Ok(()) => {
            if cluster_metadata.is_leader {
                let (batch_number, transaction_order, batch_completed) =
                    rollup_metadata.issue_transaction_position();
                Ok(EncryptedTransactionRoute::Leader { batch_number, transaction_order, batch_completed })
            } else {
                match leader_external_rpc_url(cluster_metadata) {
                    Ok(url) => Ok(EncryptedTransactionRoute::Forward { leader_external_rpc_url: url }),
                    Err(error) => Err(error),
                }
            }
        },
    }
}

} // verus!
