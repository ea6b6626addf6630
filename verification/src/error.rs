//! Errors the sequencer's logic reports.

use vstd::prelude::*;

verus! {

#[derive(Clone, Copy, Debug, PartialEq, Eq, Structural)]
pub enum Error {
    /// A raw transaction does not decode as an Ethereum transaction.
    InvalidTransaction,
    /// The rollup does not accept this kind of encrypted transaction.
    UnsupportedEncryptedMempool,
    /// No leader is registered for the epoch of a transaction.
    NoEpochLeader,
    /// The sender of a forwarded transaction is not a node of the cluster.
    SenderNotInCluster,
    /// The node is not the leader of the epoch it was asked about.
    NotEpochLeader,
    /// No cluster RPC URL is left to synchronize with.
    NoClusterRpcUrl,
    /// Neither the epoch's leader nor the cluster's current leader can be
    /// reached.
    EmptyLeader,
    /// The leader to forward to has no external RPC URL.
    EmptyLeaderClusterRpcUrl,
    /// An order commitment is not signed by a node of the cluster.
    InvalidOrderCommitment,
    /// A node the request names is not in the cluster.
    TxOrdererInfoNotFound,
    /// This node has no cluster RPC URL.
    ClusterRpcUrlNotFound,
    /// No leader is recorded for the epoch that ended.
    EpochLeaderAddressNotFound,
    /// The leader of the epoch that ended has no cluster RPC URL.
    EpochLeaderClusterRpcUrlNotFound,
}

/// The text that describes an error to a client.
pub open spec fn error_text(error: Error) -> Seq<char> {
    match error {
        Error::InvalidTransaction => "Invalid transaction"@,
        Error::UnsupportedEncryptedMempool => "Unsupported encrypted mempool"@,
        Error::NoEpochLeader => "No leader registered for this transaction epoch in cluster metadata"@,
        Error::SenderNotInCluster => "Sender address not found in cluster"@,
        Error::NotEpochLeader => "Not a leader node"@,
        Error::NoClusterRpcUrl => "No cluster RPC URLs available for synchronization"@,
        Error::EmptyLeader => "Empty leader"@,
        Error::EmptyLeaderClusterRpcUrl => "Empty leader cluster RPC URL"@,
        Error::InvalidOrderCommitment => "Invalid order commitment"@,
        Error::TxOrdererInfoNotFound => "Tx orderer info not found"@,
        Error::ClusterRpcUrlNotFound => "Cluster RPC URL not found"@,
        Error::EpochLeaderAddressNotFound => "epoch_leader_address not found"@,
        Error::EpochLeaderClusterRpcUrlNotFound => "epoch leader cluster_rpc_url not found"@,
    }
}

impl Error {
    /// The text that describes the error to a client.
    pub fn message(&self) -> (text: String)
        ensures
            text@ == error_text(*self),
    {
        match self {
            Error::InvalidTransaction => String::from_str("Invalid transaction"),
            Error::UnsupportedEncryptedMempool => String::from_str("Unsupported encrypted mempool"),
            Error::NoEpochLeader => String::from_str(
                "No leader registered for this transaction epoch in cluster metadata",
            ),
            Error::SenderNotInCluster => String::from_str("Sender address not found in cluster"),
            Error::NotEpochLeader => String::from_str("Not a leader node"),
            Error::NoClusterRpcUrl => String::from_str(
                "No cluster RPC URLs available for synchronization",
            ),
            Error::EmptyLeader => String::from_str("Empty leader"),
            Error::EmptyLeaderClusterRpcUrl => String::from_str("Empty leader cluster RPC URL"),
            Error::InvalidOrderCommitment => String::from_str("Invalid order commitment"),
            Error::TxOrdererInfoNotFound => String::from_str("Tx orderer info not found"),
            Error::ClusterRpcUrlNotFound => String::from_str("Cluster RPC URL not found"),
            Error::EpochLeaderAddressNotFound => String::from_str("epoch_leader_address not found"),
            Error::EpochLeaderClusterRpcUrlNotFound => String::from_str(
                "epoch leader cluster_rpc_url not found",
            ),
        }
    }
}

} // verus!
