//! Requests exchanged between the nodes of a cluster.

pub mod enable_leader_processing;
pub mod get_digest;
pub mod get_raw_transaction_list;
pub mod send_end_signal;
pub mod set_leader_tx_orderer;
pub mod sync_can_provide_epoch_info;
pub mod sync_epoch_metadata;
pub mod sync_epoch_raw_transaction;
pub mod sync_leader_tx_orderer;
