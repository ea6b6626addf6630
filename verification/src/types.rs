//! The sequencer's data model.

pub mod address;
pub mod atomic_epoch_metadata;
pub mod cluster_metadata;
pub mod config_path;
pub mod encrypted_transaction;
pub mod epoch_metadata;
pub mod order_commitment;
pub mod raw_epoch_transaction;
pub mod raw_transaction;
pub mod redirect_ring;
pub mod rollup;
pub mod rollup_metadata;
