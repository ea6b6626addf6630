//! Requests that clients send to a node.

pub mod get_raw_transaction_list;
pub mod send_encrypted_transaction;
pub mod send_raw_transaction;
