//! Verified core of a leader-based transaction orderer for rollups: epoch and
//! batch bookkeeping, leader rotation, request routing and the encodings these
//! rest on.

pub mod client;
pub mod codec;
pub mod error;
pub mod rpc;
pub mod task;
pub mod types;
pub mod util;
