//! Requests from the node's operator.

pub mod add_cluster;
