//! The sequencer's request handlers: what they decide, apart from the I/O.

pub mod cluster;
pub mod external;
pub mod internal;
