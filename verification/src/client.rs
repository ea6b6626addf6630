//! Clients of services the sequencer talks to.

pub mod reward_manager;
