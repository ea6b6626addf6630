//! Background work of the sequencer.

pub mod finalize_batch;
