//! Encrypted transactions as the sequencer carries them.

use vstd::prelude::*;

verus! {

/// A transaction encrypted for a PVDE mempool; the payload is opaque here.
#[derive(Clone, Debug)]
pub struct PvdeEncryptedTransaction {
    pub payload: String,
}

/// A transaction encrypted for an SKDE mempool; the payload is opaque here.
#[derive(Clone, Debug)]
pub struct SkdeEncryptedTransaction {
    pub payload: String,
}

#[derive(Clone, Debug)]
pub enum EncryptedTransaction {
    Pvde(PvdeEncryptedTransaction),
    Skde(SkdeEncryptedTransaction),
}

} // verus!
