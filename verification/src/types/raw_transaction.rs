//! Raw transactions once placed in a batch, and the batches themselves.

use vstd::prelude::*;

use crate::types::address::{Address, Signature};
use crate::types::encrypted_transaction::EncryptedTransaction;

verus! {

#[derive(Clone, Debug)]
pub struct EthRawTransaction(pub String);

#[derive(Clone, Debug)]
pub struct EthRawBundleTransaction(pub String);

/// A raw transaction at its position in a batch.
#[derive(Clone, Debug)]
pub enum RawTransaction {
    Eth(EthRawTransaction),
    EthBundle(EthRawBundleTransaction),
}

impl RawTransaction {
    /// The transaction's raw text, whatever its kind.
    pub open spec fn data(self) -> Seq<char> {
        match self {
            RawTransaction::Eth(EthRawTransaction(data)) => data@,
            RawTransaction::EthBundle(EthRawBundleTransaction(data)) => data@,
        }
    }

    /// A copy of the transaction's raw text.
    pub fn to_data(&self) -> (data: String)
        ensures
            data@ == self.data(),
    {
        match self {
            RawTransaction::Eth(EthRawTransaction(data)) => data.clone(),
            RawTransaction::EthBundle(EthRawBundleTransaction(data)) => data.clone(),
        }
    }

    /// Gives up the transaction for its raw text.
    pub fn into_data(self) -> (data: String)
        ensures
            data@ == self.data(),
    {
        match self {
            RawTransaction::Eth(EthRawTransaction(data)) => data,
            RawTransaction::EthBundle(EthRawBundleTransaction(data)) => data,
        }
    }
}

/// The raw texts of a list of transactions, in order.
pub open spec fn raw_texts(list: Seq<RawTransaction>) -> Seq<Seq<char>> {
    list.map_values(|transaction: RawTransaction| transaction.data())
}

/// The views of a list of strings, in order.
pub open spec fn string_views(list: Seq<String>) -> Seq<Seq<char>> {
    list.map_values(|s: String| s@)
}

/// A finalized batch of a rollup.
#[derive(Clone, Debug)]
pub struct Batch {
    pub batch_number: u64,
    pub encrypted_transaction_list: Vec<Option<EncryptedTransaction>>,
    pub raw_transaction_list: Vec<RawTransaction>,
    pub batch_commitment: [u8; 32],
    pub batch_creator_address: Address,
    pub batch_creator_signature: Signature,
}

impl Batch {
    pub fn new(
        batch_number: u64,
        encrypted_transaction_list: Vec<Option<EncryptedTransaction>>,
        raw_transaction_list: Vec<RawTransaction>,
        batch_commitment: [u8; 32],
        batch_creator_address: Address,
        batch_creator_signature: Signature,
    ) -> (batch: Self)
        ensures
            batch.batch_number == batch_number,
            batch.encrypted_transaction_list == encrypted_transaction_list,
            batch.raw_transaction_list == raw_transaction_list,
            batch.batch_commitment == batch_commitment,
            batch.batch_creator_address == batch_creator_address,
            batch.batch_creator_signature == batch_creator_signature,
    {
        Batch {
            batch_number,
            encrypted_transaction_list,
            raw_transaction_list,
            batch_commitment,
            batch_creator_address,
            batch_creator_signature,
        }
    }
}

} // verus!
