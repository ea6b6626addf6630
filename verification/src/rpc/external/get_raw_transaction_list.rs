//! The raw transactions of a finalized batch, as texts.

use vstd::prelude::*;

use crate::rpc::cluster::get_raw_transaction_list::extract_raw_transactions;
use crate::types::raw_transaction::{raw_texts, string_views, Batch};
use crate::types::rollup::RollupId;

verus! {

/// Asks for the raw transactions of a rollup's batch.
#[derive(Clone, Debug)]
pub struct GetRawTransactionList {
    pub rollup_id: RollupId,
    pub batch_number: u64,
}

/// The raw transaction texts of a batch, in order.
#[derive(Clone, Debug)]
pub struct GetRawTransactionListResponse {
    pub raw_transaction_list: Vec<String>,
}

/// The answer for a batch: the raw text of each of its transactions, in
/// order, whatever their kind.
pub fn batch_raw_transaction_list(batch: Batch) -> (response: GetRawTransactionListResponse)
    ensures
        string_views(response.raw_transaction_list@) == raw_texts(batch.raw_transaction_list@),
{
    let raw_transaction_list = extract_raw_transactions(batch, 0);
    GetRawTransactionListResponse { raw_transaction_list }
}

} // verus!
