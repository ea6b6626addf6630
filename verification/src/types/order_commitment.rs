//! What the sequencer gives a user as proof of the order it assigned.

use vstd::prelude::*;

use crate::types::address::Signature;
use crate::types::raw_epoch_transaction::{RawEpochTransactionHash, RawTransactionHash};
use crate::types::rollup::{OrderCommitmentType, RollupId};
use crate::codec::prefixed_hex;

verus! {

/// The data a signed order commitment signs.
#[derive(Clone, Debug)]
pub struct OrderCommitmentData {
    pub rollup_id: RollupId,
    pub epoch: u64,
    pub transaction_order: u64,
    pub transaction_hash: String,
    pub pre_merkle_path: Vec<[u8; 32]>,
}

impl OrderCommitmentData {
    /// Empty rollup id, epoch and order zero, the zero hash, no Merkle path.
    pub fn default() -> (data: Self)
        ensures
            data.rollup_id@ == Seq::<char>::empty(),
            data.epoch == 0,
            data.transaction_order == 0,
            data.transaction_hash@ == prefixed_hex(Seq::new(32, |i: int| 0u8)),
            data.pre_merkle_path@ == Seq::<[u8; 32]>::empty(),
    {
        OrderCommitmentData {
            rollup_id: String::new(),
            epoch: 0,
            transaction_order: 0,
            transaction_hash: RawEpochTransactionHash::default().as_string(),
            pre_merkle_path: Vec::new(),
        }
    }
}

/// An order commitment signed by the leader.
#[derive(Clone, Debug)]
pub struct SignOrderCommitment {
    pub data: OrderCommitmentData,
    pub signature: Signature,
}

/// An order commitment that is just the transaction's hash.
#[derive(Clone, Debug)]
pub struct TransactionHashOrderCommitment(pub String);

impl TransactionHashOrderCommitment {
    pub fn new(transaction_hash: String) -> (commitment: Self)
        ensures
            commitment.0 == transaction_hash,
    {
        TransactionHashOrderCommitment(transaction_hash)
    }
}

#[derive(Clone, Debug)]
pub enum SingleOrderCommitment {
    TransactionHash(TransactionHashOrderCommitment),
    Sign(SignOrderCommitment),
}

/// The order commitments of the transactions of a bundle.
#[derive(Clone, Debug)]
pub struct BundleOrderCommitment {
    pub order_commitment_list: Vec<SingleOrderCommitment>,
}

#[derive(Clone, Debug)]
pub enum OrderCommitment {
    Single(SingleOrderCommitment),
    Bundle(BundleOrderCommitment),
}

impl OrderCommitment {
    /// The hash commitment of the zero hash.
    pub fn default() -> (commitment: Self)
        ensures
            commitment matches OrderCommitment::Single(
                SingleOrderCommitment::TransactionHash(TransactionHashOrderCommitment(hash)),
            ) && hash@ == prefixed_hex(Seq::new(32, |i: int| 0u8)),
    {
        OrderCommitment::Single(
            SingleOrderCommitment::TransactionHash(
                TransactionHashOrderCommitment::new(RawEpochTransactionHash::default().as_string()),
            ),
        )
    }
}

/// The outcome of issuing an order commitment: ready, or data that the leader
/// still has to sign.
#[derive(Clone, Debug)]
pub enum OrderCommitmentIssuance {
    Issued(OrderCommitment),
    ToSign(OrderCommitmentData),
}

/// Issues the order commitment of a transaction at `(epoch, transaction_order)`:
/// its hash for rollups that take hash commitments; for rollups that take
/// signed ones, the data to sign (rollup, epoch, order, hash and Merkle path).
pub fn issue_order_commitment(
    order_commitment_type: OrderCommitmentType,
    rollup_id: RollupId,
    transaction_hash: RawTransactionHash,
    epoch: u64,
    transaction_order: u64,
    pre_merkle_path: Vec<[u8; 32]>,
) -> (issuance: OrderCommitmentIssuance)
    ensures
        match order_commitment_type {
            OrderCommitmentType::TransactionHash => issuance matches OrderCommitmentIssuance::Issued(
                OrderCommitment::Single(
                    SingleOrderCommitment::TransactionHash(TransactionHashOrderCommitment(hash)),
                ),
            ) && hash@ == transaction_hash@,
            OrderCommitmentType::Sign => issuance matches OrderCommitmentIssuance::ToSign(data)
                && data == (OrderCommitmentData {
                rollup_id,
                epoch,
                transaction_order,
                transaction_hash: data.transaction_hash,
                pre_merkle_path,
            }) && data.transaction_hash@ == transaction_hash@,
        },
{
    match order_commitment_type {
        OrderCommitmentType::TransactionHash => OrderCommitmentIssuance::Issued(
            OrderCommitment::Single(
                SingleOrderCommitment::TransactionHash(
                    TransactionHashOrderCommitment::new(transaction_hash.as_string()),
                ),
            ),
        ),
        OrderCommitmentType::Sign => OrderCommitmentIssuance::ToSign(
            OrderCommitmentData {
                rollup_id,
                epoch,
                transaction_hash: transaction_hash.as_string(),
                transaction_order,
                pre_merkle_path,
            },
        ),
    }
}

/// The signed order commitment made of data and the leader's signature over it.
pub fn signed_order_commitment(data: OrderCommitmentData, signature: Signature) -> (commitment: OrderCommitment)
    ensures
        commitment == OrderCommitment::Single(
            SingleOrderCommitment::Sign(SignOrderCommitment { data, signature }),
        ),
{
    OrderCommitment::Single(SingleOrderCommitment::Sign(SignOrderCommitment { data, signature }))
}

} // verus!
