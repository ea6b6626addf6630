//! Finalizing a batch: gathering its encrypted and raw transactions, fetching
//! from other nodes the encrypted ones that are missing here.

use vstd::prelude::*;

use crate::types::encrypted_transaction::EncryptedTransaction;
use crate::types::raw_transaction::RawTransaction;
use crate::types::rollup::RollupId;

verus! {

/// Some lookup of an order below `transaction_count` failed with `error`.
pub open spec fn lookup_failed_within<F, E>(
    lookup: F,
    rollup_id: &RollupId,
    rollup_batch_number: u64,
    transaction_count: u64,
    error: E,
) -> bool where F: Fn(&RollupId, u64, u64) -> Result<Option<EncryptedTransaction>, E> {
    exists|order: u64|
        order < transaction_count && #[trigger] call_ensures(
            lookup,
            (rollup_id, rollup_batch_number, order),
            Err::<Option<EncryptedTransaction>, E>(error),
        )
}

/// Looks up, one order after another, the encrypted transactions stored for
/// orders `0` to `transaction_count - 1` of a batch: each found one, or nothing
/// where none is stored. The first lookup that fails ends the work with its
/// error.
pub fn get_encrypted_transaction_list<F, E>(
    rollup_id: &RollupId,
    rollup_batch_number: u64,
    transaction_count: u64,
    lookup: F,
) -> (list: Result<Vec<Option<EncryptedTransaction>>, E>) where
    F: Fn(&RollupId, u64, u64) -> Result<Option<EncryptedTransaction>, E>,

    requires
        forall|order: u64|
            order < transaction_count ==> call_requires(
                lookup,
                (rollup_id, rollup_batch_number, order),
            ),
    ensures
        match list {
            Ok(found) => {
                &&& found@.len() == transaction_count
                &&& forall|order: int|
                    0 <= order < transaction_count ==> call_ensures(
                        lookup,
                        (rollup_id, rollup_batch_number, order as u64),
                        Ok::<Option<EncryptedTransaction>, E>(#[trigger] found@[order]),
                    )
            },
            Err(error) => lookup_failed_within(
                lookup,
                rollup_id,
                rollup_batch_number,
                transaction_count,
                error,
            ),
        },
{
    let mut found: Vec<Option<EncryptedTransaction>> = Vec::new();
    let mut order: u64 = 0;
    while order < transaction_count
        invariant
            order <= transaction_count,
            found@.len() == order,
            forall|o: u64|
                o < transaction_count ==> call_requires(lookup, (rollup_id, rollup_batch_number, o)),
            forall|i: int|
                0 <= i < order ==> call_ensures(
                    lookup,
                    (rollup_id, rollup_batch_number, i as u64),
                    Ok::<Option<EncryptedTransaction>, E>(#[trigger] found@[i]),
                ),
        decreases transaction_count - order,
    {
        let looked_up = lookup(rollup_id, rollup_batch_number, order);
        match looked_up {
            Ok(encrypted_transaction) => {
                found.push(encrypted_transaction);
            },
            Err(error) => {
                assert(call_ensures(
                    lookup,
                    (rollup_id, rollup_batch_number, order),
                    Err::<Option<EncryptedTransaction>, E>(error),
                ));
                assert(lookup_failed_within(
                    lookup,
                    rollup_id,
                    rollup_batch_number,
                    transaction_count,
                    error,
                ));
                return Err(error);
            },
        }
        order = order + 1;
    }
    Ok(found)
}

/// The orders whose encrypted transaction is missing here and was not sent to
/// this node directly, in increasing order: those must be fetched from the
/// other nodes.
pub open spec fn orders_to_fetch(
    encrypted: Seq<Option<EncryptedTransaction>>,
    raw_transaction_info: Seq<(RawTransaction, bool)>,
) -> Seq<u64>
    decreases encrypted.len(),
{
    if encrypted.len() == 0 {
        Seq::empty()
    } else {
        let last = encrypted.len() - 1;
        let earlier = orders_to_fetch(encrypted.drop_last(), raw_transaction_info);
        if encrypted[last] is None && !raw_transaction_info[last].1 {
            earlier.push(last as u64)
        } else {
            earlier
        }
    }
}

/// The orders of a batch whose encrypted transaction has to be fetched from the
/// other nodes.
pub fn encrypted_transactions_to_fetch(
    encrypted_transaction_list: &Vec<Option<EncryptedTransaction>>,
    raw_transaction_info_list: &Vec<(RawTransaction, bool)>,
) -> (orders: Vec<u64>)
    requires
        encrypted_transaction_list@.len() <= raw_transaction_info_list@.len(),
    ensures
        orders@ == orders_to_fetch(encrypted_transaction_list@, raw_transaction_info_list@),
{
    let mut orders: Vec<u64> = Vec::new();
    let mut i: usize = 0;
    while i < encrypted_transaction_list.len()
        invariant
            i <= encrypted_transaction_list@.len() <= raw_transaction_info_list@.len(),
            orders@ == orders_to_fetch(encrypted_transaction_list@.take(i as int), raw_transaction_info_list@),
        decreases encrypted_transaction_list.len() - i,
    {
        let ghost taken = encrypted_transaction_list@.take(i + 1);
        assert(taken.drop_last() =~= encrypted_transaction_list@.take(i as int));
        assert(taken[i as int] == encrypted_transaction_list@[i as int]);
        if encrypted_transaction_list[i].is_none() && !raw_transaction_info_list[i].1 {
            orders.push(i as u64);
        }
        i = i + 1;
    }
    assert(encrypted_transaction_list@.take(encrypted_transaction_list@.len() as int)
        =~= encrypted_transaction_list@);
    orders
}

/// The raw transactions of a batch, without whether each was sent directly.
pub fn raw_transactions_of(raw_transaction_info_list: Vec<(RawTransaction, bool)>) -> (raw_transactions: Vec<RawTransaction>)
    ensures
        raw_transactions@.len() == raw_transaction_info_list@.len(),
        forall|i: int|
            0 <= i < raw_transactions@.len() ==> #[trigger] raw_transactions@[i]
                == raw_transaction_info_list@[i].0,
{
    let ghost whole = raw_transaction_info_list@;
    let mut rest = raw_transaction_info_list;
    let total = rest.len();
    let mut reversed: Vec<(RawTransaction, bool)> = Vec::new();
    while rest.len() > 0
        invariant
            rest@.len() + reversed@.len() == total,
            total == whole.len(),
            rest@ == whole.take(rest@.len() as int),
            forall|i: int| 0 <= i < reversed@.len() ==> #[trigger] reversed@[i] == whole[total - 1 - i],
        decreases rest.len(),
    {
        let info = rest.pop().unwrap();
        reversed.push(info);
        assert(rest@ =~= whole.take(rest@.len() as int));
    }
    let mut raw_transactions: Vec<RawTransaction> = Vec::new();
    while reversed.len() > 0
        invariant
            reversed@.len() + raw_transactions@.len() == total,
            total == whole.len(),
            forall|i: int| 0 <= i < reversed@.len() ==> #[trigger] reversed@[i] == whole[total - 1 - i],
            forall|i: int| 0 <= i < raw_transactions@.len() ==> #[trigger] raw_transactions@[i] == whole[i].0,
        decreases reversed.len(),
    {
        let (raw_transaction, _is_direct_sent) = reversed.pop().unwrap();
        raw_transactions.push(raw_transaction);
    }
    raw_transactions
}

} // verus!
