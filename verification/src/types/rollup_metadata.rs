//! Per-rollup batch bookkeeping: where the next transaction goes, which
//! transaction orders of each batch can be provided, and which epochs are done.

use std::collections::BTreeSet;
use std::collections::HashMap;

use vstd::prelude::*;

use crate::types::rollup::ClusterId;

verus! {

broadcast use {vstd::laws_cmp::group_laws_cmp, vstd::seq_lib::group_seq_properties};

/// Epochs whose transactions every node has reported, so that they can be
/// turned into batches.
#[derive(Clone, Debug)]
pub struct CanProvideEpochInfo {
    pub completed_epoch: BTreeSet<u64>,
}

impl CanProvideEpochInfo {
    /// No completed epoch.
    pub fn default() -> (info: Self)
        ensures
            info.completed_epoch@ == Set::<u64>::empty(),
    {
        CanProvideEpochInfo { completed_epoch: BTreeSet::new() }
    }

    /// Records `epoch` as completed.
    pub fn add_completed_epoch(&mut self, epoch: u64)
        ensures
            final(self).completed_epoch@ == old(self).completed_epoch@.insert(epoch),
    {
        self.completed_epoch.insert(epoch);
    }
}

/// For each batch, the orders of the transactions in it that this node holds
/// and can provide.
#[derive(Clone, Debug)]
pub struct CanProvideTransactionInfo {
    pub can_provide_transaction_orders_per_batch: HashMap<u64, BTreeSet<u64>>,
}

impl CanProvideTransactionInfo {
    /// The orders per batch as sets.
    pub open spec fn orders(&self) -> Map<u64, Set<u64>> {
        self.can_provide_transaction_orders_per_batch@.map_values(|s: BTreeSet<u64>| s@)
    }

    /// No batch has any order.
    pub fn default() -> (info: Self)
        ensures
            info.orders() == Map::<u64, Set<u64>>::empty(),
    {
        let info = CanProvideTransactionInfo {
            can_provide_transaction_orders_per_batch: HashMap::new(),
        };
        proof {
            assert(info.orders() =~= Map::<u64, Set<u64>>::empty());
        }
        info
    }

    /// Forgets the batches numbered `batch_number` or lower; later batches stay
    /// as they were.
    pub fn remove_can_provide_transaction_orders(&mut self, batch_number: u64)
        ensures
            final(self).orders() == old(self).orders().restrict(
                old(self).orders().dom().filter(|b: u64| b > batch_number),
            ),
    {
        broadcast use vstd::std_specs::hash::group_hash_axioms;
        let mut keys: Vec<u64> = Vec::new();
        for key in it: self.can_provide_transaction_orders_per_batch.keys()
            invariant
                keys.len() == it.index(),
                forall|i: int| 0 <= i < keys.len() ==> keys@[i] == *it.seq()[i],
                it.seq().unref().to_set() == self.can_provide_transaction_orders_per_batch@.dom(),
                keys.len() == it.seq().len() ==> keys@ =~= it.seq().unref(),
        {
            keys.push(*key);
        }
        let ghost initial = self.can_provide_transaction_orders_per_batch@;
        let mut i: usize = 0;
        while i < keys.len()
            invariant
                0 <= i <= keys.len(),
                keys@.to_set() == initial.dom(),
                forall|k: u64| #[trigger]
                    self.can_provide_transaction_orders_per_batch@.contains_key(k) <==> (
                    initial.contains_key(k) && (k > batch_number || !keys@.take(
                        i as int,
                    ).contains(k))),
                forall|k: u64| #[trigger]
                    self.can_provide_transaction_orders_per_batch@.contains_key(k)
                        ==> self.can_provide_transaction_orders_per_batch@[k] == initial[k],
            decreases keys.len() - i,
        {
            let key = keys[i];
            if key <= batch_number {
                self.can_provide_transaction_orders_per_batch.remove(&key);
            }
            proof {
                assert(keys@.take(i + 1) =~= keys@.take(i as int).push(key));
                assert(forall|k: u64|
                    keys@.take(i + 1).contains(k) <==> (keys@.take(i as int).contains(k) || k
                        == key));
            }
            i = i + 1;
        }
        proof {
            assert(keys@.take(keys.len() as int) =~= keys@);
            assert(self.orders() =~= old(self).orders().restrict(
                old(self).orders().dom().filter(|b: u64| b > batch_number),
            ));
        }
    }

    /// Adds `transaction_order_list` to the orders of batch `batch_number`,
    /// creating its entry if there is none; other batches are untouched.
    pub fn add_can_provide_transaction_orders(
        &mut self,
        batch_number: u64,
        transaction_order_list: Vec<u64>,
    )
        ensures
            final(self).orders() == old(self).orders().insert(
                batch_number,
                (if old(self).orders().contains_key(batch_number) {
                    old(self).orders()[batch_number]
                } else {
                    Set::<u64>::empty()
                }).union(transaction_order_list@.to_set()),
            ),
    {
        broadcast use vstd::std_specs::hash::group_hash_axioms;
        let ghost old_orders = self.orders();
        let mut orders = match self.can_provide_transaction_orders_per_batch.remove(&batch_number) {
            Some(existing) => existing,
            None => BTreeSet::new(),
        };
        let ghost start = orders@;
        let mut i: usize = 0;
        while i < transaction_order_list.len()
            invariant
                0 <= i <= transaction_order_list.len(),
                orders@ == start.union(transaction_order_list@.take(i as int).to_set()),
            decreases transaction_order_list.len() - i,
        {
            orders.insert(transaction_order_list[i]);
            proof {
                assert(transaction_order_list@.take(i + 1) =~= transaction_order_list@.take(
                    i as int,
                ).push(transaction_order_list@[i as int]));
                transaction_order_list@.take(i as int).lemma_push_to_set_commute(
                    transaction_order_list@[i as int],
                );
                assert(transaction_order_list@.take(i + 1).to_set() =~= transaction_order_list@.take(
                    i as int,
                ).to_set().insert(transaction_order_list@[i as int]));
                assert(orders@ =~= start.union(transaction_order_list@.take(i + 1).to_set()));
            }
            i = i + 1;
        }
        self.can_provide_transaction_orders_per_batch.insert(batch_number, orders);
        proof {
            assert(transaction_order_list@.take(transaction_order_list.len() as int)
                =~= transaction_order_list@);
            assert(self.orders() =~= old_orders.insert(
                batch_number,
                (if old_orders.contains_key(batch_number) {
                    old_orders[batch_number]
                } else {
                    Set::<u64>::empty()
                }).union(transaction_order_list@.to_set()),
            ));
        }
    }
}

/// Where the next transaction of a rollup goes, and how far its transactions
/// have been handed out.
#[derive(Clone, Debug)]
pub struct RollupMetadata {
    pub batch_number: u64,
    pub transaction_order: u64,
    pub max_transaction_count_per_batch: u64,
    pub cluster_id: ClusterId,
    pub provided_batch_number: u64,
    pub provided_transaction_order: i64,
}

/// The position of a transaction counted from the first order of batch zero.
pub open spec fn linear_position(batch_number: int, transaction_order: int, max: int) -> int {
    batch_number * max + transaction_order
}

impl RollupMetadata {
    /// Batch zero, order zero, nothing provided yet.
    pub fn default() -> (metadata: Self)
        ensures
            metadata.batch_number == 0,
            metadata.transaction_order == 0,
            metadata.max_transaction_count_per_batch == 0,
            metadata.cluster_id@ == Seq::<char>::empty(),
            metadata.provided_batch_number == 0,
            metadata.provided_transaction_order == -1,
    {
        RollupMetadata {
            batch_number: 0,
            transaction_order: 0,
            max_transaction_count_per_batch: 0,
            cluster_id: String::new(),
            provided_batch_number: 0,
            provided_transaction_order: -1,
        }
    }

    /// When the current batch is full, moves to the next batch at order zero and
    /// returns `true`; otherwise changes nothing and returns `false`.
    pub fn check_and_update_batch_info(&mut self) -> (updated: bool)
        requires
            old(self).transaction_order == old(self).max_transaction_count_per_batch
                ==> old(self).batch_number < u64::MAX,
        ensures
            updated == (old(self).transaction_order == old(self).max_transaction_count_per_batch),
            updated ==> *final(self) == (RollupMetadata {
                batch_number: (old(self).batch_number + 1) as u64,
                transaction_order: 0,
                ..*old(self)
            }),
            !updated ==> *final(self) == *old(self),
    {
        if self.transaction_order == self.max_transaction_count_per_batch {
            self.batch_number = self.batch_number + 1;
            self.transaction_order = 0;
            return true;
        }
        false
    }

    /// Hands out the current position (batch number, order in the batch) to a
    /// transaction, moves to the next order, and starts a new batch when the
    /// current one is full; the flag tells whether a batch was completed.
    pub fn issue_transaction_position(&mut self) -> (issued: (u64, u64, bool))
        requires
            old(self).transaction_order < u64::MAX,
            old(self).transaction_order + 1 == old(self).max_transaction_count_per_batch
                ==> old(self).batch_number < u64::MAX,
        ensures
            issued.0 == old(self).batch_number,
            issued.1 == old(self).transaction_order,
            issued.2 == (old(self).transaction_order + 1 == old(self).max_transaction_count_per_batch),
            issued.2 ==> *final(self) == (RollupMetadata {
                batch_number: (old(self).batch_number + 1) as u64,
                transaction_order: 0,
                ..*old(self)
            }),
            !issued.2 ==> *final(self) == (RollupMetadata {
                transaction_order: (old(self).transaction_order + 1) as u64,
                ..*old(self)
            }),
    {
        let batch_number = self.batch_number;
        let transaction_order = self.transaction_order;
        self.transaction_order = self.transaction_order + 1;
        let is_updated = self.check_and_update_batch_info();
        (batch_number, transaction_order, is_updated)
    }
}

/// Issuing a position moves one step forward in the order of positions: the
/// next position is the one right after the issued one, counting
/// `max_transaction_count_per_batch` orders per batch, and it stays inside its
/// batch.
pub proof fn lemma_issued_positions_are_consecutive(before: RollupMetadata, after: RollupMetadata, issued: (u64, u64, bool))
    requires
        before.transaction_order < before.max_transaction_count_per_batch,
        issued.0 == before.batch_number,
        issued.1 == before.transaction_order,
        issued.2 == (before.transaction_order + 1 == before.max_transaction_count_per_batch),
        issued.2 ==> after == (RollupMetadata {
            batch_number: (before.batch_number + 1) as u64,
            transaction_order: 0,
            ..before
        }),
        !issued.2 ==> after == (RollupMetadata {
            transaction_order: (before.transaction_order + 1) as u64,
            ..before
        }),
        before.batch_number < u64::MAX,
    ensures
        linear_position(after.batch_number as int, after.transaction_order as int, after.max_transaction_count_per_batch as int)
            == linear_position(issued.0 as int, issued.1 as int, before.max_transaction_count_per_batch as int) + 1,
        after.transaction_order < after.max_transaction_count_per_batch,
        after.max_transaction_count_per_batch == before.max_transaction_count_per_batch,
{
    let m = before.max_transaction_count_per_batch as int;
    let b = before.batch_number as int;
    if issued.2 {
        assert((b + 1) * m == b * m + m) by (nonlinear_arith);
    }
}

} // verus!
