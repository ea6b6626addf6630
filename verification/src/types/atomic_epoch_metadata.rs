//! In-memory per-epoch counters of a rollup: how many transaction orders the
//! leader has issued in each epoch, and how many transactions it received from
//! each node. They are kept in concurrent maps and are not persisted.

use std::collections::hash_map::RandomState;
use std::collections::BTreeSet;

use dashmap::DashMap;
use vstd::prelude::*;

use crate::util::{sorted_elements, sorted_seq};

verus! {

broadcast use vstd::laws_cmp::group_laws_cmp;

#[verifier::external_type_specification]
#[verifier::external_body]
#[verifier::reject_recursive_types(K)]
#[verifier::reject_recursive_types(V)]
#[verifier::reject_recursive_types(S)]
pub struct ExDashMap<K, V, S>(DashMap<K, V, S>);

/// What a map of issued-order counters holds: epoch to counter.
pub uninterp spec fn order_counter_entries(map: DashMap<u64, u64, RandomState>) -> Map<u64, u64>;

/// What a map of per-node received counters holds: epoch to the counters,
/// indexed by node.
pub uninterp spec fn node_counter_entries(map: DashMap<u64, Vec<u64>, RandomState>) -> Map<
    u64,
    Seq<u64>,
>;

/// `DashMap::new`: a map with no entry.
#[verifier::external_body]
fn new_order_counters() -> (map: DashMap<u64, u64, RandomState>)
    ensures
        order_counter_entries(map) == no_entries::<u64>(),
{
    DashMap::new()
}

/// `DashMap::get`: the counter stored for `epoch`, copied out.
#[verifier::external_body]
fn order_counter_get(map: &DashMap<u64, u64, RandomState>, epoch: u64) -> (counter: Option<u64>)
    ensures
        counter == order_counter_entries(*map).get(epoch),
{
    map.get(&epoch).map(|entry| *entry)
}

/// `DashMap::insert`: stores `counter` for `epoch`, replacing what was there.
#[verifier::external_body]
fn order_counter_insert(map: &mut DashMap<u64, u64, RandomState>, epoch: u64, counter: u64)
    ensures
        order_counter_entries(*final(map)) == order_counter_entries(*old(map)).insert(
            epoch,
            counter,
        ),
{
    map.insert(epoch, counter);
}

/// `DashMap::iter`: the epochs that have a counter, each taken from its entry, in
/// the order the map walks them (which is not stated).
#[verifier::external_body]
fn order_counter_epochs(map: &DashMap<u64, u64, RandomState>) -> (epochs: Vec<u64>)
    ensures
        epochs@.to_set() == order_counter_entries(*map).dom(),
{
    map.iter().map(|entry| *entry.key()).collect()
}

/// `DashMap::retain`: keeps the entries of the epochs after `last_removed_epoch`.
#[verifier::external_body]
fn order_counter_retain_after(map: &mut DashMap<u64, u64, RandomState>, last_removed_epoch: u64)
    ensures
        order_counter_entries(*final(map)) == epochs_after(
            order_counter_entries(*old(map)),
            last_removed_epoch,
        ),
{
    map.retain(|epoch, _counter| epoch_is_after(*epoch, last_removed_epoch));
}

/// `DashMap::new`: a map with no entry.
#[verifier::external_body]
fn new_node_counters() -> (map: DashMap<u64, Vec<u64>, RandomState>)
    ensures
        node_counter_entries(map) == no_entries::<Seq<u64>>(),
{
    DashMap::new()
}

/// `DashMap::get`: the counters stored for `epoch`, copied out.
#[verifier::external_body]
fn node_counter_get(map: &DashMap<u64, Vec<u64>, RandomState>, epoch: u64) -> (counters: Option<
    Vec<u64>,
>)
    ensures
        match counters {
            Some(c) => node_counter_entries(*map).contains_key(epoch) && c@ == node_counter_entries(
                *map,
            )[epoch],
            None => !node_counter_entries(*map).contains_key(epoch),
        },
{
    map.get(&epoch).map(|entry| entry.value().clone())
}

/// `DashMap::insert`: stores `counters` for `epoch`, replacing what was there.
#[verifier::external_body]
fn node_counter_insert(map: &mut DashMap<u64, Vec<u64>, RandomState>, epoch: u64, counters: Vec<u64>)
    ensures
        node_counter_entries(*final(map)) == node_counter_entries(*old(map)).insert(
            epoch,
            counters@,
        ),
{
    map.insert(epoch, counters);
}

/// `DashMap::retain`: keeps the entries of the epochs after `last_removed_epoch`.
#[verifier::external_body]
fn node_counter_retain_after(map: &mut DashMap<u64, Vec<u64>, RandomState>, last_removed_epoch: u64)
    ensures
        node_counter_entries(*final(map)) == epochs_after(
            node_counter_entries(*old(map)),
            last_removed_epoch,
        ),
{
    map.retain(|epoch, _counters| epoch_is_after(*epoch, last_removed_epoch));
}

/// No entry for any epoch.
pub open spec fn no_entries<V>() -> Map<u64, V> {
    Map::empty()
}

/// The entries of the epochs after `last_removed_epoch`.
pub open spec fn epochs_after<V>(entries: Map<u64, V>, last_removed_epoch: u64) -> Map<u64, V> {
    entries.filter_keys(|epoch: u64| epoch > last_removed_epoch)
}

/// Whether `epoch` comes after `last_removed_epoch`.
pub fn epoch_is_after(epoch: u64, last_removed_epoch: u64) -> (after: bool)
    ensures
        after == (epoch > last_removed_epoch),
{
    epoch > last_removed_epoch
}

/// A counter one step further, wrapping around at the top as an atomic
/// fetch-add does.
pub open spec fn next_count(count: u64) -> u64 {
    if count == u64::MAX {
        0
    } else {
        (count + 1) as u64
    }
}

fn step_count(count: u64) -> (next: u64)
    ensures
        next == next_count(count),
{
    if count == u64::MAX {
        0
    } else {
        count + 1
    }
}

/// The number of orders issued in `epoch`: its counter, zero when it has none.
pub open spec fn issued_in(orders: Map<u64, u64>, epoch: u64) -> u64 {
    if orders.contains_key(epoch) {
        orders[epoch]
    } else {
        0
    }
}

/// The number of transactions received from node `node_index` in `epoch`,
/// zero when no counter is kept for it.
pub open spec fn received_from(counts: Map<u64, Seq<u64>>, epoch: u64, node_index: int) -> u64 {
    if counts.contains_key(epoch) && 0 <= node_index < counts[epoch].len() {
        counts[epoch][node_index]
    } else {
        0
    }
}

/// The counters of an epoch after one more transaction from node
/// `node_index`: grown with zeros until they cover the node, then its counter
/// stepped.
pub open spec fn counters_after_receipt(counters: Seq<u64>, node_index: int) -> Seq<u64> {
    let grown = if node_index < counters.len() {
        counters
    } else {
        counters + Seq::new((node_index + 1 - counters.len()) as nat, |i: int| 0u64)
    };
    grown.update(node_index, next_count(grown[node_index]))
}

/// The counters kept for `epoch`, none when it has no entry.
pub open spec fn counters_of(counts: Map<u64, Seq<u64>>, epoch: u64) -> Seq<u64> {
    if counts.contains_key(epoch) {
        counts[epoch]
    } else {
        Seq::empty()
    }
}

/// Per-epoch counters of issued transaction orders and of transactions
/// received from each node.
pub struct AtomicEpochMetadata {
    epoch_transaction_orders: DashMap<u64, u64, RandomState>,
    received_transaction_count_per_node: DashMap<u64, Vec<u64>, RandomState>,
}

impl AtomicEpochMetadata {
    /// Epoch to the number of transaction orders issued in it (the next order
    /// to issue).
    pub closed spec fn issued_orders(&self) -> Map<u64, u64> {
        order_counter_entries(self.epoch_transaction_orders)
    }

    /// Epoch to the number of transactions received from each node.
    pub closed spec fn received_counts(&self) -> Map<u64, Seq<u64>> {
        node_counter_entries(self.received_transaction_count_per_node)
    }

    /// No counter in any epoch.
    pub fn new() -> (metadata: Self)
        ensures
            metadata.issued_orders() == Map::<u64, u64>::empty(),
            metadata.received_counts() == Map::<u64, Seq<u64>>::empty(),
    {
        AtomicEpochMetadata {
            epoch_transaction_orders: new_order_counters(),
            received_transaction_count_per_node: new_node_counters(),
        }
    }

    /// Issues the next transaction order of `epoch`: returns the number of
    /// orders issued so far in it and counts one more.
    pub fn issue_transaction_order(&mut self, epoch: u64) -> (order: u64)
        ensures
            order == issued_in(old(self).issued_orders(), epoch),
            final(self).issued_orders() == old(self).issued_orders().insert(
                epoch,
                next_count(order),
            ),
            final(self).received_counts() == old(self).received_counts(),
    {
        let order = match order_counter_get(&self.epoch_transaction_orders, epoch) {
            Some(counter) => counter,
            None => 0,
        };
        order_counter_insert(&mut self.epoch_transaction_orders, epoch, step_count(order));
        order
    }

    /// The number of transaction orders issued in `epoch`.
    pub fn transaction_order(&self, epoch: u64) -> (count: u64)
        ensures
            count == issued_in(self.issued_orders(), epoch),
    {
        match order_counter_get(&self.epoch_transaction_orders, epoch) {
            Some(counter) => counter,
            None => 0,
        }
    }

    /// Records the final number of orders of `epoch` as the leader reports it,
    /// unless one is recorded already; returns the recorded one in that case.
    pub fn set_transaction_order_if_absent(&mut self, epoch: u64, transaction_order: u64) -> (existing: Option<u64>)
        ensures
            existing == old(self).issued_orders().get(epoch),
            final(self).issued_orders() == (if old(self).issued_orders().contains_key(epoch) {
                old(self).issued_orders()
            } else {
                old(self).issued_orders().insert(epoch, transaction_order)
            }),
            final(self).received_counts() == old(self).received_counts(),
    {
        match order_counter_get(&self.epoch_transaction_orders, epoch) {
            Some(counter) => Some(counter),
            None => {
                order_counter_insert(&mut self.epoch_transaction_orders, epoch, transaction_order);
                None
            },
        }
    }

    /// Counts one more transaction received from node `node_index` in `epoch`,
    /// growing the epoch's counters with zeros to cover the node.
    pub fn increment_received_transaction_count(&mut self, epoch: u64, node_index: usize)
        requires
            node_index < usize::MAX,
        ensures
            final(self).received_counts() == old(self).received_counts().insert(
                epoch,
                counters_after_receipt(counters_of(old(self).received_counts(), epoch), node_index as int),
            ),
            final(self).issued_orders() == old(self).issued_orders(),
    {
        let mut counters = match node_counter_get(&self.received_transaction_count_per_node, epoch) {
            Some(counters) => counters,
            None => Vec::new(),
        };
        let ghost start = counters@;
        assert(start == counters_of(old(self).received_counts(), epoch));
        while counters.len() <= node_index
            invariant
                node_index < usize::MAX,
                start.len() <= counters@.len() <= (if start.len() > node_index {
                    start.len() as int
                } else {
                    node_index + 1
                }),
                counters@.subrange(0, start.len() as int) == start,
                forall|i: int| start.len() <= i < counters@.len() ==> counters@[i] == 0,
            decreases node_index + 1 - counters.len(),
        {
            counters.push(0);
        }
        proof {
            let grown = if (node_index as int) < start.len() {
                start
            } else {
                start + Seq::new((node_index + 1 - start.len()) as nat, |i: int| 0u64)
            };
            assert(counters@ =~= grown);
        }
        let count = counters[node_index];
        counters.set(node_index, step_count(count));
        assert(counters@ =~= counters_after_receipt(start, node_index as int));
        node_counter_insert(&mut self.received_transaction_count_per_node, epoch, counters);
    }

    /// The number of transactions received from node `node_index` in `epoch`.
    pub fn received_transaction_count(&self, epoch: u64, node_index: usize) -> (count: u64)
        ensures
            count == received_from(self.received_counts(), epoch, node_index as int),
    {
        match node_counter_get(&self.received_transaction_count_per_node, epoch) {
            Some(counters) => {
                if node_index < counters.len() {
                    counters[node_index]
                } else {
                    0
                }
            },
            None => 0,
        }
    }

    /// Each epoch that has a counter, in increasing order, with the number of
    /// transaction orders issued in it.
    pub fn epoch_transaction_counts(&self) -> (counts: Vec<(u64, u64)>)
        ensures
            counts@.len() == sorted_seq(self.issued_orders().dom()).len(),
            forall|i: int|
                0 <= i < counts@.len() ==> {
                    &&& (#[trigger] counts@[i]).0 == sorted_seq(self.issued_orders().dom())[i]
                    &&& self.issued_orders().contains_key(counts@[i].0)
                    &&& counts@[i].1 == self.issued_orders()[counts@[i].0]
                },
    {
        let epochs = order_counter_epochs(&self.epoch_transaction_orders);
        let mut set: BTreeSet<u64> = BTreeSet::new();
        let mut i: usize = 0;
        while i < epochs.len()
            invariant
                0 <= i <= epochs@.len(),
                set@ == epochs@.take(i as int).to_set(),
            decreases epochs.len() - i,
        {
            set.insert(epochs[i]);
            proof {
                assert(epochs@.take(i + 1) =~= epochs@.take(i as int).push(epochs@[i as int]));
                epochs@.take(i as int).lemma_push_to_set_commute(epochs@[i as int]);
            }
            i = i + 1;
        }
        proof {
            assert(epochs@.take(epochs@.len() as int) =~= epochs@);
        }
        let sorted = sorted_elements(&set);
        let mut counts: Vec<(u64, u64)> = Vec::new();
        let mut j: usize = 0;
        while j < sorted.len()
            invariant
                0 <= j <= sorted@.len(),
                sorted@ == sorted_seq(self.issued_orders().dom()),
                sorted@.to_set() == self.issued_orders().dom(),
                counts@.len() == j,
                forall|k: int|
                    0 <= k < j ==> {
                        &&& (#[trigger] counts@[k]).0 == sorted@[k]
                        &&& self.issued_orders().contains_key(counts@[k].0)
                        &&& counts@[k].1 == self.issued_orders()[counts@[k].0]
                    },
            decreases sorted.len() - j,
        {
            let epoch = sorted[j];
            proof {
                assert(sorted@.to_set().contains(sorted@[j as int]));
            }
            let count = self.transaction_order(epoch);
            counts.push((epoch, count));
            j = j + 1;
        }
        counts
    }

    /// Drops the counters of `last_removed_epoch` and of every epoch before it.
    pub fn retain_epochs_after(&mut self, last_removed_epoch: u64)
        ensures
            final(self).issued_orders() == epochs_after(old(self).issued_orders(), last_removed_epoch),
            final(self).received_counts() == epochs_after(
                old(self).received_counts(),
                last_removed_epoch,
            ),
    {
        order_counter_retain_after(&mut self.epoch_transaction_orders, last_removed_epoch);
        node_counter_retain_after(&mut self.received_transaction_count_per_node, last_removed_epoch);
    }
}

/// The order counters after `issues` orders were issued in `epoch`.
pub open spec fn after_issues(orders: Map<u64, u64>, epoch: u64, issues: nat) -> Map<u64, u64>
    decreases issues,
{
    if issues == 0 {
        orders
    } else {
        let before = after_issues(orders, epoch, (issues - 1) as nat);
        before.insert(epoch, next_count(issued_in(before, epoch)))
    }
}

/// Orders issued one after another in an epoch are consecutive, so no two of
/// them are equal while the counter does not wrap: the `k`-th issue returns the
/// starting count plus `k`.
pub proof fn lemma_issued_orders_are_consecutive(orders: Map<u64, u64>, epoch: u64, issues: nat)
    requires
        issued_in(orders, epoch) + issues <= u64::MAX,
    ensures
        forall|k: nat|
            k <= issues ==> #[trigger] issued_in(after_issues(orders, epoch, k), epoch) == issued_in(
                orders,
                epoch,
            ) + k,
    decreases issues,
{
    if issues > 0 {
        lemma_issued_orders_are_consecutive(orders, epoch, (issues - 1) as nat);
        assert(issued_in(after_issues(orders, epoch, issues), epoch) == issued_in(orders, epoch)
            + issues) by {
            let before = after_issues(orders, epoch, (issues - 1) as nat);
            assert(issued_in(before, epoch) == issued_in(orders, epoch) + (issues - 1) as nat);
        }
        assert forall|k: nat| k <= issues implies #[trigger] issued_in(
            after_issues(orders, epoch, k),
            epoch,
        ) == issued_in(orders, epoch) + k by {
            if k < issues {
                assert(k <= (issues - 1) as nat);
            }
        }
    }
}

/// A transaction received from a node raises that node's count in the epoch
/// by one (wrapping at the top) and leaves every other count as it was.
pub proof fn lemma_receipt_counts_once(
    counts: Map<u64, Seq<u64>>,
    epoch: u64,
    node_index: int,
    other_epoch: u64,
    other_node: int,
)
    requires
        0 <= node_index,
        0 <= other_node,
        other_epoch != epoch || other_node != node_index,
    ensures
        ({
            let after = counts.insert(
                epoch,
                counters_after_receipt(counters_of(counts, epoch), node_index),
            );
            &&& received_from(after, epoch, node_index) == next_count(
                received_from(counts, epoch, node_index),
            )
            &&& received_from(after, other_epoch, other_node) == received_from(
                counts,
                other_epoch,
                other_node,
            )
        }),
{
}

} // verus!
