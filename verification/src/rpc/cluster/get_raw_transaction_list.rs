//! Handing the leader's transactions to an executor: epochs are turned into
//! batches, and what has not been provided yet is gathered.

use std::collections::BTreeSet;

use vstd::prelude::*;

use crate::error::Error;
use crate::types::address::{Address, Signature};
use crate::types::cluster_metadata::{
    leader_map_after_change, other_cluster_rpc_urls, rpc_info_of, Cluster, ClusterMetadata,
};
use crate::types::epoch_metadata::EpochMetadata;
use crate::types::rollup_metadata::RollupMetadata;
use crate::types::raw_transaction::{raw_texts, string_views, Batch, RawTransaction};
use crate::types::rollup::RollupId;
use crate::util::{
    as_i64, as_u64, filter_out, sorted_elements, sorted_seq, strictly_increasing, wrap_to_i64,
    wrap_to_u64,
};

verus! {

/// The rollup's request to the current leader for the transactions not yet
/// provided, made when the leadership moves on.
#[derive(Clone, Debug)]
pub struct GetRawTransactionList {
    pub leader_change_message: LeaderChangeMessage,
    pub rollup_signature: Signature,
}

/// A change of leader: the rollup, the executor asking, the block height it was
/// decided at, and the current and next leaders.
#[derive(Clone, Debug)]
pub struct LeaderChangeMessage {
    pub rollup_id: RollupId,
    pub executor_address: Address,
    pub platform_block_height: u64,
    pub current_leader_tx_orderer_address: Address,
    pub next_leader_tx_orderer_address: Address,
}

/// The message the rollup signs for a change of leader.
#[derive(Clone, Debug)]
pub struct SignMessage {
    pub rollup_id: RollupId,
    pub executor_address: String,
    pub platform_block_height: u64,
    pub current_leader_tx_orderer_address: Address,
    pub next_leader_tx_orderer_address: Address,
}

/// The raw transactions handed to the executor.
#[derive(Clone, Debug)]
pub struct GetRawTransactionListResponse {
    pub raw_transaction_list: Vec<String>,
}

/// Whom the former leader tells about a change of leader: the next leader,
/// directly, and the other nodes but the next leader.
#[derive(Clone, Debug)]
pub struct LeaderSyncTargets {
    pub next_leader_cluster_rpc_url: String,
    pub other_cluster_rpc_urls: Vec<String>,
}

/// The plan for telling the cluster about a next leader: `NoClusterRpcUrl` when
/// there is no other node to tell; nothing to do when the next leader is not a
/// node of the cluster; otherwise the next leader's cluster RPC URL and the
/// other nodes' ones without it.
pub open spec fn is_leader_sync_plan(
    cluster: Cluster,
    next_leader_address: Address,
    plan: Result<Option<LeaderSyncTargets>, Error>,
) -> bool {
    let others = other_cluster_rpc_urls(cluster.tx_orderer_rpc_infos@, cluster.tx_orderer_address);
    if others.len() == 0 {
        plan matches Err(Error::NoClusterRpcUrl)
    } else {
        match rpc_info_of(cluster.tx_orderer_rpc_infos@, next_leader_address) {
            None => plan matches Ok(None),
            Some(info) => plan matches Ok(Some(targets)) && {
                let next_url = info.cluster_rpc_url.unwrap();
                &&& targets.next_leader_cluster_rpc_url@ == next_url@
                &&& targets.other_cluster_rpc_urls@.map_values(|s: String| s@)
                    == others.map_values(|s: String| s@).filter(|s: Seq<char>| s != next_url@)
            },
        }
    }
}

/// The next leader's cluster RPC URL is known wherever a plan needs it.
pub open spec fn leader_sync_plannable(cluster: Cluster, next_leader_address: Address) -> bool {
    other_cluster_rpc_urls(cluster.tx_orderer_rpc_infos@, cluster.tx_orderer_address).len() > 0
        ==> (rpc_info_of(cluster.tx_orderer_rpc_infos@, next_leader_address) matches Some(info)
        ==> info.cluster_rpc_url is Some)
}

/// Whom to tell about a next leader (see `is_leader_sync_plan`).
pub fn plan_leader_sync(cluster: &Cluster, next_leader_address: &Address) -> (plan: Result<Option<LeaderSyncTargets>, Error>)
    requires
        leader_sync_plannable(*cluster, *next_leader_address),
    ensures
        is_leader_sync_plan(*cluster, *next_leader_address, plan),
{
    let others = cluster.get_other_cluster_rpc_url_list();
    if others.len() == 0 {
        return Err(Error::NoClusterRpcUrl);
    }
    match cluster.get_tx_orderer_rpc_info(next_leader_address) {
        Some(info) => {
            let next_leader_cluster_rpc_url = match info.cluster_rpc_url {
                Some(url) => url,
                None => {
                    assert(false);
                    String::new()
                },
            };
            let other_cluster_rpc_urls = filter_out(others, &next_leader_cluster_rpc_url);
            Ok(Some(LeaderSyncTargets { next_leader_cluster_rpc_url, other_cluster_rpc_urls }))
        },
        None => Ok(None),
    }
}

/// Whom to tell about a change of leader: as for any next leader, except that
/// nothing is to be done when the leadership does not move, the next leader
/// being the current one.
pub fn plan_leader_change_sync(cluster: &Cluster, leader_change_message: &LeaderChangeMessage) -> (plan: Result<Option<LeaderSyncTargets>, Error>)
    requires
        leader_sync_plannable(*cluster, leader_change_message.next_leader_tx_orderer_address),
    ensures
        ({
            let next = leader_change_message.next_leader_tx_orderer_address;
            let others = other_cluster_rpc_urls(cluster.tx_orderer_rpc_infos@, cluster.tx_orderer_address);
            if others.len() > 0 && next@ == leader_change_message.current_leader_tx_orderer_address@ {
                plan matches Ok(None)
            } else {
                is_leader_sync_plan(*cluster, next, plan)
            }
        }),
{
    let plan = plan_leader_sync(cluster, &leader_change_message.next_leader_tx_orderer_address);
    match plan {
        Ok(Some(targets)) => {
            if leader_change_message.next_leader_tx_orderer_address.same_as(
                &leader_change_message.current_leader_tx_orderer_address,
            ) {
                Ok(None)
            } else {
                Ok(Some(targets))
            }
        },
        other => other,
    }
}

/// `run` is the run of epochs right after `last_batched_epoch` that are all in
/// `completed`, as long as it goes.
pub open spec fn is_consecutive_run(completed: Set<u64>, last_batched_epoch: u64, run: Seq<u64>) -> bool {
    &&& forall|i: int| 0 <= i < run.len() ==> run[i] == last_batched_epoch + 1 + i
    &&& forall|i: int| 0 <= i < run.len() ==> completed.contains(#[trigger] run[i])
    &&& last_batched_epoch + 1 + run.len() <= u64::MAX ==> !completed.contains(
        (last_batched_epoch + 1 + run.len()) as u64,
    )
}

/// The completed epochs that directly follow `last_batched_epoch` without a gap:
/// for completed epochs 1, 2, 3, 4, 5, 6, 7, 8, 10 and last batched epoch 6 they
/// are 7, 8.
pub fn get_consecutive_epochs(completed_epoch: &BTreeSet<u64>, last_batched_epoch: u64) -> (epochs: Vec<u64>)
    requires
        exists|e: u64| e > last_batched_epoch && !completed_epoch@.contains(e),
    ensures
        is_consecutive_run(completed_epoch@, last_batched_epoch, epochs@),
{
    let sorted = sorted_elements(completed_epoch);
    let ghost witness = choose|e: u64| e > last_batched_epoch && !completed_epoch@.contains(e);
    let mut result: Vec<u64> = Vec::new();
    let mut expected: u64 = last_batched_epoch + 1;
    let mut i: usize = 0;
    while i < sorted.len()
        invariant
            0 <= i <= sorted.len(),
            sorted@.to_set() == completed_epoch@,
            strictly_increasing(sorted@),
            witness > last_batched_epoch,
            !completed_epoch@.contains(witness),
            expected == last_batched_epoch + 1 + result.len(),
            expected <= witness,
            forall|j: int| 0 <= j < result.len() ==> result@[j] == last_batched_epoch + 1 + j,
            forall|j: int| 0 <= j < result.len() ==> completed_epoch@.contains(#[trigger] result@[j]),
            forall|j: int| 0 <= j < i ==> sorted@[j] < expected,
        decreases sorted.len() - i,
    {
        let epoch = sorted[i];
        assert(completed_epoch@.contains(epoch)) by {
            assert(sorted@.contains(epoch));
        }
        if epoch == expected {
            result.push(epoch);
            expected = expected + 1;
        } else if epoch > expected {
            proof {
                assert forall|j: int| 0 <= j < sorted.len() implies sorted@[j] != expected by {
                    if j > i {
                        assert(sorted@[j] > sorted@[i as int]);
                    }
                }
                assert(!completed_epoch@.contains(expected)) by {
                    if completed_epoch@.contains(expected) {
                        assert(sorted@.to_set().contains(expected));
                        let k = choose|k: int| 0 <= k < sorted.len() && sorted@[k] == expected;
                    }
                }
            }
            return result;
        }
        i = i + 1;
    }
    proof {
        assert(!completed_epoch@.contains(expected)) by {
            if completed_epoch@.contains(expected) {
                assert(sorted@.to_set().contains(expected));
                let k = choose|k: int| 0 <= k < sorted.len() && sorted@[k] == expected;
            }
        }
    }
    result
}

/// Walks the orders in increasing order, each read as an `i64`, starting from
/// `last`: an order right after the current last one extends it, a larger one
/// ends the walk, a smaller one is passed over.
pub open spec fn scan_last_valid(orders: Seq<u64>, last: int) -> int
    decreases orders.len(),
{
    if orders.len() == 0 {
        last
    } else if as_i64(orders[0]) == last + 1 {
        scan_last_valid(orders.drop_first(), last + 1)
    } else if as_i64(orders[0]) > last {
        last
    } else {
        scan_last_valid(orders.drop_first(), last)
    }
}

/// The walk of `scan_last_valid` never computes `last + 1` past `i64::MAX`.
pub open spec fn scan_stays_in_range(orders: Seq<u64>, last: int) -> bool
    decreases orders.len(),
{
    if orders.len() == 0 {
        true
    } else {
        &&& last < i64::MAX
        &&& if as_i64(orders[0]) == last + 1 {
            scan_stays_in_range(orders.drop_first(), last + 1)
        } else if as_i64(orders[0]) > last {
            true
        } else {
            scan_stays_in_range(orders.drop_first(), last)
        }
    }
}

/// The last transaction order up to which the orders that can be provided
/// follow `provided_transaction_order` without a gap.
pub fn get_last_valid_transaction_order(
    can_provide_transaction_orders: &BTreeSet<u64>,
    provided_transaction_order: i64,
) -> (last_valid: i64)
    requires
        scan_stays_in_range(
            sorted_seq(can_provide_transaction_orders@),
            provided_transaction_order as int,
        ),
    ensures
        last_valid == scan_last_valid(
            sorted_seq(can_provide_transaction_orders@),
            provided_transaction_order as int,
        ),
        strictly_increasing(sorted_seq(can_provide_transaction_orders@)),
{
    let sorted = sorted_elements(can_provide_transaction_orders);
    let mut last_valid_transaction_order: i64 = provided_transaction_order;
    let mut i: usize = 0;
    assert(sorted@.skip(0) =~= sorted@);
    while i < sorted.len()
        invariant
            0 <= i <= sorted.len(),
            sorted@ == sorted_seq(can_provide_transaction_orders@),
            strictly_increasing(sorted@),
            scan_last_valid(sorted@, provided_transaction_order as int) == scan_last_valid(
                sorted@.skip(i as int),
                last_valid_transaction_order as int,
            ),
            scan_stays_in_range(sorted@.skip(i as int), last_valid_transaction_order as int),
        decreases sorted.len() - i,
    {
        let transaction_order = wrap_to_i64(sorted[i]);
        assert(sorted@.skip(i as int).drop_first() =~= sorted@.skip(i + 1));
        if transaction_order == last_valid_transaction_order + 1 {
            last_valid_transaction_order = last_valid_transaction_order + 1;
        } else if transaction_order > last_valid_transaction_order {
            return last_valid_transaction_order;
        }
        i = i + 1;
    }
    last_valid_transaction_order
}

/// The raw texts of a batch's transactions from position `start_transaction_order`
/// on.
pub open spec fn texts_from(batch: Batch, start_transaction_order: int) -> Seq<Seq<char>> {
    let list = batch.raw_transaction_list@;
    if start_transaction_order >= list.len() {
        Seq::empty()
    } else {
        raw_texts(list.skip(start_transaction_order))
    }
}

/// The raw texts of the transactions of `batch` whose position is
/// `start_transaction_order` or later.
pub fn extract_raw_transactions(batch: Batch, start_transaction_order: u64) -> (texts: Vec<String>)
    ensures
        string_views(texts@) == texts_from(batch, start_transaction_order as int),
{
    let ghost whole = batch.raw_transaction_list@;
    let list = batch.raw_transaction_list;
    let mut texts: Vec<String> = Vec::new();
    let mut index: usize = 0;
    let length = list.len();
    while index < length
        invariant
            length == whole.len(),
            0 <= index <= length,
            list@.len() == length,
            forall|j: int| index <= j < length ==> list@[j] == whole[j],
            string_views(texts@) == (if start_transaction_order >= index {
                Seq::<Seq<char>>::empty()
            } else {
                raw_texts(whole.subrange(start_transaction_order as int, index as int))
            }),
        decreases length - index,
    {
        if index as u64 >= start_transaction_order {
            let ghost before = texts@;
            texts.push(list[index].to_data());
            proof {
                if start_transaction_order >= index {
                    assert(whole.subrange(start_transaction_order as int, index + 1) =~= seq![whole[index as int]]);
                } else {
                    assert(whole.subrange(start_transaction_order as int, index + 1) =~= whole.subrange(
                        start_transaction_order as int,
                        index as int,
                    ).push(whole[index as int]));
                }
                assert(string_views(texts@) =~= string_views(before).push(whole[index as int].data()));
                assert(string_views(texts@) =~= raw_texts(whole.subrange(start_transaction_order as int, index + 1)));
            }
        }
        index = index + 1;
    }
    proof {
        if start_transaction_order < length {
            assert(whole.subrange(start_transaction_order as int, length as int) =~= whole.skip(
                start_transaction_order as int,
            ));
        }
    }
    texts
}

/// The order after the last one fetched by `fetch_and_append_transactions`
/// when every fetch succeeds.
pub open spec fn fetch_end(start_transaction_order: u64, last_valid_transaction_order: i64) -> int {
    if last_valid_transaction_order < as_i64(start_transaction_order)
        || last_valid_transaction_order < start_transaction_order {
        start_transaction_order as int
    } else {
        last_valid_transaction_order + 1
    }
}

/// `after` is `before` followed by the raw texts of `fetched`, and each of
/// these is what `fetch` gave, in order, for the orders from `start`.
pub open spec fn fetched_and_appended<F, E>(
    fetch: F,
    rollup_id: &RollupId,
    batch_number: u64,
    start: u64,
    before: Seq<String>,
    after: Seq<String>,
    fetched: Seq<RawTransaction>,
) -> bool where F: Fn(&RollupId, u64, u64) -> Result<RawTransaction, E> {
    &&& after.len() == before.len() + fetched.len()
    &&& after.take(before.len() as int) == before
    &&& forall|i: int|
        0 <= i < fetched.len() ==> call_ensures(
            fetch,
            (rollup_id, batch_number, (start + i) as u64),
            Ok::<RawTransaction, E>(#[trigger] fetched[i]),
        ) && fetched[i].data() == after[before.len() + i]@
}

/// The fetches for the orders from `start` succeeded and were appended up to
/// the one that failed with `error`, which comes before the end.
pub open spec fn fetch_stopped_at_error<F, E>(
    fetch: F,
    rollup_id: &RollupId,
    batch_number: u64,
    start: u64,
    last_valid_transaction_order: i64,
    before: Seq<String>,
    after: Seq<String>,
    fetched: Seq<RawTransaction>,
    error: E,
) -> bool where F: Fn(&RollupId, u64, u64) -> Result<RawTransaction, E> {
    &&& fetched_and_appended(fetch, rollup_id, batch_number, start, before, after, fetched)
    &&& fetched.len() < fetch_end(start, last_valid_transaction_order) - start
    &&& call_ensures(
        fetch,
        (rollup_id, batch_number, (start + fetched.len()) as u64),
        Err::<RawTransaction, E>(error),
    )
}

/// Appends to `raw_transaction_list` the raw texts of the transactions of batch
/// `batch_number` at orders `start_transaction_order` through
/// `last_valid_transaction_order`, fetched one by one in order; the first fetch
/// that fails ends the work with its error. Nothing is fetched when the last
/// valid order comes before the start.
pub fn fetch_and_append_transactions<F, E>(
    rollup_id: &RollupId,
    batch_number: u64,
    start_transaction_order: u64,
    last_valid_transaction_order: i64,
    raw_transaction_list: &mut Vec<String>,
    fetch: F,
) -> (result: Result<(), E>) where F: Fn(&RollupId, u64, u64) -> Result<RawTransaction, E>
    requires
        !(as_i64(start_transaction_order) <= last_valid_transaction_order < 0),
        forall|order: u64|
            start_transaction_order <= order <= last_valid_transaction_order ==> call_requires(
                fetch,
                (rollup_id, batch_number, order),
            ),
    ensures
        result is Ok ==> exists|fetched: Seq<RawTransaction>|
            fetched_and_appended(
                fetch,
                rollup_id,
                batch_number,
                start_transaction_order,
                old(raw_transaction_list)@,
                final(raw_transaction_list)@,
                fetched,
            ) && fetched.len() == fetch_end(start_transaction_order, last_valid_transaction_order)
                - start_transaction_order,
        result matches Err(e) ==> exists|fetched: Seq<RawTransaction>|
            fetch_stopped_at_error(
                fetch,
                rollup_id,
                batch_number,
                start_transaction_order,
                last_valid_transaction_order,
                old(raw_transaction_list)@,
                final(raw_transaction_list)@,
                fetched,
                e,
            ),
{
    let ghost initial = raw_transaction_list@;
    if last_valid_transaction_order < wrap_to_i64(start_transaction_order) {
        proof {
            assert(initial.take(initial.len() as int) =~= initial);
            assert(fetched_and_appended(
                fetch,
                rollup_id,
                batch_number,
                start_transaction_order,
                initial,
                raw_transaction_list@,
                Seq::<RawTransaction>::empty(),
            ));
        }
        return Ok(());
    }
    let last: u64 = last_valid_transaction_order as u64;
    if start_transaction_order > last {
        proof {
            assert(initial.take(initial.len() as int) =~= initial);
            assert(fetched_and_appended(
                fetch,
                rollup_id,
                batch_number,
                start_transaction_order,
                initial,
                raw_transaction_list@,
                Seq::<RawTransaction>::empty(),
            ));
        }
        return Ok(());
    }
    let ghost mut fetched_list: Seq<RawTransaction> = Seq::empty();
    let mut order: u64 = start_transaction_order;
    proof {
        assert(initial.take(initial.len() as int) =~= initial);
    }
    while order <= last
        invariant
            last == last_valid_transaction_order,
            initial == old(raw_transaction_list)@,
            start_transaction_order <= order <= last + 1,
            fetched_list.len() == order - start_transaction_order,
            forall|order: u64|
                start_transaction_order <= order <= last_valid_transaction_order ==> call_requires(
                    fetch,
                    (rollup_id, batch_number, order),
                ),
            fetched_and_appended(
                fetch,
                rollup_id,
                batch_number,
                start_transaction_order,
                initial,
                raw_transaction_list@,
                fetched_list,
            ),
        decreases last + 1 - order,
    {
        let fetched = fetch(rollup_id, batch_number, order);
        proof {
            assert((start_transaction_order + fetched_list.len()) as u64 == order);
        }
        match fetched {
            Ok(transaction) => {
                let ghost before = raw_transaction_list@;
                proof {
                    fetched_list = fetched_list.push(transaction);
                }
                raw_transaction_list.push(transaction.into_data());
                proof {
                    assert(raw_transaction_list@.take(initial.len() as int) =~= before.take(
                        initial.len() as int,
                    ));
                    assert forall|i: int| 0 <= i < fetched_list.len() implies call_ensures(
                        fetch,
                        (rollup_id, batch_number, (start_transaction_order + i) as u64),
                        Ok::<RawTransaction, E>(#[trigger] fetched_list[i]),
                    ) && fetched_list[i].data() == raw_transaction_list@[initial.len() + i]@ by {
                        if i < fetched_list.len() - 1 {
                            assert(raw_transaction_list@[initial.len() + i] == before[initial.len() + i]);
                        }
                    }
                }
                if order == u64::MAX {
                    proof {
                        assert(fetched_and_appended(
                            fetch,
                            rollup_id,
                            batch_number,
                            start_transaction_order,
                            initial,
                            raw_transaction_list@,
                            fetched_list,
                        ));
                    }
                    return Ok(());
                }
                order = order + 1;
            },
            Err(error) => {
                proof {
                    assert(call_ensures(
                        fetch,
                        (rollup_id, batch_number, (start_transaction_order + fetched_list.len()) as u64),
                        Err::<RawTransaction, E>(error),
                    ));
                    assert(fetched_list.len() < fetch_end(start_transaction_order, last_valid_transaction_order)
                        - start_transaction_order);
                    assert(fetch_stopped_at_error(
                        fetch,
                        rollup_id,
                        batch_number,
                        start_transaction_order,
                        last_valid_transaction_order,
                        initial,
                        raw_transaction_list@,
                        fetched_list,
                        error,
                    ));
                }
                let result: Result<(), E> = Err(error);
                assert(initial == old(raw_transaction_list)@);
                assert(raw_transaction_list@ == final(raw_transaction_list)@);
                assert(result->Err_0 == error);
                assert(fetch_stopped_at_error(
                        fetch,
                        rollup_id,
                        batch_number,
                        start_transaction_order,
                        last_valid_transaction_order,
                        old(raw_transaction_list)@,
                        final(raw_transaction_list)@,
                        fetched_list,
                        result->Err_0,
                    ));
                assert(exists|fetched: Seq<RawTransaction>|
                    fetch_stopped_at_error(
                        fetch,
                        rollup_id,
                        batch_number,
                        start_transaction_order,
                        last_valid_transaction_order,
                        old(raw_transaction_list)@,
                        final(raw_transaction_list)@,
                        fetched,
                        result->Err_0,
                    ));
                return result;
            },
        }
    }
    proof {
        assert(fetched_and_appended(
            fetch,
            rollup_id,
            batch_number,
            start_transaction_order,
            initial,
            raw_transaction_list@,
            fetched_list,
        ));
    }
    Ok(())
}

/// The raw texts of consecutive stored batches: the first from position
/// `first_start` on, the others whole.
pub open spec fn texts_of_batches(batches: Seq<Batch>, first_start: int) -> Seq<Seq<char>>
    decreases batches.len(),
{
    if batches.len() == 0 {
        Seq::empty()
    } else {
        texts_from(batches[0], first_start) + texts_of_batches(batches.drop_first(), 0)
    }
}

/// Gathers what has not been provided yet from the stored batches that follow
/// one another from `provided_batch_number` on: the first from the order after
/// `provided_transaction_order`, the others whole. Returns their raw texts and
/// the position provided after them: the batch after the last one, before its
/// first order; or the position given when there is no batch.
pub fn provided_transactions_from_batches(
    batches: Vec<Batch>,
    provided_batch_number: u64,
    provided_transaction_order: i64,
) -> (provided: (Vec<String>, u64, i64))
    requires
        batches.len() > 0 ==> provided_transaction_order < i64::MAX,
        provided_batch_number + batches.len() <= u64::MAX,
    ensures
        string_views(provided.0@) == texts_of_batches(
            batches@,
            as_u64((provided_transaction_order + 1) as i64),
        ),
        provided.1 == provided_batch_number + batches.len(),
        provided.2 == (if batches.len() == 0 {
            provided_transaction_order
        } else {
            -1i64
        }),
{
    let ghost all = batches@;
    let ghost first_start = as_u64((provided_transaction_order + 1) as i64);
    let count = batches.len();
    let mut rest = batches;
    let mut texts: Vec<String> = Vec::new();
    let mut current_batch_number = provided_batch_number;
    let mut current_transaction_order = provided_transaction_order;
    let mut index: usize = 0;
    proof {
        assert(all.skip(0) =~= all);
        assert(string_views(texts@) =~= Seq::<Seq<char>>::empty());
    }
    while index < count
        invariant
            count == all.len(),
            0 <= index <= count,
            rest@ == all.skip(index as int),
            provided_batch_number + count <= u64::MAX,
            count > 0 ==> provided_transaction_order < i64::MAX,
            first_start == as_u64((provided_transaction_order + 1) as i64),
            current_batch_number == provided_batch_number + index,
            current_transaction_order == (if index == 0 {
                provided_transaction_order
            } else {
                -1i64
            }),
            string_views(texts@) + texts_of_batches(
                rest@,
                if index == 0 {
                    first_start
                } else {
                    0
                },
            ) == texts_of_batches(all, first_start),
        decreases count - index,
    {
        let start_transaction_order: i64 = if current_batch_number == provided_batch_number {
            current_transaction_order + 1
        } else {
            0
        };
        let ghost rest_before = rest@;
        let batch = rest.remove(0);
        proof {
            assert(rest@ =~= all.skip(index + 1));
            assert(rest_before.drop_first() =~= rest@);
        }
        let mut extracted = extract_raw_transactions(batch, wrap_to_u64(start_transaction_order));
        let ghost before = texts@;
        let ghost extracted_view = extracted@;
        texts.append(&mut extracted);
        proof {
            assert(texts@ =~= before + extracted_view);
            assert(string_views(texts@) =~= string_views(before) + string_views(extracted_view));
            assert(string_views(texts@) + texts_of_batches(rest@, 0) =~= string_views(before)
                + texts_of_batches(rest_before, if index == 0 { first_start } else { 0 }));
        }
        current_batch_number = current_batch_number + 1;
        current_transaction_order = -1;
        index = index + 1;
    }
    proof {
        assert(string_views(texts@) + Seq::<Seq<char>>::empty() =~= string_views(texts@));
    }
    (texts, current_batch_number, current_transaction_order)
}

/// The position provided after handing out the orders of batch `batch_number`
/// up to `last_valid_transaction_order`: that order, or the next batch before its
/// first order when it was the batch's last.
pub fn advance_provided_position(
    batch_number: u64,
    last_valid_transaction_order: i64,
    max_transaction_count_per_batch: u64,
) -> (position: (u64, i64))
    requires
        max_transaction_count_per_batch != 0x8000_0000_0000_0000,
        last_valid_transaction_order == as_i64(max_transaction_count_per_batch) - 1
            ==> batch_number < u64::MAX,
    ensures
        position == (if last_valid_transaction_order == as_i64(max_transaction_count_per_batch)
            - 1 {
            ((batch_number + 1) as u64, -1i64)
        } else {
            (batch_number, last_valid_transaction_order)
        }),
{
    if last_valid_transaction_order == wrap_to_i64(max_transaction_count_per_batch) - 1 {
        (batch_number + 1, -1)
    } else {
        (batch_number, last_valid_transaction_order)
    }
}

/// The position provided before the first order of a batch.
pub open spec fn start_of_unprovided(
    batch_count: nat,
    provided_batch_number: u64,
    provided_transaction_order: i64,
) -> (u64, i64) {
    if batch_count == 0 {
        (provided_batch_number, provided_transaction_order)
    } else {
        ((provided_batch_number + batch_count) as u64, -1i64)
    }
}

/// The position provided after handing out the orders of batch `batch_number`
/// up to `last_valid`.
pub open spec fn position_after(batch_number: u64, last_valid: i64, max: u64) -> (u64, i64) {
    if last_valid == as_i64(max) - 1 {
        ((batch_number + 1) as u64, -1i64)
    } else {
        (batch_number, last_valid)
    }
}

/// The walk of `scan_last_valid` never ends before where it starts.
proof fn lemma_scan_keeps_its_start(orders: Seq<u64>, last: int)
    ensures
        last <= scan_last_valid(orders, last),
    decreases orders.len(),
{
    if orders.len() > 0 {
        if as_i64(orders[0]) == last + 1 {
            lemma_scan_keeps_its_start(orders.drop_first(), last + 1);
        } else if as_i64(orders[0]) <= last {
            lemma_scan_keeps_its_start(orders.drop_first(), last);
        }
    }
}

/// `list` is texts whose views are `handed`, followed by the raw texts of the
/// orders from `start` through `last_valid` of batch `batch_number`, each what
/// `fetch` gave.
pub open spec fn handed_then_fetched<F, E>(
    fetch: F,
    rollup_id: &RollupId,
    batch_number: u64,
    start: u64,
    last_valid: i64,
    handed: Seq<Seq<char>>,
    list: Seq<String>,
) -> bool where F: Fn(&RollupId, u64, u64) -> Result<RawTransaction, E> {
    exists|before: Seq<String>, fetched: Seq<RawTransaction>|
        string_views(before) == handed && #[trigger] fetched_and_appended(
            fetch,
            rollup_id,
            batch_number,
            start,
            before,
            list,
            fetched,
        ) && fetched.len() == fetch_end(start, last_valid) - start
}

/// After texts whose views are `handed`, the fetches of the orders from `start`
/// of batch `batch_number` succeeded up to one that failed with `error`, before
/// `last_valid` was passed.
pub open spec fn handed_then_stopped<F, E>(
    fetch: F,
    rollup_id: &RollupId,
    batch_number: u64,
    start: u64,
    last_valid: i64,
    handed: Seq<Seq<char>>,
    error: E,
) -> bool where F: Fn(&RollupId, u64, u64) -> Result<RawTransaction, E> {
    exists|before: Seq<String>, after: Seq<String>, fetched: Seq<RawTransaction>|
        string_views(before) == handed && #[trigger] fetch_stopped_at_error(
            fetch,
            rollup_id,
            batch_number,
            start,
            last_valid,
            before,
            after,
            fetched,
            error,
        )
}

/// Whether position `a` (batch number, order in the batch) comes before `b`.
pub open spec fn cursor_before(a: (int, int), b: (int, int)) -> bool {
    a.0 < b.0 || (a.0 == b.0 && a.1 < b.1)
}

/// A request that moves the provided cursor from `old` to `new` hands out the
/// positions `positions`: each comes after `old` and not after `new`, in
/// increasing order, and the cursor does not move back.
pub open spec fn hands_out(old: (int, int), new: (int, int), positions: Seq<(int, int)>) -> bool {
    &&& !cursor_before(new, old)
    &&& forall|i: int|
        0 <= i < positions.len() ==> cursor_before(old, #[trigger] positions[i]) && !cursor_before(
            new,
            positions[i],
        )
    &&& forall|i: int, j: int|
        0 <= i < j < positions.len() ==> cursor_before(#[trigger] positions[i], #[trigger] positions[j])
}

/// The positions of batch `batch_number` from order `start` up to, not
/// including, `end`.
pub open spec fn positions_in_batch(batch_number: int, start: int, end: int) -> Seq<(int, int)> {
    Seq::new(
        if start < end {
            (end - start) as nat
        } else {
            0
        },
        |i: int| (batch_number, start + i),
    )
}

/// The positions of the transactions of consecutive stored batches from
/// `batch_number` on: the first from order `first_start`, the others whole.
pub open spec fn batch_positions(batches: Seq<Batch>, batch_number: int, first_start: int) -> Seq<(int, int)>
    decreases batches.len(),
{
    if batches.len() == 0 {
        Seq::empty()
    } else {
        positions_in_batch(batch_number, first_start, batches[0].raw_transaction_list@.len() as int)
            + batch_positions(batches.drop_first(), batch_number + 1, 0)
    }
}

/// The positions of the transactions `unprovided_transactions` hands out, one
/// per text, in order: those of the stored batches, then the fetched orders of
/// the batch after them.
pub open spec fn handed_positions(
    batches: Seq<Batch>,
    provided_batch_number: u64,
    provided_transaction_order: i64,
    can_provide_orders: Option<Set<u64>>,
) -> Seq<(int, int)> {
    let (batch_number, order) = start_of_unprovided(
        batches.len(),
        provided_batch_number,
        provided_transaction_order,
    );
    let start = as_u64((order + 1) as i64);
    batch_positions(batches, provided_batch_number as int, as_u64((provided_transaction_order + 1) as i64))
        + match can_provide_orders {
        None => Seq::empty(),
        Some(orders) => positions_in_batch(
            batch_number as int,
            start,
            fetch_end(
                start as u64,
                scan_last_valid(sorted_seq(orders), order as int) as i64,
            ),
        ),
    }
}

/// The stored batches hand out one position per text.
proof fn lemma_batch_positions_len(batches: Seq<Batch>, batch_number: int, first_start: int)
    requires
        first_start >= 0,
    ensures
        batch_positions(batches, batch_number, first_start).len() == texts_of_batches(
            batches,
            first_start,
        ).len(),
    decreases batches.len(),
{
    if batches.len() > 0 {
        lemma_batch_positions_len(batches.drop_first(), batch_number + 1, 0);
    }
}

/// The positions of the stored batches lie in those batches, after
/// `first_start` in the first one, in increasing order.
proof fn lemma_batch_positions_range(batches: Seq<Batch>, batch_number: int, first_start: int)
    requires
        first_start >= 0,
    ensures
        ({
            let ps = batch_positions(batches, batch_number, first_start);
            &&& forall|i: int|
                0 <= i < ps.len() ==> {
                    &&& batch_number <= (#[trigger] ps[i]).0 < batch_number + batches.len()
                    &&& ps[i].1 >= 0
                    &&& ps[i].0 == batch_number ==> ps[i].1 >= first_start
                }
            &&& forall|i: int, j: int|
                0 <= i < j < ps.len() ==> cursor_before(#[trigger] ps[i], #[trigger] ps[j])
        }),
    decreases batches.len(),
{
    if batches.len() > 0 {
        let rest = batches.drop_first();
        lemma_batch_positions_range(rest, batch_number + 1, 0);
        let head = positions_in_batch(
            batch_number,
            first_start,
            batches[0].raw_transaction_list@.len() as int,
        );
        let tail = batch_positions(rest, batch_number + 1, 0);
        let ps = batch_positions(batches, batch_number, first_start);
        assert(ps == head + tail);
        assert forall|i: int| 0 <= i < ps.len() implies {
            &&& batch_number <= (#[trigger] ps[i]).0 < batch_number + batches.len()
            &&& ps[i].1 >= 0
            &&& ps[i].0 == batch_number ==> ps[i].1 >= first_start
        } by {
            if i >= head.len() {
                assert(ps[i] == tail[i - head.len()]);
            }
        }
        assert forall|i: int, j: int| 0 <= i < j < ps.len() implies cursor_before(
            #[trigger] ps[i],
            #[trigger] ps[j],
        ) by {
            if j < head.len() {
            } else if i < head.len() {
                assert(ps[j] == tail[j - head.len()]);
            } else {
                assert(ps[i] == tail[i - head.len()]);
                assert(ps[j] == tail[j - head.len()]);
            }
        }
    }
}

/// One request hands out its positions after the old cursor and up to the new
/// one, in increasing order.
proof fn lemma_unprovided_hands_out(
    batches: Seq<Batch>,
    provided_batch_number: u64,
    provided_transaction_order: i64,
    can_provide_orders: Option<Set<u64>>,
    max_transaction_count_per_batch: u64,
    last_valid: i64,
    new_cursor: (u64, i64),
)
    requires
        -1 <= provided_transaction_order,
        batches.len() > 0 ==> provided_transaction_order < i64::MAX,
        provided_batch_number + batches.len() <= u64::MAX,
        ({
            let (batch_number, order) = start_of_unprovided(
                batches.len(),
                provided_batch_number,
                provided_transaction_order,
            );
            match can_provide_orders {
                None => new_cursor == (batch_number, order),
                Some(orders) => {
                    &&& last_valid == scan_last_valid(sorted_seq(orders), order as int)
                    &&& order < i64::MAX
                    &&& order <= last_valid
                    &&& last_valid == as_i64(max_transaction_count_per_batch) - 1 ==> batch_number
                        < u64::MAX
                    &&& new_cursor == position_after(
                        batch_number,
                        last_valid,
                        max_transaction_count_per_batch,
                    )
                },
            }
        }),
    ensures
        hands_out(
            (provided_batch_number as int, provided_transaction_order as int),
            (new_cursor.0 as int, new_cursor.1 as int),
            handed_positions(batches, provided_batch_number, provided_transaction_order, can_provide_orders),
        ),
{
    let old = (provided_batch_number as int, provided_transaction_order as int);
    let new = (new_cursor.0 as int, new_cursor.1 as int);
    let (batch_number, order) = start_of_unprovided(
        batches.len(),
        provided_batch_number,
        provided_transaction_order,
    );
    let first_start = as_u64((provided_transaction_order + 1) as i64);
    let stored = batch_positions(batches, provided_batch_number as int, first_start);
    lemma_batch_positions_range(batches, provided_batch_number as int, first_start);
    let start = as_u64((order + 1) as i64);
    let fetched = match can_provide_orders {
        None => Seq::<(int, int)>::empty(),
        Some(orders) => positions_in_batch(
            batch_number as int,
            start,
            fetch_end(start as u64, scan_last_valid(sorted_seq(orders), order as int) as i64),
        ),
    };
    let all = handed_positions(batches, provided_batch_number, provided_transaction_order, can_provide_orders);
    assert(all == stored + fetched);
    let n = stored.len();
    if batches.len() > 0 {
        assert(first_start == provided_transaction_order + 1);
    } else {
        assert(stored.len() == 0);
    }
    assert(!cursor_before(new, (batch_number as int, order as int)));
    assert(!cursor_before(new, old));
    if can_provide_orders is Some {
        assert(start == order + 1);
        assert(as_i64(start as u64) == start);
    }
    assert forall|i: int| 0 <= i < all.len() implies cursor_before(old, #[trigger] all[i])
        && !cursor_before(new, all[i]) by {
        if i < n {
            assert(all[i] == stored[i]);
        } else {
            assert(all[i] == fetched[i - n]);
            assert(all[i] == (batch_number as int, start + (i - n)));
            assert(all[i].1 <= last_valid);
        }
    }
    assert forall|i: int, j: int| 0 <= i < j < all.len() implies cursor_before(
        #[trigger] all[i],
        #[trigger] all[j],
    ) by {
        if j < n {
            assert(all[i] == stored[i]);
            assert(all[j] == stored[j]);
        } else if i < n {
            assert(all[i] == stored[i]);
            assert(all[j] == fetched[j - n]);
        } else {
            assert(all[i] == fetched[i - n]);
            assert(all[j] == fetched[j - n]);
        }
    }
}

/// Two successive requests, the second starting at the cursor the first left,
/// together hand out positions in increasing order from the first cursor to
/// the last: no position is handed out twice.
pub proof fn lemma_successive_requests_hand_out_each_position_once(
    first_cursor: (int, int),
    second_cursor: (int, int),
    third_cursor: (int, int),
    first_positions: Seq<(int, int)>,
    second_positions: Seq<(int, int)>,
)
    requires
        hands_out(first_cursor, second_cursor, first_positions),
        hands_out(second_cursor, third_cursor, second_positions),
    ensures
        hands_out(first_cursor, third_cursor, first_positions + second_positions),
        forall|i: int, j: int|
            0 <= i < first_positions.len() && 0 <= j < second_positions.len() ==> #[trigger] first_positions[i]
                != #[trigger] second_positions[j],
{
    let all = first_positions + second_positions;
    let n = first_positions.len();
    assert forall|i: int| 0 <= i < all.len() implies cursor_before(first_cursor, #[trigger] all[i])
        && !cursor_before(third_cursor, all[i]) by {
        if i >= n {
            assert(all[i] == second_positions[i - n]);
        }
    }
    assert forall|i: int, j: int| 0 <= i < j < all.len() implies cursor_before(
        #[trigger] all[i],
        #[trigger] all[j],
    ) by {
        if j < n {
        } else if i < n {
            assert(all[j] == second_positions[j - n]);
            assert(cursor_before(second_cursor, second_positions[j - n]));
        } else {
            assert(all[i] == second_positions[i - n]);
            assert(all[j] == second_positions[j - n]);
        }
    }
    assert forall|i: int, j: int|
        0 <= i < first_positions.len() && 0 <= j < second_positions.len() implies #[trigger] first_positions[i]
            != #[trigger] second_positions[j] by {
        assert(cursor_before(second_cursor, second_positions[j]));
    }
}

/// What `unprovided_transactions` gives: see there.
pub open spec fn unprovided_outcome<F, E>(
    rollup_id: &RollupId,
    batches: Seq<Batch>,
    provided_batch_number: u64,
    provided_transaction_order: i64,
    can_provide_orders: Option<Set<u64>>,
    max_transaction_count_per_batch: u64,
    fetch: F,
    gathered: Result<(Vec<String>, u64, i64), E>,
) -> bool where F: Fn(&RollupId, u64, u64) -> Result<RawTransaction, E> {
    let (batch_number, order) = start_of_unprovided(
        batches.len(),
        provided_batch_number,
        provided_transaction_order,
    );
    let start = as_u64((order + 1) as i64) as u64;
    let handed_from_batches = texts_of_batches(
        batches,
        as_u64((provided_transaction_order + 1) as i64),
    );
    match gathered {
        Ok((list, new_batch_number, new_order)) => match can_provide_orders {
            None => {
                &&& string_views(list@) == handed_from_batches
                &&& (new_batch_number, new_order) == (batch_number, order)
            },
            Some(orders) => {
                let last_valid = scan_last_valid(sorted_seq(orders), order as int);
                &&& handed_then_fetched(
                    fetch,
                    rollup_id,
                    batch_number,
                    start,
                    last_valid as i64,
                    handed_from_batches,
                    list@,
                )
                &&& (new_batch_number, new_order) == position_after(
                    batch_number,
                    last_valid as i64,
                    max_transaction_count_per_batch,
                )
                &&& order <= last_valid
            },
        },
        Err(e) => can_provide_orders matches Some(orders) && handed_then_stopped(
            fetch,
            rollup_id,
            batch_number,
            start,
            scan_last_valid(sorted_seq(orders), order as int) as i64,
            handed_from_batches,
            e,
        ),
    }
}

/// Gathers everything not provided yet, from the position
/// `(provided_batch_number, provided_transaction_order)` on: the stored batches
/// that follow one another from `provided_batch_number` (the first from the order
/// after the provided one, the others whole), then, in the batch after them,
/// the orders that can be provided and follow the position reached without a
/// gap, each fetched by `fetch`. Returns the raw texts, in that order, and the
/// new provided position; the first fetch that fails ends the work with its
/// error.
///
/// The texts are exactly those of the positions after the old provided position
/// up to the new one, and the new position never comes before the old one.
pub fn unprovided_transactions<F, E>(
    rollup_id: &RollupId,
    batches: Vec<Batch>,
    provided_batch_number: u64,
    provided_transaction_order: i64,
    can_provide_orders: Option<&BTreeSet<u64>>,
    max_transaction_count_per_batch: u64,
    fetch: F,
) -> (gathered: Result<(Vec<String>, u64, i64), E>) where
    F: Fn(&RollupId, u64, u64) -> Result<RawTransaction, E>,

    requires
        batches.len() > 0 ==> provided_transaction_order < i64::MAX,
        provided_batch_number + batches.len() <= u64::MAX,
        ({
            let (batch_number, order) = start_of_unprovided(
                batches.len() as nat,
                provided_batch_number,
                provided_transaction_order,
            );
            let start = as_u64((order + 1) as i64) as u64;
            can_provide_orders matches Some(orders) ==> {
                let last_valid = scan_last_valid(sorted_seq(orders@), order as int);
                &&& scan_stays_in_range(sorted_seq(orders@), order as int)
                &&& order < i64::MAX
                &&& !(as_i64(start) <= last_valid < 0)
                &&& forall|o: u64|
                    start <= o <= last_valid ==> call_requires(fetch, (rollup_id, batch_number, o))
                &&& max_transaction_count_per_batch != 0x8000_0000_0000_0000
                &&& last_valid == as_i64(max_transaction_count_per_batch) - 1 ==> batch_number
                    < u64::MAX
            }
        }),
    ensures
        unprovided_outcome(
            rollup_id,
            batches@,
            provided_batch_number,
            provided_transaction_order,
            match can_provide_orders {
                Some(orders) => Some(orders@),
                None => None,
            },
            max_transaction_count_per_batch,
            fetch,
            gathered,
        ),
        gathered matches Ok((list, new_batch_number, new_order)) ==> {
            let positions = handed_positions(
                batches@,
                provided_batch_number,
                provided_transaction_order,
                match can_provide_orders {
                    Some(orders) => Some(orders@),
                    None => None,
                },
            );
            &&& positions.len() == list@.len()
            &&& -1 <= provided_transaction_order ==> hands_out(
                (provided_batch_number as int, provided_transaction_order as int),
                (new_batch_number as int, new_order as int),
                positions,
            )
        },
{
    let count = batches.len();
    let (mut list, batch_number, order) = provided_transactions_from_batches(
        batches,
        provided_batch_number,
        provided_transaction_order,
    );
    let ghost first_start = as_u64((provided_transaction_order + 1) as i64);
    proof {
        lemma_batch_positions_len(batches@, provided_batch_number as int, first_start);
    }
    match can_provide_orders {
        None => {
            proof {
                if -1 <= provided_transaction_order {
                    lemma_unprovided_hands_out(
                        batches@,
                        provided_batch_number,
                        provided_transaction_order,
                        None,
                        max_transaction_count_per_batch,
                        0,
                        (batch_number, order),
                    );
                }
            }
            Ok((list, batch_number, order))
        },
        Some(orders) => {
            let ghost handed = texts_of_batches(
                batches@,
                as_u64((provided_transaction_order + 1) as i64),
            );
            let last_valid = get_last_valid_transaction_order(orders, order);
            let ghost before = list@;
            let start = wrap_to_u64(order + 1);
            assert(batch_number == start_of_unprovided(count as nat, provided_batch_number, provided_transaction_order).0);
            let fetched = fetch_and_append_transactions(
                rollup_id,
                batch_number,
                start,
                last_valid,
                &mut list,
                fetch,
            );
            proof {
                lemma_scan_keeps_its_start(sorted_seq(orders@), order as int);
                if order >= -1 {
                    lemma_last_valid_ends_the_run(sorted_seq(orders@), order as int);
                }
            }
            match fetched {
                Ok(()) => {
                    proof {
                        let f = choose|f: Seq<RawTransaction>|
                            fetched_and_appended(fetch, rollup_id, batch_number, start, before, list@, f)
                                && f.len() == fetch_end(start, last_valid) - start;
                        assert(string_views(before) == handed
                            && fetched_and_appended(fetch, rollup_id, batch_number, start, before, list@, f)
                            && f.len() == fetch_end(start, last_valid) - start);
                    }
                    let (new_batch_number, new_order) = advance_provided_position(
                        batch_number,
                        last_valid,
                        max_transaction_count_per_batch,
                    );
                    assert(handed_then_fetched::<F, E>(fetch, rollup_id, batch_number, start, last_valid, handed, list@));
                    proof {
                        if -1 <= provided_transaction_order {
                            lemma_unprovided_hands_out(
                                batches@,
                                provided_batch_number,
                                provided_transaction_order,
                                Some(orders@),
                                max_transaction_count_per_batch,
                                last_valid,
                                (new_batch_number, new_order),
                            );
                        }
                    }
                    Ok((list, new_batch_number, new_order))
                },
                Err(error) => {
                    proof {
                        let f = choose|f: Seq<RawTransaction>|
                            fetch_stopped_at_error(
                                fetch,
                                rollup_id,
                                batch_number,
                                start,
                                last_valid,
                                before,
                                list@,
                                f,
                                error,
                            );
                        assert(string_views(before) == handed && fetch_stopped_at_error(
                            fetch,
                            rollup_id,
                            batch_number,
                            start,
                            last_valid,
                            before,
                            list@,
                            f,
                            error,
                        ));
                    }
                    assert(handed_then_stopped(fetch, rollup_id, batch_number, start, last_valid, handed, error));
                    Err(error)
                },
            }
        },
    }
}

/// Appends, after the transactions handed out, the backrunning transactions that
/// the MEV searchers sent back, searcher by searcher, in order.
pub fn append_backrunning_transactions(
    raw_transaction_list: &mut Vec<String>,
    backrunning_transaction_lists: Vec<Vec<String>>,
)
    ensures
        final(raw_transaction_list)@ == old(raw_transaction_list)@ + backrunning_transaction_lists@.map_values(
            |l: Vec<String>| l@,
        ).flatten(),
{
    let ghost lists = backrunning_transaction_lists@.map_values(|l: Vec<String>| l@);
    let ghost initial = raw_transaction_list@;
    let mut i: usize = 0;
    let n = backrunning_transaction_lists.len();
    while i < n
        invariant
            n == backrunning_transaction_lists@.len(),
            lists == backrunning_transaction_lists@.map_values(|l: Vec<String>| l@),
            0 <= i <= n,
            raw_transaction_list@ == initial + lists.take(i as int).flatten(),
        decreases n - i,
    {
        let list = &backrunning_transaction_lists[i];
        let mut j: usize = 0;
        let ghost at_start = raw_transaction_list@;
        while j < list.len()
            invariant
                0 <= j <= list@.len(),
                raw_transaction_list@ == at_start + list@.take(j as int),
            decreases list.len() - j,
        {
            raw_transaction_list.push(list[j].clone());
            proof {
                assert(list@.take(j + 1) =~= list@.take(j as int).push(list@[j as int]));
            }
            j = j + 1;
        }
        proof {
            assert(list@.take(j as int) =~= list@);
            assert(lists.take(i + 1) =~= lists.take(i as int).push(lists[i as int]));
            lists.take(i as int).lemma_flatten_push(lists[i as int]);
            assert(lists[i as int] == list@);
        }
        i = i + 1;
    }
    proof {
        assert(lists.take(n as int) =~= lists);
    }
}

/// The position after `(batch_number, transaction_order)`: the next order, or
/// the next batch at order zero when the current one becomes full.
pub open spec fn next_position(batch_number: int, transaction_order: int, max: int) -> (int, int) {
    if transaction_order + 1 == max {
        (batch_number + 1, 0)
    } else {
        (batch_number, transaction_order + 1)
    }
}

/// The position reached after `steps` transactions have been placed from
/// `(batch_number, transaction_order)`.
pub open spec fn advance_position(batch_number: int, transaction_order: int, max: int, steps: nat) -> (int, int)
    decreases steps,
{
    if steps == 0 {
        (batch_number, transaction_order)
    } else {
        let next = next_position(batch_number, transaction_order, max);
        advance_position(next.0, next.1, max, (steps - 1) as nat)
    }
}

/// Placing `steps` transactions from the position never counts an order or a
/// batch number past `u64::MAX`.
pub open spec fn advance_in_range(batch_number: int, transaction_order: int, max: int, steps: nat) -> bool
    decreases steps,
{
    if steps == 0 {
        true
    } else {
        &&& transaction_order < u64::MAX
        &&& transaction_order + 1 == max ==> batch_number < u64::MAX
        &&& advance_in_range(
            next_position(batch_number, transaction_order, max).0,
            next_position(batch_number, transaction_order, max).1,
            max,
            (steps - 1) as nat,
        )
    }
}

/// How many epochs at the front have all their transactions stored.
pub open spec fn stored_prefix_len(fully_stored: Seq<bool>) -> nat
    decreases fully_stored.len(),
{
    if fully_stored.len() == 0 || !fully_stored[0] {
        0
    } else {
        1 + stored_prefix_len(fully_stored.drop_first())
    }
}

/// The transactions of the first `k` epochs as (epoch, order in the epoch), in
/// order.
pub open spec fn epoch_transactions(epochs: Seq<u64>, counts: Seq<u64>, k: nat) -> Seq<(u64, u64)>
    decreases k,
{
    if k == 0 {
        Seq::empty()
    } else {
        epoch_transactions(epochs, counts, (k - 1) as nat) + Seq::new(
            counts[k - 1] as nat,
            |o: int| (epochs[k - 1], o as u64),
        )
    }
}

proof fn lemma_epoch_transactions_prefix(epochs: Seq<u64>, counts: Seq<u64>, i: nat, k: nat)
    requires
        i <= k,
    ensures
        epoch_transactions(epochs, counts, i).len() <= epoch_transactions(epochs, counts, k).len(),
        epoch_transactions(epochs, counts, k).take(
            epoch_transactions(epochs, counts, i).len() as int,
        ) == epoch_transactions(epochs, counts, i),
    decreases k - i,
{
    if i < k {
        lemma_epoch_transactions_prefix(epochs, counts, i, (k - 1) as nat);
        let a = epoch_transactions(epochs, counts, (k - 1) as nat);
        let b = epoch_transactions(epochs, counts, k);
        assert(b.take(a.len() as int) =~= a);
        assert(b.take(epoch_transactions(epochs, counts, i).len() as int) =~= a.take(
            epoch_transactions(epochs, counts, i).len() as int,
        ));
    } else {
        assert(epoch_transactions(epochs, counts, k).take(
            epoch_transactions(epochs, counts, k).len() as int,
        ) =~= epoch_transactions(epochs, counts, k));
    }
}

proof fn lemma_stored_prefix(fully_stored: Seq<bool>)
    ensures
        stored_prefix_len(fully_stored) <= fully_stored.len(),
        forall|i: int| 0 <= i < stored_prefix_len(fully_stored) ==> fully_stored[i],
        stored_prefix_len(fully_stored) < fully_stored.len() ==> !fully_stored[stored_prefix_len(
            fully_stored,
        ) as int],
    decreases fully_stored.len(),
{
    if fully_stored.len() > 0 && fully_stored[0] {
        lemma_stored_prefix(fully_stored.drop_first());
        assert forall|i: int| 0 <= i < stored_prefix_len(fully_stored) implies fully_stored[i] by {
            if i > 0 {
                assert(fully_stored[i] == fully_stored.drop_first()[i - 1]);
            }
        }
    }
}

proof fn lemma_advance_step(batch_number: int, transaction_order: int, max: int, steps: nat)
    ensures
        advance_position(batch_number, transaction_order, max, steps + 1) == next_position(
            advance_position(batch_number, transaction_order, max, steps).0,
            advance_position(batch_number, transaction_order, max, steps).1,
            max,
        ),
    decreases steps,
{
    let next = next_position(batch_number, transaction_order, max);
    assert(advance_position(batch_number, transaction_order, max, steps + 1) == advance_position(
        next.0,
        next.1,
        max,
        steps,
    ));
    if steps > 0 {
        lemma_advance_step(next.0, next.1, max, (steps - 1) as nat);
        assert(advance_position(batch_number, transaction_order, max, steps) == advance_position(
            next.0,
            next.1,
            max,
            (steps - 1) as nat,
        ));
    } else {
        assert(advance_position(next.0, next.1, max, 0) == next);
    }
}

proof fn lemma_advance_in_range_split(batch_number: int, transaction_order: int, max: int, done: nat, steps: nat)
    requires
        advance_in_range(batch_number, transaction_order, max, done + steps),
    ensures
        advance_in_range(
            advance_position(batch_number, transaction_order, max, done).0,
            advance_position(batch_number, transaction_order, max, done).1,
            max,
            steps,
        ),
    decreases done,
{
    if done > 0 {
        let next = next_position(batch_number, transaction_order, max);
        assert((done + steps - 1) as nat == ((done - 1) as nat + steps) as nat);
        lemma_advance_in_range_split(next.0, next.1, max, (done - 1) as nat, steps);
    }
}

/// Where one transaction of an epoch goes in the batches.
#[derive(Clone, Copy, Debug)]
pub struct EpochTransactionPlacement {
    pub epoch: u64,
    pub epoch_transaction_order: u64,
    pub batch_number: u64,
    pub batch_transaction_order: u64,
    /// Whether this transaction fills its batch, which can then be finalized.
    pub completes_batch: bool,
}

/// Re-orders the transactions of finished epochs into batches. Of the epochs to
/// process (in order, with the number of transactions each holds and whether all
/// of them are stored), those before the first one not fully stored are taken;
/// their transactions, epoch by epoch and in order within an epoch, get the next
/// batch positions of the rollup, one after the other. The last epoch taken
/// becomes the last batched epoch.
pub fn create_batches_from_epoch(
    epochs_to_process: &Vec<u64>,
    transaction_counts: &Vec<u64>,
    fully_stored: &Vec<bool>,
    epoch_metadata: &mut EpochMetadata,
    rollup_metadata: &mut RollupMetadata,
) -> (placements: Vec<EpochTransactionPlacement>)
    requires
        transaction_counts.len() == epochs_to_process.len(),
        fully_stored.len() == epochs_to_process.len(),
        advance_in_range(
            old(rollup_metadata).batch_number as int,
            old(rollup_metadata).transaction_order as int,
            old(rollup_metadata).max_transaction_count_per_batch as int,
            epoch_transactions(
                epochs_to_process@,
                transaction_counts@,
                stored_prefix_len(fully_stored@),
            ).len(),
        ),
    ensures
        ({
            let taken = epoch_transactions(
                epochs_to_process@,
                transaction_counts@,
                stored_prefix_len(fully_stored@),
            );
            let b0 = old(rollup_metadata).batch_number as int;
            let o0 = old(rollup_metadata).transaction_order as int;
            let max = old(rollup_metadata).max_transaction_count_per_batch as int;
            &&& placements@.len() == taken.len()
            &&& forall|j: int|
                0 <= j < taken.len() ==> {
                    let p = #[trigger] placements@[j];
                    let at = advance_position(b0, o0, max, j as nat);
                    &&& (p.epoch, p.epoch_transaction_order) == taken[j]
                    &&& p.batch_number == at.0
                    &&& p.batch_transaction_order == at.1
                    &&& p.completes_batch == (at.1 + 1 == max)
                }
            &&& final(rollup_metadata).batch_number == advance_position(b0, o0, max, taken.len()).0
            &&& final(rollup_metadata).transaction_order == advance_position(
                b0,
                o0,
                max,
                taken.len(),
            ).1
        }),
        final(rollup_metadata).max_transaction_count_per_batch == old(
            rollup_metadata,
        ).max_transaction_count_per_batch,
        final(rollup_metadata).cluster_id == old(rollup_metadata).cluster_id,
        final(rollup_metadata).provided_batch_number == old(rollup_metadata).provided_batch_number,
        final(rollup_metadata).provided_transaction_order == old(
            rollup_metadata,
        ).provided_transaction_order,
        final(epoch_metadata).last_batched_epoch == (if stored_prefix_len(fully_stored@) > 0 {
            Some(epochs_to_process@[stored_prefix_len(fully_stored@) - 1])
        } else {
            old(epoch_metadata).last_batched_epoch
        }),
{
    let ghost k = stored_prefix_len(fully_stored@);
    let ghost epochs = epochs_to_process@;
    let ghost counts = transaction_counts@;
    let ghost b0 = rollup_metadata.batch_number as int;
    let ghost o0 = rollup_metadata.transaction_order as int;
    let ghost max = rollup_metadata.max_transaction_count_per_batch as int;
    let ghost start = *rollup_metadata;
    let ghost total = epoch_transactions(epochs, counts, k).len();
    proof {
        lemma_stored_prefix(fully_stored@);
    }
    let mut take: usize = 0;
    while take < fully_stored.len() && fully_stored[take]
        invariant
            0 <= take <= fully_stored.len(),
            take <= k,
            k <= fully_stored.len(),
            forall|i: int| 0 <= i < k ==> fully_stored@[i],
            k < fully_stored.len() ==> !fully_stored@[k as int],
        decreases fully_stored.len() - take,
    {
        take = take + 1;
    }
    assert(take == k);
    let mut placements: Vec<EpochTransactionPlacement> = Vec::new();
    let mut i: usize = 0;
    while i < take
        invariant
            take == k,
            k <= epochs.len(),
            epochs == epochs_to_process@,
            counts == transaction_counts@,
            counts.len() == epochs.len(),
            0 <= i <= take,
            total == epoch_transactions(epochs, counts, k).len(),
            placements@.len() == epoch_transactions(epochs, counts, i as nat).len(),
            forall|j: int|
                0 <= j < placements@.len() ==> {
                    let p = #[trigger] placements@[j];
                    let at = advance_position(b0, o0, max, j as nat);
                    &&& (p.epoch, p.epoch_transaction_order) == epoch_transactions(
                        epochs,
                        counts,
                        k,
                    )[j]
                    &&& p.batch_number == at.0
                    &&& p.batch_transaction_order == at.1
                    &&& p.completes_batch == (at.1 + 1 == max)
                },
            rollup_metadata.batch_number == advance_position(b0, o0, max, placements@.len() as nat).0,
            rollup_metadata.transaction_order == advance_position(
                b0,
                o0,
                max,
                placements@.len() as nat,
            ).1,
            rollup_metadata.max_transaction_count_per_batch == max,
            rollup_metadata.cluster_id == start.cluster_id,
            rollup_metadata.provided_batch_number == start.provided_batch_number,
            rollup_metadata.provided_transaction_order == start.provided_transaction_order,
            advance_in_range(b0, o0, max, total),
            epoch_metadata.last_batched_epoch == (if i > 0 {
                Some(epochs[i - 1])
            } else {
                old(epoch_metadata).last_batched_epoch
            }),
        decreases take - i,
    {
        let epoch = epochs_to_process[i];
        let count = transaction_counts[i];
        proof {
            lemma_epoch_transactions_prefix(epochs, counts, (i + 1) as nat, k);
        }
        let mut order: u64 = 0;
        while order < count
            invariant
                take == k,
                k <= epochs.len(),
                i < take,
                epochs == epochs_to_process@,
                counts == transaction_counts@,
                counts.len() == epochs.len(),
                epoch == epochs[i as int],
                count == counts[i as int],
                0 <= order <= count,
                total == epoch_transactions(epochs, counts, k).len(),
                epoch_transactions(epochs, counts, (i + 1) as nat).len() <= total,
                epoch_transactions(epochs, counts, k).take(
                    epoch_transactions(epochs, counts, (i + 1) as nat).len() as int,
                ) == epoch_transactions(epochs, counts, (i + 1) as nat),
                placements@.len() == epoch_transactions(epochs, counts, i as nat).len() + order,
                forall|j: int|
                    0 <= j < placements@.len() ==> {
                        let p = #[trigger] placements@[j];
                        let at = advance_position(b0, o0, max, j as nat);
                        &&& (p.epoch, p.epoch_transaction_order) == epoch_transactions(
                            epochs,
                            counts,
                            k,
                        )[j]
                        &&& p.batch_number == at.0
                        &&& p.batch_transaction_order == at.1
                        &&& p.completes_batch == (at.1 + 1 == max)
                    },
                rollup_metadata.batch_number == advance_position(
                    b0,
                    o0,
                    max,
                    placements@.len() as nat,
                ).0,
                rollup_metadata.transaction_order == advance_position(
                    b0,
                    o0,
                    max,
                    placements@.len() as nat,
                ).1,
                rollup_metadata.max_transaction_count_per_batch == max,
                rollup_metadata.cluster_id == start.cluster_id,
                rollup_metadata.provided_batch_number == start.provided_batch_number,
                rollup_metadata.provided_transaction_order == start.provided_transaction_order,
                advance_in_range(b0, o0, max, total),
            decreases count - order,
        {
            let ghost done = placements@.len() as nat;
            proof {
                assert(done < total);
                lemma_advance_in_range_split(b0, o0, max, done, (total - done) as nat);
                lemma_advance_step(b0, o0, max, done);
            }
            let issued = rollup_metadata.issue_transaction_position();
            let placement = EpochTransactionPlacement {
                epoch,
                epoch_transaction_order: order,
                batch_number: issued.0,
                batch_transaction_order: issued.1,
                completes_batch: issued.2,
            };
            proof {
                let taken_i1 = epoch_transactions(epochs, counts, (i + 1) as nat);
                assert(epoch_transactions(epochs, counts, k)[done as int] == taken_i1[done as int]);
                assert(taken_i1[done as int] == (epoch, order));
            }
            placements.push(placement);
            order = order + 1;
        }
        proof {
            assert(epoch_transactions(epochs, counts, (i + 1) as nat).len() == epoch_transactions(
                epochs,
                counts,
                i as nat,
            ).len() + count);
        }
        epoch_metadata.last_batched_epoch = Some(epoch);
        i = i + 1;
    }
    placements
}

/// Where a node that is not the leader asks the current leader for its batch
/// position before taking over: the leader's cluster RPC URL, when the leader is
/// known; nothing for the leader itself.
pub fn order_commitment_info_source(cluster_metadata: &ClusterMetadata) -> (url: Option<String>)
    requires
        !cluster_metadata.is_leader ==> (cluster_metadata.leader_tx_orderer_rpc_info matches Some(
            info,
        ) ==> info.cluster_rpc_url is Some),
    ensures
        match url {
            Some(u) => !cluster_metadata.is_leader && (cluster_metadata.leader_tx_orderer_rpc_info
                matches Some(info) && (info.cluster_rpc_url matches Some(expected) && u@
                == expected@)),
            None => cluster_metadata.is_leader || cluster_metadata.leader_tx_orderer_rpc_info is None,
        },
{
    if cluster_metadata.is_leader {
        return None;
    }
    match &cluster_metadata.leader_tx_orderer_rpc_info {
        Some(info) => match &info.cluster_rpc_url {
            Some(url) => Some(url.clone()),
            None => {
                assert(false);
                None
            },
        },
        None => None,
    }
}

/// What a handover of the leadership reports: the epochs left and entered,
/// where the leader of the left epoch is reached, and how many transactions
/// this node forwarded in that epoch.
#[derive(Clone, Debug)]
pub struct LeaderHandover {
    pub old_epoch: u64,
    pub new_epoch: u64,
    pub epoch_leader_cluster_rpc_url: String,
    pub epoch_sent_transaction_count: u64,
}

/// Hands the leadership over on the node `own_address`, once the transactions
/// up to `provided` were given to the executor.
///
/// Refused, with nothing changed, when the next leader is not a node of the
/// cluster (`TxOrdererInfoNotFound`) or the current leader has no cluster RPC
/// URL (`EpochLeaderClusterRpcUrlNotFound`). Otherwise the rollup's provided position becomes
/// `provided`; a node that was not the leader takes the batch position the
/// leader reported, if it did; the node records the block height, whether it
/// leads now and where the leader is, and moves to the next epoch, led by the
/// next leader.
pub fn hand_over_leadership(
    cluster_metadata: &mut ClusterMetadata,
    rollup_metadata: &mut RollupMetadata,
    cluster: &Cluster,
    own_address: &Address,
    message: &LeaderChangeMessage,
    provided: (u64, i64),
    leader_position: Option<(u64, u64)>,
) -> (handover: Result<LeaderHandover, Error>)
    requires
        old(cluster_metadata).epoch < u64::MAX,
    ensures
        ({
            let infos = cluster.tx_orderer_rpc_infos@;
            let next_info = rpc_info_of(infos, message.next_leader_tx_orderer_address);
            let current_info = rpc_info_of(infos, message.current_leader_tx_orderer_address);
            if next_info is None {
                &&& handover matches Err(Error::TxOrdererInfoNotFound)
                &&& *final(cluster_metadata) == *old(cluster_metadata)
                &&& *final(rollup_metadata) == *old(rollup_metadata)
            } else if !(current_info matches Some(info) && info.cluster_rpc_url is Some) {
                &&& handover matches Err(Error::EpochLeaderClusterRpcUrlNotFound)
                &&& *final(cluster_metadata) == *old(cluster_metadata)
                &&& *final(rollup_metadata) == *old(rollup_metadata)
            } else {
                let old_epoch = old(cluster_metadata).epoch;
                let new_epoch = (old_epoch + 1) as u64;
                let takes_position = !old(cluster_metadata).is_leader && leader_position is Some;
                handover matches Ok(h) && {
                    &&& h.old_epoch == old_epoch
                    &&& h.new_epoch == new_epoch
                    &&& h.epoch_leader_cluster_rpc_url@ == current_info.unwrap().cluster_rpc_url.unwrap()@
                    &&& h.epoch_sent_transaction_count == old(cluster_metadata).sent_count(old_epoch)
                    &&& final(cluster_metadata).platform_block_height == message.platform_block_height
                    &&& final(cluster_metadata).is_leader == (own_address@
                        == message.next_leader_tx_orderer_address@)
                    &&& final(cluster_metadata).leader_tx_orderer_rpc_info == next_info
                    &&& final(cluster_metadata).epoch == new_epoch
                    &&& final(cluster_metadata).epoch_leader_map@ == leader_map_after_change(
                        old(cluster_metadata).epoch_leader_map@,
                        old_epoch,
                        new_epoch,
                        message.current_leader_tx_orderer_address,
                        message.next_leader_tx_orderer_address,
                    )
                    &&& final(cluster_metadata).cluster_id == old(cluster_metadata).cluster_id
                    &&& final(cluster_metadata).can_process_as_leader == old(
                        cluster_metadata,
                    ).can_process_as_leader
                    &&& final(cluster_metadata).epoch_sent_transaction_count@ == old(
                        cluster_metadata,
                    ).epoch_sent_transaction_count@
                    &&& final(cluster_metadata).end_signal_bitmap@ == old(
                        cluster_metadata,
                    ).end_signal_bitmap@
                    &&& final(rollup_metadata).provided_batch_number == provided.0
                    &&& final(rollup_metadata).provided_transaction_order == provided.1
                    &&& final(rollup_metadata).batch_number == (if takes_position {
                        leader_position.unwrap().0
                    } else {
                        old(rollup_metadata).batch_number
                    })
                    &&& final(rollup_metadata).transaction_order == (if takes_position {
                        leader_position.unwrap().1
                    } else {
                        old(rollup_metadata).transaction_order
                    })
                    &&& final(rollup_metadata).max_transaction_count_per_batch == old(
                        rollup_metadata,
                    ).max_transaction_count_per_batch
                    &&& final(rollup_metadata).cluster_id == old(rollup_metadata).cluster_id
                }
            }
        }),
{
    let next_info = match cluster.get_tx_orderer_rpc_info(&message.next_leader_tx_orderer_address) {
        Some(info) => info,
        None => {
            return Err(Error::TxOrdererInfoNotFound);
        },
    };
    let epoch_leader_cluster_rpc_url = match cluster.get_tx_orderer_rpc_info(
        &message.current_leader_tx_orderer_address,
    ) {
        Some(info) => match info.cluster_rpc_url {
            Some(url) => url,
            None => {
                return Err(Error::EpochLeaderClusterRpcUrlNotFound);
            },
        },
        None => {
            return Err(Error::EpochLeaderClusterRpcUrlNotFound);
        },
    };
    rollup_metadata.provided_batch_number = provided.0;
    rollup_metadata.provided_transaction_order = provided.1;
    if !cluster_metadata.is_leader {
        match leader_position {
            Some((batch_number, transaction_order)) => {
                rollup_metadata.batch_number = batch_number;
                rollup_metadata.transaction_order = transaction_order;
            },
            None => {},
        }
    }
    let is_next_leader = own_address.same_as(&message.next_leader_tx_orderer_address);
    let sent = match cluster_metadata.epoch_sent_transaction_count.get(&cluster_metadata.epoch) {
        Some(count) => *count,
        None => 0,
    };
    let (old_epoch, new_epoch, _mismatch) = cluster_metadata.rotate_epoch_leader(
        message.platform_block_height,
        is_next_leader,
        next_info,
        message.current_leader_tx_orderer_address,
        message.next_leader_tx_orderer_address,
    );
    Ok(LeaderHandover {
        old_epoch,
        new_epoch,
        epoch_leader_cluster_rpc_url,
        epoch_sent_transaction_count: sent,
    })
}

/// The batches handed out completely, from `start_batch_number` up to, not
/// including, `current_batch_number`: their stored data can go.
pub fn batch_numbers_to_delete(start_batch_number: u64, current_batch_number: u64) -> (numbers: Vec<u64>)
    ensures
        numbers@ == Seq::new(
            (if current_batch_number > start_batch_number {
                current_batch_number - start_batch_number
            } else {
                0
            }) as nat,
            |i: int| (start_batch_number + i) as u64,
        ),
{
    let mut numbers: Vec<u64> = Vec::new();
    let mut batch_number = start_batch_number;
    while batch_number < current_batch_number
        invariant
            start_batch_number <= batch_number,
            batch_number <= current_batch_number || batch_number == start_batch_number,
            numbers@ == Seq::new(
                (batch_number - start_batch_number) as nat,
                |i: int| (start_batch_number + i) as u64,
            ),
        decreases current_batch_number - batch_number,
    {
        numbers.push(batch_number);
        batch_number = batch_number + 1;
        assert(numbers@ =~= Seq::new(
            (batch_number - start_batch_number) as nat,
            |i: int| (start_batch_number + i) as u64,
        ));
    }
    numbers
}

/// Placing transactions one after another moves the linear position by one
/// each: from an order inside its batch, `steps` placements reach batch
/// `batch_number + (transaction_order + steps) / max` at order
/// `(transaction_order + steps) % max`.
pub proof fn lemma_advance_position_closed_form(
    batch_number: int,
    transaction_order: int,
    max: int,
    steps: nat,
)
    requires
        0 <= transaction_order < max,
    ensures
        advance_position(batch_number, transaction_order, max, steps) == (
            batch_number + (transaction_order + steps) / max,
            (transaction_order + steps) % max,
        ),
    decreases steps,
{
    if steps == 0 {
        vstd::arithmetic::div_mod::lemma_fundamental_div_mod_converse(
            transaction_order,
            max,
            0,
            transaction_order,
        );
    } else {
        let previous = (steps - 1) as nat;
        lemma_advance_step(batch_number, transaction_order, max, previous);
        lemma_advance_position_closed_form(batch_number, transaction_order, max, previous);
        let x = transaction_order + previous;
        let q = x / max;
        let r = x % max;
        vstd::arithmetic::div_mod::lemma_fundamental_div_mod(x, max);
        assert(max * q == q * max) by (nonlinear_arith);
        assert((q + 1) * max == q * max + max) by (nonlinear_arith);
        if r + 1 == max {
            vstd::arithmetic::div_mod::lemma_fundamental_div_mod_converse(x + 1, max, q + 1, 0);
        } else {
            vstd::arithmetic::div_mod::lemma_fundamental_div_mod_converse(x + 1, max, q, r + 1);
        }
    }
}

/// Whether one of the orders, read as an `i64`, is `k`.
pub open spec fn holds_order(orders: Seq<u64>, k: int) -> bool {
    exists|i: int| 0 <= i < orders.len() && as_i64(orders[i]) == k
}

/// The last valid order ends the run of orders that directly follows the
/// provided one: every order after `provided_transaction_order` up to it can be
/// provided, and the order right after it cannot.
pub proof fn lemma_last_valid_ends_the_run(orders: Seq<u64>, provided_transaction_order: int)
    requires
        strictly_increasing(orders),
        -1 <= provided_transaction_order,
    ensures
        provided_transaction_order <= scan_last_valid(orders, provided_transaction_order),
        forall|k: int|
            provided_transaction_order < k <= scan_last_valid(orders, provided_transaction_order)
                ==> #[trigger] holds_order(orders, k),
        !holds_order(orders, scan_last_valid(orders, provided_transaction_order) + 1),
    decreases orders.len(),
{
    if orders.len() > 0 {
        let first = orders[0];
        let rest = orders.drop_first();
        let last = provided_transaction_order;
        assert(strictly_increasing(rest)) by {
            assert forall|i: int, j: int| 0 <= i < j < rest.len() implies rest[i] < rest[j] by {
                assert(rest[i] == orders[i + 1]);
                assert(rest[j] == orders[j + 1]);
            }
        }
        assert forall|i: int| 0 <= i < rest.len() implies first < #[trigger] rest[i] by {
            assert(rest[i] == orders[i + 1]);
        }
        if as_i64(first) == last + 1 {
            lemma_last_valid_ends_the_run(rest, last + 1);
            let result = scan_last_valid(orders, last);
            assert(result == scan_last_valid(rest, last + 1));
            assert forall|k: int| last < k <= result implies #[trigger] holds_order(orders, k) by {
                if k == last + 1 {
                    assert(as_i64(orders[0]) == k);
                } else {
                    assert(holds_order(rest, k));
                    let i = choose|i: int| 0 <= i < rest.len() && as_i64(rest[i]) == k;
                    assert(orders[i + 1] == rest[i]);
                }
            }
            assert(!holds_order(orders, result + 1)) by {
                assert forall|i: int| 0 <= i < orders.len() implies as_i64(orders[i]) != result + 1 by {
                    if i > 0 {
                        assert(orders[i] == rest[i - 1]);
                        assert(!holds_order(rest, result + 1));
                    }
                }
            }
        } else if as_i64(first) > last {
            assert(!holds_order(orders, last + 1)) by {
                assert forall|i: int| 0 <= i < orders.len() implies as_i64(orders[i]) != last + 1 by {
                    if i > 0 {
                        assert(orders[i] == rest[i - 1]);
                        assert(first < orders[i]);
                    }
                }
            }
        } else {
            lemma_last_valid_ends_the_run(rest, last);
            let result = scan_last_valid(orders, last);
            assert(result == scan_last_valid(rest, last));
            assert forall|k: int| last < k <= result implies #[trigger] holds_order(orders, k) by {
                assert(holds_order(rest, k));
                let i = choose|i: int| 0 <= i < rest.len() && as_i64(rest[i]) == k;
                assert(orders[i + 1] == rest[i]);
            }
            assert(!holds_order(orders, result + 1)) by {
                assert forall|i: int| 0 <= i < orders.len() implies as_i64(orders[i]) != result + 1 by {
                    if i > 0 {
                        assert(orders[i] == rest[i - 1]);
                        assert(!holds_order(rest, result + 1));
                    }
                }
            }
        }
    }
}

/// Placements never collide: from an order inside its batch, the positions
/// reached after different numbers of placements differ, so no two
/// transactions of the re-ordered epochs share a batch position.
pub proof fn lemma_placements_are_distinct(
    batch_number: int,
    transaction_order: int,
    max: int,
    first: nat,
    second: nat,
)
    requires
        0 <= transaction_order < max,
        first != second,
    ensures
        advance_position(batch_number, transaction_order, max, first) != advance_position(
            batch_number,
            transaction_order,
            max,
            second,
        ),
{
    lemma_advance_position_closed_form(batch_number, transaction_order, max, first);
    lemma_advance_position_closed_form(batch_number, transaction_order, max, second);
    let x = transaction_order + first;
    let y = transaction_order + second;
    vstd::arithmetic::div_mod::lemma_fundamental_div_mod(x, max);
    vstd::arithmetic::div_mod::lemma_fundamental_div_mod(y, max);
    if x / max == y / max && x % max == y % max {
        assert(max * (x / max) == max * (y / max));
        assert(x == y);
    }
}

} // verus!
