//! A digest of the transactions a node holds for a rollup, by which nodes
//! compare their views: Keccak-256 over the transaction hashes, once in epoch
//! order and once in batch order.

use vstd::prelude::*;

use crate::codec::{keccak256, keccak256_digest};
use crate::types::rollup::RollupId;

verus! {

/// Asks for the digests of a rollup's transactions.
#[derive(Clone, Debug)]
pub struct GetDigest {
    pub rollup_id: RollupId,
}

/// The digests of a rollup's transactions and how many hashes each covers.
#[derive(Clone, Copy, Debug)]
pub struct GetDigestResponse {
    /// Digest over the transaction hashes ordered by (epoch, transaction order).
    pub epoch_digest: [u8; 32],
    /// Digest over the transaction hashes ordered by (batch number, order in
    /// the batch).
    pub batch_digest: [u8; 32],
    /// The number of hashes in `epoch_digest`.
    pub epoch_tx_count: u64,
    /// The number of hashes in `batch_digest`.
    pub batch_tx_count: u64,
}

/// The positions `(group, 0)` to `(group, count - 1)`.
pub open spec fn group_positions(group: u64, count: u64) -> Seq<(u64, u64)> {
    Seq::new(count as nat, |order: int| (group, order as u64))
}

/// Every position of the first `batches` batches, each full.
pub open spec fn full_batch_positions(batches: nat, max_per_batch: u64) -> Seq<(u64, u64)>
    decreases batches,
{
    if batches == 0 {
        Seq::empty()
    } else {
        full_batch_positions((batches - 1) as nat, max_per_batch) + group_positions(
            (batches - 1) as u64,
            max_per_batch,
        )
    }
}

/// The positions of a rollup's batched transactions: every order of the full
/// batches before `last_batch_number`, then the orders before
/// `transaction_order` in the last batch.
pub open spec fn batch_positions(last_batch_number: u64, transaction_order: u64, max_per_batch: u64) -> Seq<(u64, u64)> {
    full_batch_positions(last_batch_number as nat, max_per_batch) + group_positions(
        last_batch_number,
        transaction_order,
    )
}

/// The positions of transactions by epoch: for each `(epoch, count)` in turn,
/// the orders before `count` in that epoch.
pub open spec fn epoch_positions(epoch_counts: Seq<(u64, u64)>) -> Seq<(u64, u64)>
    decreases epoch_counts.len(),
{
    if epoch_counts.len() == 0 {
        Seq::empty()
    } else {
        epoch_positions(epoch_counts.drop_last()) + group_positions(
            epoch_counts.last().0,
            epoch_counts.last().1,
        )
    }
}

/// The hashes, one after another.
pub open spec fn concatenated_hashes(hashes: Seq<[u8; 32]>) -> Seq<u8>
    decreases hashes.len(),
{
    if hashes.len() == 0 {
        Seq::empty()
    } else {
        concatenated_hashes(hashes.drop_last()) + hashes.last()@
    }
}

/// The bytes a digest is taken over are the hashes laid end to end, in order:
/// 32 bytes per hash, byte `k` being byte `k % 32` of hash `k / 32`.
pub proof fn lemma_concatenated_hashes_in_order(hashes: Seq<[u8; 32]>)
    ensures
        concatenated_hashes(hashes).len() == 32 * hashes.len(),
        forall|k: int|
            0 <= k < 32 * hashes.len() ==> #[trigger] concatenated_hashes(hashes)[k] == hashes[k
                / 32]@[k % 32],
    decreases hashes.len(),
{
    if hashes.len() > 0 {
        let rest = hashes.drop_last();
        lemma_concatenated_hashes_in_order(rest);
        let n = rest.len();
        let all = concatenated_hashes(hashes);
        assert(all == concatenated_hashes(rest) + hashes.last()@);
        assert forall|k: int| 0 <= k < 32 * hashes.len() implies #[trigger] all[k] == hashes[k
            / 32]@[k % 32] by {
            if k < 32 * n {
                assert(all[k] == concatenated_hashes(rest)[k]);
                assert(0 <= k / 32 < n) by (nonlinear_arith)
                    requires
                        0 <= k < 32 * n,
                ;
                assert(rest[k / 32] == hashes[k / 32]);
            } else {
                assert(k / 32 == n && k % 32 == k - 32 * n) by (nonlinear_arith)
                    requires
                        32 * n <= k < 32 * n + 32,
                ;
                assert(all[k] == hashes.last()@[k - 32 * n]);
            }
        }
    }
}

/// Appends the positions `(group, 0)` to `(group, count - 1)`.
fn push_group_positions(positions: &mut Vec<(u64, u64)>, group: u64, count: u64)
    ensures
        final(positions)@ == old(positions)@ + group_positions(group, count),
{
    let ghost start = positions@;
    let mut order: u64 = 0;
    while order < count
        invariant
            order <= count,
            positions@ == start + group_positions(group, order),
        decreases count - order,
    {
        positions.push((group, order));
        order = order + 1;
        assert(positions@ =~= start + group_positions(group, order));
    }
}

/// The positions, in batch order, of the transactions a rollup's metadata says
/// are in batches.
pub fn batch_digest_positions(last_batch_number: u64, transaction_order: u64, max_per_batch: u64) -> (positions: Vec<(u64, u64)>)
    ensures
        positions@ == batch_positions(last_batch_number, transaction_order, max_per_batch),
{
    let mut positions: Vec<(u64, u64)> = Vec::new();
    let mut batch: u64 = 0;
    while batch < last_batch_number
        invariant
            batch <= last_batch_number,
            positions@ == full_batch_positions(batch as nat, max_per_batch),
        decreases last_batch_number - batch,
    {
        push_group_positions(&mut positions, batch, max_per_batch);
        batch = batch + 1;
    }
    push_group_positions(&mut positions, last_batch_number, transaction_order);
    positions
}

/// The positions, in epoch order, of the transactions of the given epochs.
pub fn epoch_digest_positions(epoch_counts: &Vec<(u64, u64)>) -> (positions: Vec<(u64, u64)>)
    ensures
        positions@ == epoch_positions(epoch_counts@),
{
    let mut positions: Vec<(u64, u64)> = Vec::new();
    let mut i: usize = 0;
    while i < epoch_counts.len()
        invariant
            i <= epoch_counts@.len(),
            positions@ == epoch_positions(epoch_counts@.take(i as int)),
        decreases epoch_counts.len() - i,
    {
        let (epoch, count) = epoch_counts[i];
        push_group_positions(&mut positions, epoch, count);
        assert(epoch_counts@.take(i + 1).drop_last() =~= epoch_counts@.take(i as int));
        i = i + 1;
    }
    assert(epoch_counts@.take(epoch_counts@.len() as int) =~= epoch_counts@);
    positions
}

/// The Keccak-256 digest of the hashes, fed one after another, and their
/// number.
pub fn digest_of_hashes(hashes: &Vec<[u8; 32]>) -> (digest: ([u8; 32], u64))
    ensures
        digest.0@ == keccak256(concatenated_hashes(hashes@)),
        digest.1 == hashes@.len(),
        concatenated_hashes(hashes@).len() == 32 * hashes@.len(),
        forall|k: int|
            0 <= k < 32 * hashes@.len() ==> #[trigger] concatenated_hashes(hashes@)[k]
                == hashes@[k / 32]@[k % 32],
{
    proof {
        lemma_concatenated_hashes_in_order(hashes@);
    }
    let mut bytes: Vec<u8> = Vec::new();
    let mut i: usize = 0;
    while i < hashes.len()
        invariant
            i <= hashes@.len(),
            bytes@ == concatenated_hashes(hashes@.take(i as int)),
        decreases hashes.len() - i,
    {
        let hash = hashes[i];
        let ghost before = bytes@;
        let mut j: usize = 0;
        while j < 32
            invariant
                j <= 32,
                bytes@ == before + hash@.take(j as int),
            decreases 32 - j,
        {
            bytes.push(hash[j]);
            j = j + 1;
            assert(bytes@ =~= before + hash@.take(j as int));
        }
        assert(hash@.take(32) =~= hash@);
        assert(hashes@.take(i + 1).drop_last() =~= hashes@.take(i as int));
        i = i + 1;
    }
    assert(hashes@.take(hashes@.len() as int) =~= hashes@);
    let digest = keccak256_digest(bytes.as_slice());
    (digest, hashes.len() as u64)
}

/// The positions of full batches: `max_per_batch` for each.
proof fn lemma_full_batch_positions_count(batches: nat, max_per_batch: u64)
    ensures
        full_batch_positions(batches, max_per_batch).len() == batches * max_per_batch,
    decreases batches,
{
    if batches > 0 {
        let previous = (batches - 1) as nat;
        lemma_full_batch_positions_count(previous, max_per_batch);
        assert(full_batch_positions(batches, max_per_batch).len() == full_batch_positions(
            previous,
            max_per_batch,
        ).len() + max_per_batch);
        assert(batches * max_per_batch == previous * max_per_batch + max_per_batch)
            by (nonlinear_arith)
            requires
                batches == previous + 1,
        ;
    } else {
        assert(batches * max_per_batch == 0) by (nonlinear_arith)
            requires
                batches == 0,
        ;
    }
}

/// The batch digest covers `last_batch_number * max_per_batch +
/// transaction_order` hashes: every order of the full batches, then those of the
/// last one.
pub proof fn lemma_batch_positions_count(last_batch_number: u64, transaction_order: u64, max_per_batch: u64)
    ensures
        batch_positions(last_batch_number, transaction_order, max_per_batch).len()
            == last_batch_number * max_per_batch + transaction_order,
{
    lemma_full_batch_positions_count(last_batch_number as nat, max_per_batch);
}

} // verus!
