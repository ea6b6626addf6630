# tx_orderer

The decision logic of a leader-based transaction orderer for rollups, written
in Verus and proved against its contracts.

A cluster of nodes takes turns leading epochs. The leader of an epoch gives each
raw transaction the next order of that epoch; the other nodes forward what they
receive to the leader and count what they forwarded. When the leadership moves
on, the finished epochs are re-ordered into fixed-size batches, which are handed
to the rollup's executor.

## Layout

- `src/types/`: the data model: rollups and their metadata, cluster metadata
  (epochs, their leaders, forwarded counts, end-of-epoch signals), the in-memory
  per-epoch counters (kept in a `dashmap::DashMap`), the ring of redirect counts,
  raw and encrypted transactions and order commitments.
- `src/rpc/`: what each request handler decides: routing a raw transaction,
  sequencing it on the leader, accepting end-of-epoch signals, applying a change
  of leader, handing the leadership over, gathering the transactions to provide,
  and the digests nodes compare.
- `src/task/`: gathering the transactions of a batch to finalize.
- `src/client/`: splitting reward distributions into the lists the reward
  contracts take.
- `src/codec.rs`: hex, Keccak-256 and RLP decoding, through `const-hex`, `sha3`
  and `ethers-core`.
- `tests/`: tests of the library on concrete values.
- `app/`: the node around the library: state, storage, JSON-RPC handlers and
  background tasks.
