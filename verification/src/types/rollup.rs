//! Rollups served by the sequencer and the list of their ids.

use vstd::prelude::*;

use crate::types::address::Address;
use crate::types::raw_transaction::string_views;
use crate::util::{compare_texts, lemma_bytes_before_asymmetric, lemma_bytes_before_transitive, text_before, TextOrder};

verus! {

pub type RollupId = String;

pub type ClusterId = String;

/// The chain a cluster is registered on.
#[derive(Clone, Copy, Debug, PartialEq, Eq, Structural, Hash)]
pub enum Platform {
    Ethereum,
    Holesky,
    Local,
}

/// The service that tracks the liveness of a cluster.
#[derive(Clone, Copy, Debug, PartialEq, Eq, Structural, Hash)]
pub enum LivenessServiceProvider {
    Radius,
}

/// The framework a rollup is built with.
#[derive(Clone, Copy, Debug, PartialEq, Eq, Structural, Hash)]
pub enum RollupType {
    PolygonCdk,
}

/// Which encrypted mempool a rollup accepts.
#[derive(Clone, Copy, Debug, PartialEq, Eq, Structural, Hash)]
pub enum EncryptedTransactionType {
    Pvde,
    Skde,
    NotSupport,
}

/// How the sequencer commits to the order it gives a transaction.
#[derive(Clone, Copy, Debug, PartialEq, Eq, Structural, Hash)]
pub enum OrderCommitmentType {
    TransactionHash,
    Sign,
}

/// The service a rollup's batches are validated by.
#[derive(Clone, Copy, Debug, PartialEq, Eq, Structural, Hash)]
pub enum ValidationServiceProvider {
    EigenLayer,
    Symbiotic,
}

/// Where a rollup's batch commitments are validated.
#[derive(Clone, Copy, Debug)]
pub struct ValidationServiceInfo {
    pub platform: Platform,
    pub validation_service_manager: Address,
}

/// The validation service of a rollup and where it lives.
#[derive(Clone, Copy, Debug)]
pub enum ValidationInfo {
    EigenLayer(ValidationServiceInfo),
    Symbiotic(ValidationServiceInfo),
}

impl ValidationInfo {
    /// The platform the validation service runs on.
    pub fn platform(&self) -> (platform: Platform)
        ensures
            platform == match self {
                ValidationInfo::EigenLayer(info) => info.platform,
                ValidationInfo::Symbiotic(info) => info.platform,
            },
    {
        match self {
            ValidationInfo::EigenLayer(info) => info.platform,
            ValidationInfo::Symbiotic(info) => info.platform,
        }
    }

    /// The provider of the validation service.
    pub fn validation_service_provider(&self) -> (provider: ValidationServiceProvider)
        ensures
            provider == match self {
                ValidationInfo::EigenLayer(_) => ValidationServiceProvider::EigenLayer,
                ValidationInfo::Symbiotic(_) => ValidationServiceProvider::Symbiotic,
            },
    {
        match self {
            ValidationInfo::EigenLayer(_) => ValidationServiceProvider::EigenLayer,
            ValidationInfo::Symbiotic(_) => ValidationServiceProvider::Symbiotic,
        }
    }
}

/// The number of transactions a new rollup's batches hold.
pub const DEFAULT_MAX_TRANSACTION_COUNT_PER_BATCH: u64 = 1024;

/// A rollup registered with the sequencer.
#[derive(Clone, Debug)]
pub struct Rollup {
    pub cluster_id: ClusterId,
    pub platform: Platform,
    pub liveness_service_provider: LivenessServiceProvider,
    pub rollup_id: RollupId,
    pub rollup_type: RollupType,
    pub encrypted_transaction_type: EncryptedTransactionType,
    pub order_commitment_type: OrderCommitmentType,
    pub owner: Address,
    pub validation_info: ValidationInfo,
    pub executor_address_list: Vec<Address>,
    pub max_gas_limit: u64,
    pub max_transaction_count_per_batch: u64,
}

impl Rollup {
    /// A rollup with the given settings; no gas limit is set yet and batches hold
    /// the default number of transactions.
    pub fn new(
        rollup_id: RollupId,
        rollup_type: RollupType,
        encrypted_transaction_type: EncryptedTransactionType,
        owner: Address,
        validation_info: ValidationInfo,
        order_commitment_type: OrderCommitmentType,
        executor_address_list: Vec<Address>,
        cluster_id: ClusterId,
        platform: Platform,
        liveness_service_provider: LivenessServiceProvider,
    ) -> (rollup: Self)
        ensures
            rollup.rollup_id == rollup_id,
            rollup.rollup_type == rollup_type,
            rollup.encrypted_transaction_type == encrypted_transaction_type,
            rollup.owner == owner,
            rollup.validation_info == validation_info,
            rollup.order_commitment_type == order_commitment_type,
            rollup.executor_address_list == executor_address_list,
            rollup.cluster_id == cluster_id,
            rollup.platform == platform,
            rollup.liveness_service_provider == liveness_service_provider,
            rollup.max_gas_limit == 0,
            rollup.max_transaction_count_per_batch == DEFAULT_MAX_TRANSACTION_COUNT_PER_BATCH,
    {
        Rollup {
            rollup_id,
            rollup_type,
            encrypted_transaction_type,
            owner,
            validation_info,
            order_commitment_type,
            executor_address_list,
            cluster_id,
            platform,
            liveness_service_provider,
            max_gas_limit: 0,
            max_transaction_count_per_batch: DEFAULT_MAX_TRANSACTION_COUNT_PER_BATCH,
        }
    }

    /// Replaces the executor addresses; nothing else changes.
    pub fn set_executor_address_list(&mut self, executor_address_list: Vec<Address>)
        ensures
            *final(self) == (Rollup { executor_address_list, ..*old(self) }),
    {
        self.executor_address_list = executor_address_list;
    }
}


/// Texts in strictly increasing byte-wise order (so no text occurs twice).
pub open spec fn texts_increasing(texts: Seq<Seq<char>>) -> bool {
    forall|i: int, j: int| 0 <= i < j < texts.len() ==> #[trigger] text_before(texts[i], texts[j])
}

/// The ids of the rollups a node serves, kept in increasing byte-wise order
/// without repeats, as Rust orders strings. They are held in a sorted vector
/// rather than a `BTreeSet<String>`: vstd specifies the set only for keys whose
/// order it knows, which `String` is not, whereas the order and uniqueness of
/// the vector are proved here.
#[derive(Clone, Debug)]
pub struct RollupIdList(Vec<RollupId>);

/// Inserting `x` at `p` adds `x` to the elements.
proof fn lemma_insert_elements(s: Seq<Seq<char>>, p: int, x: Seq<char>)
    requires
        0 <= p <= s.len(),
    ensures
        s.insert(p, x).to_set() == s.to_set().insert(x),
{
    let t = s.insert(p, x);
    assert forall|y: Seq<char>| t.to_set().contains(y) == s.to_set().insert(x).contains(y) by {
        if t.contains(y) {
            let i = choose|i: int| 0 <= i < t.len() && t[i] == y;
            if i < p {
                assert(s[i] == y);
            } else if i > p {
                assert(s[i - 1] == y);
            }
        }
        if s.contains(y) {
            let i = choose|i: int| 0 <= i < s.len() && s[i] == y;
            if i < p {
                assert(t[i] == y);
            } else {
                assert(t[i + 1] == y);
            }
        }
        if y == x {
            assert(t[p] == y);
        }
    }
    assert(t.to_set() =~= s.to_set().insert(x));
}

/// Removing the only occurrence of `s[p]` drops it from the elements.
proof fn lemma_remove_elements(s: Seq<Seq<char>>, p: int)
    requires
        0 <= p < s.len(),
        texts_increasing(s),
    ensures
        s.remove(p).to_set() == s.to_set().remove(s[p]),
{
    let t = s.remove(p);
    assert forall|y: Seq<char>| t.to_set().contains(y) == s.to_set().remove(s[p]).contains(y) by {
        if t.contains(y) {
            let i = choose|i: int| 0 <= i < t.len() && t[i] == y;
            if i < p {
                assert(s[i] == y);
                assert(text_before(s[i], s[p]));
                lemma_bytes_before_asymmetric(
                    vstd::utf8::encode_utf8(y),
                    vstd::utf8::encode_utf8(y),
                );
            } else {
                assert(s[i + 1] == y);
                assert(text_before(s[p], s[i + 1]));
                lemma_bytes_before_asymmetric(
                    vstd::utf8::encode_utf8(y),
                    vstd::utf8::encode_utf8(y),
                );
            }
        }
        if s.contains(y) && y != s[p] {
            let i = choose|i: int| 0 <= i < s.len() && s[i] == y;
            if i < p {
                assert(t[i] == y);
            } else {
                assert(i != p);
                assert(t[i - 1] == y);
            }
        }
    }
    assert(t.to_set() =~= s.to_set().remove(s[p]));
}

impl RollupIdList {
    /// The ids, in order.
    pub closed spec fn ids(&self) -> Seq<Seq<char>> {
        string_views(self.0@)
    }

    /// The ids are in strictly increasing order.
    pub closed spec fn well_formed(&self) -> bool {
        texts_increasing(self.ids())
    }

    /// No rollup.
    pub fn new() -> (list: Self)
        ensures
            list.well_formed(),
            list.ids() == Seq::<Seq<char>>::empty(),
    {
        let list = RollupIdList(Vec::new());
        assert(list.ids() =~= Seq::<Seq<char>>::empty());
        list
    }

    /// Adds an id, unless the list holds it already.
    pub fn insert(&mut self, rollup_id: &str)
        requires
            old(self).well_formed(),
        ensures
            final(self).well_formed(),
            final(self).ids().to_set() == old(self).ids().to_set().insert(rollup_id@),
    {
        let ghost ids = self.ids();
        let mut p: usize = 0;
        while p < self.0.len() && compare_texts(self.0[p].as_str(), rollup_id) == TextOrder::Before
            invariant
                p <= self.0@.len(),
                ids == self.ids(),
                forall|j: int| 0 <= j < p ==> text_before(#[trigger] ids[j], rollup_id@),
            decreases self.0.len() - p,
        {
            p = p + 1;
        }
        if p < self.0.len() && compare_texts(self.0[p].as_str(), rollup_id) == TextOrder::Same {
            proof {
                assert(ids[p as int] == rollup_id@);
                assert(ids.to_set().insert(rollup_id@) =~= ids.to_set());
            }
            return;
        }
        proof {
            if p < ids.len() {
                assert(text_before(rollup_id@, ids[p as int]));
            }
        }
        self.0.insert(p, rollup_id.to_owned());
        proof {
            let new_ids = ids.insert(p as int, rollup_id@);
            assert(self.ids() =~= new_ids);
            assert forall|i: int, j: int| 0 <= i < j < new_ids.len() implies #[trigger] text_before(
                new_ids[i],
                new_ids[j],
            ) by {
                if j < p {
                } else if j == p {
                } else if i < p {
                    if j - 1 > p {
                        assert(text_before(ids[p as int], ids[j - 1]));
                        lemma_bytes_before_transitive(
                            vstd::utf8::encode_utf8(rollup_id@),
                            vstd::utf8::encode_utf8(ids[p as int]),
                            vstd::utf8::encode_utf8(ids[j - 1]),
                        );
                    }
                    assert(text_before(rollup_id@, ids[j - 1]));
                    lemma_bytes_before_transitive(
                        vstd::utf8::encode_utf8(ids[i]),
                        vstd::utf8::encode_utf8(rollup_id@),
                        vstd::utf8::encode_utf8(ids[j - 1]),
                    );
                } else if i == p {
                    if j - 1 > p {
                        assert(text_before(ids[p as int], ids[j - 1]));
                        lemma_bytes_before_transitive(
                            vstd::utf8::encode_utf8(rollup_id@),
                            vstd::utf8::encode_utf8(ids[p as int]),
                            vstd::utf8::encode_utf8(ids[j - 1]),
                        );
                    }
                } else {
                    assert(text_before(ids[i - 1], ids[j - 1]));
                }
            }
            lemma_insert_elements(ids, p as int, rollup_id@);
        }
    }

    /// Removes an id, if the list holds it.
    pub fn remove(&mut self, rollup_id: &str)
        requires
            old(self).well_formed(),
        ensures
            final(self).well_formed(),
            final(self).ids().to_set() == old(self).ids().to_set().remove(rollup_id@),
    {
        let ghost ids = self.ids();
        let mut p: usize = 0;
        while p < self.0.len()
            invariant
                p <= self.0@.len(),
                ids == self.ids(),
                ids == old(self).ids(),
                texts_increasing(ids),
                forall|j: int| 0 <= j < p ==> #[trigger] ids[j] != rollup_id@,
            decreases self.0.len() - p,
        {
            if compare_texts(self.0[p].as_str(), rollup_id) == TextOrder::Same {
                assert(ids[p as int] == rollup_id@);
                self.0.remove(p);
                proof {
                    assert(self.ids() =~= ids.remove(p as int));
                    lemma_remove_elements(ids, p as int);
                    assert forall|i: int, j: int| 0 <= i < j < self.ids().len() implies #[trigger] text_before(
                        self.ids()[i],
                        self.ids()[j],
                    ) by {
                        if i < p && j >= p {
                            assert(text_before(ids[i], ids[j + 1]));
                        } else if i >= p {
                            assert(text_before(ids[i + 1], ids[j + 1]));
                        }
                    }
                }
                return;
            }
            p = p + 1;
        }
        proof {
            assert(!ids.contains(rollup_id@));
            assert(ids.to_set().remove(rollup_id@) =~= ids.to_set());
        }
    }

    /// Replaces the ids with those of a list, ordered and without repeats.
    pub fn set(&mut self, rollup_id_list: Vec<RollupId>)
        ensures
            final(self).well_formed(),
            final(self).ids().to_set() == string_views(rollup_id_list@).to_set(),
    {
        *self = RollupIdList::new();
        let mut i: usize = 0;
        while i < rollup_id_list.len()
            invariant
                i <= rollup_id_list@.len(),
                self.well_formed(),
                self.ids().to_set() == string_views(rollup_id_list@.take(i as int)).to_set(),
            decreases rollup_id_list.len() - i,
        {
            self.insert(rollup_id_list[i].as_str());
            proof {
                let before = string_views(rollup_id_list@.take(i as int));
                let after = string_views(rollup_id_list@.take(i + 1));
                assert(after =~= before.push(rollup_id_list@[i as int]@));
                assert(after.to_set() =~= before.to_set().insert(rollup_id_list@[i as int]@)) by {
                    assert forall|y: Seq<char>| after.to_set().contains(y) == before.to_set().insert(
                        rollup_id_list@[i as int]@,
                    ).contains(y) by {
                        if after.contains(y) {
                            let k = choose|k: int| 0 <= k < after.len() && after[k] == y;
                            if k < before.len() {
                                assert(before[k] == y);
                            }
                        }
                        if before.contains(y) {
                            let k = choose|k: int| 0 <= k < before.len() && before[k] == y;
                            assert(after[k] == y);
                        }
                        if y == rollup_id_list@[i as int]@ {
                            assert(after[before.len() as int] == y);
                        }
                    }
                }
            }
            i = i + 1;
        }
        proof {
            assert(rollup_id_list@.take(rollup_id_list@.len() as int) =~= rollup_id_list@);
        }
    }

    /// The ids, in increasing order.
    pub fn iter(&self) -> (ids: Vec<RollupId>)
        requires
            self.well_formed(),
        ensures
            string_views(ids@) == self.ids(),
            texts_increasing(string_views(ids@)),
    {
        let mut ids: Vec<RollupId> = Vec::new();
        let mut i: usize = 0;
        while i < self.0.len()
            invariant
                i <= self.0@.len(),
                string_views(ids@) == self.ids().take(i as int),
            decreases self.0.len() - i,
        {
            let id = self.0[i].clone();
            assert(id@ == self.ids()[i as int]);
            let ghost previous = ids@;
            ids.push(id);
            assert(string_views(ids@) =~= string_views(previous).push(id@));
            assert(self.ids().take(i + 1) =~= self.ids().take(i as int).push(self.ids()[i as int]));
            i = i + 1;
        }
        assert(self.ids().take(self.ids().len() as int) =~= self.ids());
        ids
    }
}

} // verus!
