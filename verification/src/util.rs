//! Small helpers over standard collections.

use std::collections::BTreeSet;

use vstd::prelude::*;
use vstd::std_specs::cmp::OrdSpec;
use vstd::std_specs::iter::IteratorSpec;

verus! {

/// A sequence in strictly increasing order.
pub open spec fn strictly_increasing(s: Seq<u64>) -> bool {
    forall|i: int, j: int| 0 <= i < j < s.len() ==> s[i] < s[j]
}

/// The value a `u64` takes when its bits are read as an `i64`.
pub open spec fn as_i64(x: u64) -> int {
    if x <= i64::MAX {
        x as int
    } else {
        x - 0x1_0000_0000_0000_0000
    }
}

/// The value an `i64` takes when its bits are read as a `u64`.
pub open spec fn as_u64(x: i64) -> int {
    if x >= 0 {
        x as int
    } else {
        x + 0x1_0000_0000_0000_0000
    }
}

/// Reads the bits of an `i64` as a `u64`.
pub fn wrap_to_u64(x: i64) -> (value: u64)
    ensures
        value == as_u64(x),
{
    let value = x as u64;
    assert(x >= 0 ==> value == x) by (bit_vector)
        requires
            value == x as u64,
    ;
    assert(x < 0 ==> value == x + 0x1_0000_0000_0000_0000) by (bit_vector)
        requires
            value == x as u64,
    ;
    value
}

/// Two strictly increasing sequences with the same elements are equal.
pub proof fn lemma_increasing_unique(a: Seq<u64>, b: Seq<u64>)
    requires
        strictly_increasing(a),
        strictly_increasing(b),
        a.to_set() == b.to_set(),
    ensures
        a == b,
    decreases a.len(),
{
    broadcast use vstd::seq_lib::group_seq_properties;

    if a.len() == 0 {
        if b.len() > 0 {
            assert(b.to_set().contains(b[0]));
        }
        assert(b.len() == 0);
    } else {
        assert(a.to_set().contains(a[0]));
        assert(b.len() > 0);
        assert(b.to_set().contains(b[0]));
        let ia = choose|k: int| 0 <= k < a.len() && a[k] == b[0];
        let ib = choose|k: int| 0 <= k < b.len() && b[k] == a[0];
        assert(a[0] == b[0]) by {
            if a[0] < b[0] {
                assert(ib > 0 ==> b[ib] > b[0]);
            } else if a[0] > b[0] {
                assert(ia > 0 ==> a[ia] > a[0]);
            }
        }
        let a1 = a.drop_first();
        let b1 = b.drop_first();
        assert forall|x: u64| a1.to_set().contains(x) <==> b1.to_set().contains(x) by {
            if a1.to_set().contains(x) {
                let k = choose|k: int| 0 <= k < a1.len() && a1[k] == x;
                assert(a[k + 1] == x);
                assert(x > a[0]);
                assert(b.to_set().contains(x));
                let m = choose|m: int| 0 <= m < b.len() && b[m] == x;
                assert(m != 0);
                assert(b1[m - 1] == x);
            }
            if b1.to_set().contains(x) {
                let k = choose|k: int| 0 <= k < b1.len() && b1[k] == x;
                assert(b[k + 1] == x);
                assert(x > b[0]);
                assert(a.to_set().contains(x));
                let m = choose|m: int| 0 <= m < a.len() && a[m] == x;
                assert(m != 0);
                assert(a1[m - 1] == x);
            }
        }
        assert(a1.to_set() =~= b1.to_set());
        lemma_increasing_unique(a1, b1);
        assert(a =~= b) by {
            assert(a == seq![a[0]] + a1);
            assert(b == seq![b[0]] + b1);
        }
    }
}

/// The elements of a finite set of integers in increasing order.
pub open spec fn sorted_seq(s: Set<u64>) -> Seq<u64> {
    choose|q: Seq<u64>| q.to_set() == s && strictly_increasing(q)
}

/// Reads the bits of a `u64` as an `i64`.
pub fn wrap_to_i64(x: u64) -> (value: i64)
    ensures
        value == as_i64(x),
{
    let value = x as i64;
    assert(x <= 0x7fff_ffff_ffff_ffff ==> value == x) by (bit_vector)
        requires
            value == x as i64,
    ;
    assert(x > 0x7fff_ffff_ffff_ffff ==> value == x - 0x1_0000_0000_0000_0000) by (bit_vector)
        requires
            value == x as i64,
    ;
    value
}

/// The elements of a set of integers in increasing order.
pub fn sorted_elements(set: &BTreeSet<u64>) -> (elements: Vec<u64>)
    ensures
        elements@.to_set() == set@,
        strictly_increasing(elements@),
        elements@ == sorted_seq(set@),
{
    broadcast use vstd::laws_cmp::group_laws_cmp;

    let mut elements: Vec<u64> = Vec::new();
    for x in it: set.iter()
        invariant
            elements.len() == it.index(),
            forall|i: int| 0 <= i < elements.len() ==> elements@[i] == *it.seq()[i],
            it.seq().unref().to_set() == set@,
            vstd::std_specs::btree::increasing_seq(it.seq()),
            strictly_increasing(elements@),
            elements.len() == it.seq().len() ==> elements@ =~= it.seq().unref(),
    {
        proof {
            let sq = it.seq();
            assert(vstd::laws_cmp::obeys_cmp::<u64>());
            assert(vstd::laws_cmp::obeys_cmp::<&u64>());
            vstd::std_specs::btree::axiom_increasing_seq_meaning::<&u64>(sq);
            assert forall|i: int, j: int| 0 <= i < j < sq.len() implies *sq[i] < *sq[j] by {
                assert(OrdSpec::cmp_spec(&sq[i], &sq[j]) is Less);
                assert(OrdSpec::cmp_spec(sq[i], sq[j]) is Less);
            }
        }
        elements.push(*x);
    }
    proof {
        let q = sorted_seq(set@);
        assert(elements@.to_set() == set@ && strictly_increasing(elements@));
        lemma_increasing_unique(elements@, q);
    }
    elements
}

/// The strings of `list` other than `excluded`, in their order.
pub fn filter_out(list: Vec<String>, excluded: &String) -> (kept: Vec<String>)
    ensures
        kept@.map_values(|s: String| s@) == list@.map_values(|s: String| s@).filter(
            |s: Seq<char>| s != excluded@,
        ),
{
    broadcast use vstd::seq_lib::group_seq_properties;

    let mut kept: Vec<String> = Vec::new();
    let mut i: usize = 0;
    while i < list.len()
        invariant
            0 <= i <= list.len(),
            kept@.map_values(|s: String| s@) == list@.take(i as int).map_values(
                |s: String| s@,
            ).filter(|s: Seq<char>| s != excluded@),
        decreases list.len() - i,
    {
        let item = &list[i];
        proof {
            let f = |s: Seq<char>| s != excluded@;
            let before = list@.take(i as int).map_values(|s: String| s@);
            assert(list@.take(i + 1).map_values(|s: String| s@) =~= before.push(item@));
            before.lemma_filter_push(item@, f);
        }
        let ghost kept_before = kept@;
        if *item != *excluded {
            kept.push(item.clone());
            proof {
                assert(kept@.map_values(|s: String| s@) =~= kept_before.map_values(
                    |s: String| s@,
                ).push(item@));
            }
        }
        i = i + 1;
    }
    proof {
        assert(list@.take(list.len() as int) =~= list@);
    }
    kept
}


/// `a` comes before `b` at position `k`: they agree on their first `k` bytes,
/// and there `a` ends while `b` goes on, or `a`'s byte is the smaller.
pub open spec fn before_at(a: Seq<u8>, b: Seq<u8>, k: int) -> bool {
    &&& 0 <= k <= a.len()
    &&& k <= b.len()
    &&& a.take(k) == b.take(k)
    &&& ((k == a.len() && k < b.len()) || (k < a.len() && k < b.len() && a[k] < b[k]))
}

/// Byte-wise lexicographic order, the order of Rust's strings.
pub open spec fn bytes_before(a: Seq<u8>, b: Seq<u8>) -> bool {
    exists|k: int| #[trigger] before_at(a, b, k)
}

/// The order of texts: that of their UTF-8 bytes.
pub open spec fn text_before(a: Seq<char>, b: Seq<char>) -> bool {
    bytes_before(vstd::utf8::encode_utf8(a), vstd::utf8::encode_utf8(b))
}

/// No byte string comes before itself, and of two byte strings at most one
/// comes before the other.
pub proof fn lemma_bytes_before_asymmetric(a: Seq<u8>, b: Seq<u8>)
    ensures
        bytes_before(a, b) ==> !bytes_before(b, a),
        !bytes_before(a, a),
{
    if bytes_before(a, b) && bytes_before(b, a) {
        let k1 = choose|k: int| before_at(a, b, k);
        let k2 = choose|k: int| before_at(b, a, k);
        if k1 < k2 {
            assert(a.take(k2)[k1] == b.take(k2)[k1]);
        } else if k2 < k1 {
            assert(a.take(k1)[k2] == b.take(k1)[k2]);
        }
    }
}

/// The byte-wise order is transitive.
pub proof fn lemma_bytes_before_transitive(a: Seq<u8>, b: Seq<u8>, c: Seq<u8>)
    requires
        bytes_before(a, b),
        bytes_before(b, c),
    ensures
        bytes_before(a, c),
{
    let k1 = choose|k: int| before_at(a, b, k);
    let k2 = choose|k: int| before_at(b, c, k);
    let k = if k1 <= k2 {
        k1
    } else {
        k2
    };
    assert(a.take(k) =~= a.take(k1).take(k));
    assert(b.take(k) =~= b.take(k1).take(k));
    assert(b.take(k) =~= b.take(k2).take(k));
    assert(c.take(k) =~= c.take(k2).take(k));
    if k1 < k2 {
        assert(b.take(k2)[k1] == c.take(k2)[k1]);
    } else if k2 < k1 {
        assert(a.take(k1)[k2] == b.take(k1)[k2]);
    }
    assert(before_at(a, c, k));
}

/// How two texts compare in byte-wise order.
#[derive(Clone, Copy, Debug, PartialEq, Eq, Structural)]
pub enum TextOrder {
    Before,
    Same,
    After,
}

/// Compares two texts byte by byte, as Rust orders strings.
pub fn compare_texts(a: &str, b: &str) -> (order: TextOrder)
    ensures
        order == TextOrder::Before <==> text_before(a@, b@),
        order == TextOrder::Same <==> a@ == b@,
        order == TextOrder::After <==> text_before(b@, a@),
{
    proof {
        vstd::utf8::encode_utf8_decode_utf8(a@);
        vstd::utf8::encode_utf8_decode_utf8(b@);
        lemma_bytes_before_asymmetric(vstd::utf8::encode_utf8(a@), vstd::utf8::encode_utf8(b@));
        lemma_bytes_before_asymmetric(vstd::utf8::encode_utf8(b@), vstd::utf8::encode_utf8(a@));
    }
    let ab = a.as_bytes();
    let bb = b.as_bytes();
    let mut k: usize = 0;
    while k < ab.len() && k < bb.len() && ab[k] == bb[k]
        invariant
            k <= ab@.len(),
            k <= bb@.len(),
            ab@.take(k as int) == bb@.take(k as int),
        decreases ab.len() - k,
    {
        assert(ab@.take(k + 1) =~= ab@.take(k as int).push(ab@[k as int]));
        assert(bb@.take(k + 1) =~= bb@.take(k as int).push(bb@[k as int]));
        k = k + 1;
    }
    if k < ab.len() && k < bb.len() {
        if ab[k] < bb[k] {
            assert(before_at(ab@, bb@, k as int));
            TextOrder::Before
        } else {
            assert(before_at(bb@, ab@, k as int));
            TextOrder::After
        }
    } else if ab.len() == bb.len() {
        assert(ab@ =~= ab@.take(k as int));
        assert(bb@ =~= bb@.take(k as int));
        TextOrder::Same
    } else if k == ab.len() {
        assert(before_at(ab@, bb@, k as int));
        TextOrder::Before
    } else {
        assert(before_at(bb@, ab@, k as int));
        TextOrder::After
    }
}

} // verus!
