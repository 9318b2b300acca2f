//! Sorting of small byte sequences, used by the median filter: an insertion
//! sort with a matching specification, and the rank facts the median
//! contracts rest on.

use vstd::prelude::*;
use vstd::seq_lib::group_to_multiset_ensures;

verus! {

/// Insert a value into an already sorted sequence, keeping it sorted.
pub open spec fn insert_sorted(s: Seq<u8>, v: u8) -> Seq<u8>
    decreases s.len(),
{
    if s.len() == 0 {
        seq![v]
    } else if v <= s[0] {
        s.insert(0, v)
    } else {
        insert_sorted(s.drop_first(), v).insert(0, s[0])
    }
}

/// Sort a byte sequence ascending by repeated insertion.
pub open spec fn sort_bytes(s: Seq<u8>) -> Seq<u8>
    decreases s.len(),
{
    if s.len() == 0 {
        s
    } else {
        insert_sorted(sort_bytes(s.drop_first()), s.first())
    }
}

/// Ascending order.
pub open spec fn sorted(s: Seq<u8>) -> bool {
    forall|i: int, j: int| 0 <= i <= j < s.len() ==> s[i] <= s[j]
}

/// The channel median of nine samples: the fifth smallest (index 4 of the
/// sorted nine).
pub open spec fn median9(s: Seq<u8>) -> u8 {
    sort_bytes(s)[4]
}

/// Inserting into a sorted sequence keeps it sorted, grows it by one, and
/// adds exactly the inserted value to its contents.
pub proof fn lemma_insert_sorted_props(s: Seq<u8>, v: u8)
    requires
        sorted(s),
    ensures
        sorted(insert_sorted(s, v)),
        insert_sorted(s, v).len() == s.len() + 1,
        insert_sorted(s, v).to_multiset() == s.to_multiset().insert(v),
    decreases s.len(),
{
    broadcast use group_to_multiset_ensures;

    let r = insert_sorted(s, v);
    if s.len() == 0 {
        assert(seq![v] =~= Seq::<u8>::empty().insert(0, v));
        assert(r.to_multiset() =~= s.to_multiset().insert(v));
    } else if v <= s[0] {
        assert(r.to_multiset() =~= s.to_multiset().insert(v));
    } else {
        let tail = s.drop_first();
        assert(sorted(tail));
        lemma_insert_sorted_props(tail, v);
        let t = insert_sorted(tail, v);
        // contents of r
        assert(r == t.insert(0, s[0]));
        assert(t.to_multiset() == tail.to_multiset().insert(v));
        assert(s =~= tail.insert(0, s[0]));
        assert(s.to_multiset() == tail.to_multiset().insert(s[0]));
        assert(r.to_multiset() =~= s.to_multiset().insert(v)) by {
            assert(r.to_multiset() == t.to_multiset().insert(s[0]));
            assert(tail.to_multiset().insert(v).insert(s[0])
                =~= tail.to_multiset().insert(s[0]).insert(v));
        }
        // every element of t is at least s[0]
        assert forall|k: int| 0 <= k < t.len() implies s[0] <= t[k] by {
            assert(t.to_multiset().count(t[k]) > 0);
            if tail.to_multiset().count(t[k]) > 0 {
                let j = choose|j: int| 0 <= j < tail.len() && tail[j] == t[k];
                assert(s[0] == s[0 as int]);
                assert(tail[j] == s[j + 1]);
                assert(s[0] <= s[j + 1]);
            } else {
                assert(t[k] == v);
            }
        }
        assert(sorted(r)) by {
            assert(forall|k: int| 0 <= k < t.len() ==> r[k + 1] == t[k]);
            assert forall|i: int, j: int| 0 <= i <= j < r.len() implies r[i] <= r[j] by {
                if i == 0 && j > 0 {
                    assert(r[0] == s[0] && r[j] == t[j - 1]);
                }
            }
        }
    }
}

/// Sorting sorts: the result is ascending, has the same length, and holds
/// exactly the same values with the same multiplicities.
pub proof fn lemma_sort_bytes_props(s: Seq<u8>)
    ensures
        sorted(sort_bytes(s)),
        sort_bytes(s).len() == s.len(),
        sort_bytes(s).to_multiset() == s.to_multiset(),
    decreases s.len(),
{
    broadcast use group_to_multiset_ensures;

    if s.len() == 0 {
    } else {
        let tail = s.drop_first();
        lemma_sort_bytes_props(tail);
        lemma_insert_sorted_props(sort_bytes(tail), s.first());
        assert(s =~= tail.insert(0, s.first()));
        assert(s.to_multiset() == tail.to_multiset().insert(s.first()));
        assert(sort_bytes(s).to_multiset() == tail.to_multiset().insert(s.first()));
    }
}

/// Every value of the sorted sequence occurs in the original.
pub proof fn lemma_sort_bytes_element(s: Seq<u8>, k: int)
    requires
        0 <= k < s.len(),
    ensures
        s.contains(sort_bytes(s)[k]),
{
    broadcast use group_to_multiset_ensures;

    lemma_sort_bytes_props(s);
    let r = sort_bytes(s);
    assert(r.to_multiset().count(r[k]) > 0);
}

/// The median of nine samples is one of the nine; in particular each median
/// channel value lies between the smallest and largest sampled value for
/// that channel.
pub proof fn lemma_median9_in_range(s: Seq<u8>)
    requires
        s.len() == 9,
    ensures
        s.contains(median9(s)),
{
    lemma_sort_bytes_props(s);
    lemma_sort_bytes_element(s, 4);
}

/// The median of nine identical samples is that sample.
pub proof fn lemma_median9_constant(s: Seq<u8>, v: u8)
    requires
        s.len() == 9,
        forall|i: int| 0 <= i < s.len() ==> s[i] == v,
    ensures
        median9(s) == v,
{
    lemma_median9_in_range(s);
    let j = choose|j: int| 0 <= j < s.len() && s[j] == median9(s);
    assert(s[j] == v);
}

/// Insert a byte into a sorted vector, keeping it sorted; runs the
/// specification's recursion directly.
fn insert_sorted_exec(s: Vec<u8>, v: u8) -> (r: Vec<u8>)
    ensures
        r@ == insert_sorted(s@, v),
    decreases s@.len(),
{
    let ghost gs = s@;
    let mut s = s;
    if s.len() == 0 {
        s.push(v);
        proof {
            assert(s@ =~= seq![v]);
        }
        s
    } else if v <= s[0] {
        s.insert(0, v);
        s
    } else {
        let h = s.remove(0);
        proof {
            assert(s@ =~= gs.drop_first());
        }
        let mut r = insert_sorted_exec(s, v);
        r.insert(0, h);
        r
    }
}

/// Sort a byte vector ascending.
pub fn sort_bytes_exec(s: Vec<u8>) -> (r: Vec<u8>)
    ensures
        r@ == sort_bytes(s@),
    decreases s@.len(),
{
    let ghost gs = s@;
    let mut s = s;
    if s.len() == 0 {
        s
    } else {
        let h = s.remove(0);
        proof {
            assert(s@ =~= gs.drop_first());
            assert(h == gs.first());
        }
        let rest = sort_bytes_exec(s);
        insert_sorted_exec(rest, h)
    }
}

/// The fifth smallest of nine bytes.
pub fn median9_exec(s: Vec<u8>) -> (m: u8)
    requires
        s@.len() == 9,
    ensures
        m == median9(s@),
{
    proof {
        lemma_sort_bytes_props(s@);
    }
    let r = sort_bytes_exec(s);
    r[4]
}

} // verus!
