//! Ascending reordering of a sequence of bit patterns under the IEEE-754
//! total order, and the facts about it that the statistics rely on: the
//! reordering keeps exactly the caller's patterns, and it is the only
//! ascending sequence that does, so it does not depend on the order the
//! caller supplied.

use vstd::prelude::*;
use vstd::seq_lib::lemma_multiset_commutative;
use vstd::seq_lib::lemma_sorted_unique;
use vstd::relations::sorted_by;

use crate::bits::compute_sort_key;
use crate::bits::key_le;
use crate::bits::key_le_fn;
use crate::bits::lemma_key_le_total_ordering;
use crate::bits::sort_key;

verus! {

/// The ascending reordering of `s` under the IEEE-754 total order.
pub open spec fn sorted_bits(s: Seq<u64>) -> Seq<u64> {
    s.sort_by(key_le_fn())
}

/// `sorted_bits` keeps the length and the multiset of patterns, and is
/// ascending under `key_le`.
pub proof fn lemma_sorted_bits_ensures(s: Seq<u64>)
    ensures
        sorted_bits(s).to_multiset() == s.to_multiset(),
        sorted_by(sorted_bits(s), key_le_fn()),
        sorted_bits(s).len() == s.len(),
{
    lemma_key_le_total_ordering();
    s.lemma_sort_by_ensures(key_le_fn());
    s.to_multiset_ensures();
    sorted_bits(s).to_multiset_ensures();
}

/// Any ascending sequence holding exactly the patterns of `s` is
/// `sorted_bits(s)`: the reordering is unique.
pub proof fn lemma_sorted_bits_unique(s: Seq<u64>, t: Seq<u64>)
    requires
        sorted_by(t, key_le_fn()),
        t.to_multiset() == s.to_multiset(),
    ensures
        t == sorted_bits(s),
{
    lemma_key_le_total_ordering();
    lemma_sorted_bits_ensures(s);
    lemma_sorted_unique(t, sorted_bits(s), key_le_fn());
}

/// Inserting a value anywhere in a sequence adds it to the multiset.
proof fn lemma_insert_to_multiset(s: Seq<u64>, p: int, x: u64)
    requires
        0 <= p <= s.len(),
    ensures
        s.insert(p, x).to_multiset() == s.to_multiset().insert(x),
{
    broadcast use vstd::multiset::group_multiset_axioms;

    let a = s.subrange(0, p);
    let b = s.subrange(p, s.len() as int);
    lemma_multiset_commutative(a.push(x), b);
    lemma_multiset_commutative(a, b);
    a.to_multiset_ensures();
    assert(a + b =~= s);
    assert(a.push(x).to_multiset() =~= a.to_multiset().insert(x));
    assert(s.insert(p, x).to_multiset() =~= s.to_multiset().insert(x));
}

/// An ascending copy of `data` under the IEEE-754 total order. The
/// caller's vector is read, never changed: the reordering happens in a
/// fresh vector, built by insertion.
pub fn sort_bits(data: &Vec<u64>) -> (r: Vec<u64>)
    ensures
        r@ == sorted_bits(data@),
        r@.to_multiset() == data@.to_multiset(),
        sorted_by(r@, key_le_fn()),
        r@.len() == data@.len(),
{
    let mut r: Vec<u64> = Vec::new();
    let mut i: usize = 0;
    proof {
        assert(data@.subrange(0, 0) =~= r@);
    }
    while i < data.len()
        invariant
            i <= data@.len(),
            r@.len() == i,
            sorted_by(r@, key_le_fn()),
            r@.to_multiset() == data@.subrange(0, i as int).to_multiset(),
        decreases data@.len() - i,
    {
        let x = data[i];
        let kx = compute_sort_key(x);
        let mut p: usize = 0;
        while p < r.len() && compute_sort_key(r[p]) <= kx
            invariant
                p <= r@.len(),
                kx == sort_key(x),
                sorted_by(r@, key_le_fn()),
                forall|q: int| 0 <= q < p ==> key_le(#[trigger] r@[q], x),
            decreases r@.len() - p,
        {
            p += 1;
        }
        proof {
            let leq = key_le_fn();
            assert forall|q: int| p <= q < r@.len() implies key_le(x, #[trigger] r@[q]) by {
                assert(sort_key(x) < sort_key(r@[p as int]));
                if p < q {
                    assert(leq(r@[p as int], r@[q]));
                }
            }
        }
        let ghost old_r = r@;
        r.insert(p, x);
        proof {
            old_r.insert_ensures(p as int, x);
            lemma_insert_to_multiset(old_r, p as int, x);
            let leq = key_le_fn();
            assert forall|q1: int, q2: int| 0 <= q1 < q2 < r@.len() implies #[trigger] leq(
                r@[q1],
                r@[q2],
            ) by {
                if q1 < p && q2 < p {
                    assert(r@[q1] == old_r[q1] && r@[q2] == old_r[q2]);
                    assert(leq(old_r[q1], old_r[q2]));
                } else if q1 < p && q2 == p {
                    assert(r@[q1] == old_r[q1] && r@[q2] == x);
                } else if q1 < p && q2 > p {
                    assert(r@[q1] == old_r[q1] && r@[q2] == old_r[q2 - 1]);
                    assert(leq(old_r[q1], old_r[q2 - 1]));
                } else if q1 == p {
                    assert(r@[q1] == x && r@[q2] == old_r[q2 - 1]);
                    assert(key_le(x, old_r[q2 - 1]));
                } else {
                    assert(r@[q1] == old_r[q1 - 1] && r@[q2] == old_r[q2 - 1]);
                    assert(leq(old_r[q1 - 1], old_r[q2 - 1]));
                }
            }
            assert(data@.subrange(0, i as int + 1) =~= data@.subrange(0, i as int).push(
                data@[i as int],
            ));
            data@.subrange(0, i as int).to_multiset_ensures();
            assert(r@.to_multiset() =~= data@.subrange(0, i as int + 1).to_multiset());
        }
        i += 1;
    }
    proof {
        assert(data@.subrange(0, data@.len() as int) =~= data@);
        lemma_sorted_bits_unique(data@, r@);
    }
    r
}

} // verus!
