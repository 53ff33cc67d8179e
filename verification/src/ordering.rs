//! Sorting and order statistics over oracle values.
use vstd::prelude::*;
use vstd::multiset::Multiset;
use vstd::relations::{sorted_by, total_ordering};
use vstd::seq_lib::{lemma_multiset_commutative, lemma_sorted_unique};

verus! {

/// The natural order on values.
pub open spec fn value_leq() -> spec_fn(u64, u64) -> bool {
    |a: u64, b: u64| a <= b
}

/// The values of `s` in ascending order.
pub open spec fn sorted_values(s: Seq<u64>) -> Seq<u64> {
    s.sort_by(value_leq())
}

/// The `k`-th smallest element of `s` (counting from zero).
pub open spec fn kth_smallest(s: Seq<u64>, k: int) -> u64 {
    sorted_values(s)[k]
}

pub proof fn lemma_value_leq_total()
    ensures
        total_ordering(value_leq()),
{
}

/// The ascending order of `s` is a sorted permutation of `s`.
pub proof fn lemma_sorted_values(s: Seq<u64>)
    ensures
        sorted_by(sorted_values(s), value_leq()),
        sorted_values(s).to_multiset() == s.to_multiset(),
        sorted_values(s).len() == s.len(),
{
    lemma_value_leq_total();
    s.lemma_sort_by_ensures(value_leq());
    s.to_multiset_ensures();
    sorted_values(s).to_multiset_ensures();
}

/// Any sorted permutation of `s` is its ascending order.
pub proof fn lemma_sorted_permutation_is_sorted_values(s: Seq<u64>, t: Seq<u64>)
    requires
        sorted_by(t, value_leq()),
        t.to_multiset() == s.to_multiset(),
    ensures
        t == sorted_values(s),
{
    lemma_sorted_values(s);
    lemma_value_leq_total();
    lemma_sorted_unique(t, sorted_values(s), value_leq());
}

/// Position at which `x` is inserted into the sorted `t` so that it stays sorted:
/// the first index whose element is greater than `x`.
fn insertion_point(t: &Vec<u64>, x: u64) -> (p: usize)
    requires
        sorted_by(t@, value_leq()),
    ensures
        p <= t.len(),
        forall|i: int| 0 <= i < p ==> t@[i] <= x,
        forall|i: int| p <= i < t.len() ==> x < t@[i],
{
    let mut p: usize = 0;
    while p < t.len() && t[p] <= x
        invariant
            p <= t.len(),
            sorted_by(t@, value_leq()),
            forall|i: int| 0 <= i < p ==> t@[i] <= x,
        decreases t.len() - p,
    {
        p = p + 1;
    }
    proof {
        if p < t.len() {
            assert forall|i: int| p <= i < t.len() implies x < t@[i] by {
                assert(value_leq()(t@[p as int], t@[i]) || i == p);
            }
        }
    }
    p
}

/// The values of `v` in ascending order (insertion sort).
pub fn sort_values(v: &Vec<u64>) -> (r: Vec<u64>)
    ensures
        r@ == sorted_values(v@),
{
    let mut t: Vec<u64> = Vec::new();
    let mut i: usize = 0;
    proof {
        assert(v@.take(0) =~= t@);
    }
    while i < v.len()
        invariant
            i <= v.len(),
            sorted_by(t@, value_leq()),
            t@.to_multiset() == v@.take(i as int).to_multiset(),
        decreases v.len() - i,
    {
        let x = v[i];
        let p = insertion_point(&t, x);
        let ghost old_t = t@;
        t.insert(p, x);
        proof {
            let left = old_t.subrange(0, p as int);
            let right = old_t.subrange(p as int, old_t.len() as int);
            assert(old_t == left + right);
            assert(t@ == left + (seq![x] + right));
            lemma_multiset_commutative(left, right);
            lemma_multiset_commutative(seq![x], right);
            lemma_multiset_commutative(left, seq![x] + right);
            assert(seq![x].to_multiset() == Multiset::<u64>::empty().insert(x)) by {
                seq![x].to_multiset_ensures();
                Seq::<u64>::empty().to_multiset_ensures();
                assert(seq![x] == Seq::<u64>::empty().push(x));
            }
            let vt = v@.take(i as int);
            assert(v@.take(i + 1) == vt.push(x));
            vt.to_multiset_ensures();
            assert(t@.to_multiset() =~= v@.take(i + 1).to_multiset());
            assert forall|a: int, b: int| 0 <= a < b < t@.len() implies #[trigger] value_leq()(
                t@[a],
                t@[b],
            ) by {
                assert(value_leq()(old_t[a], old_t[b - 1]) || a >= p || b - 1 <= p || true);
                if b < p {
                    assert(value_leq()(old_t[a], old_t[b]));
                } else if b == p {
                } else if a < p {
                    assert(old_t[a] <= x);
                } else if a == p {
                } else {
                    assert(value_leq()(old_t[a - 1], old_t[b - 1]));
                }
            }
        }
        i = i + 1;
    }
    proof {
        assert(v@.take(v.len() as int) == v@);
        lemma_sorted_permutation_is_sorted_values(v@, t@);
    }
    t
}

} // verus!
