//! Data providers and the median of the values they provide.
use crate::ordering::{kth_smallest, sort_values};
use vstd::prelude::*;

verus! {

/// A simple trait to provide data.
pub trait DataProvider<Key, Value> {
    /// Get data by key.
    fn get(key: &Key) -> Option<Value>;
}

/// The median of `s` as picked by a selection at index `len / 2`.
pub open spec fn spec_select_median(s: Seq<u64>) -> Option<u64> {
    if s.len() == 0 {
        None
    } else {
        Some(kth_smallest(s, (s.len() / 2) as int))
    }
}

/// The element that would stand at index `len / 2` once `items` are sorted,
/// or `None` when there are no items.
pub fn median(items: Vec<u64>) -> (r: Option<u64>)
    ensures
        r == spec_select_median(items@),
{
    if items.len() == 0 {
        return None;
    }
    let mid_index = items.len() / 2;
    let sorted = sort_values(&items);
    proof {
        crate::ordering::lemma_sorted_values(items@);
    }
    Some(sorted[mid_index])
}

/// The values present among `provided`, in order.
pub open spec fn present_values(provided: Seq<Option<u64>>) -> Seq<u64>
    decreases provided.len(),
{
    if provided.len() == 0 {
        Seq::empty()
    } else {
        let rest = present_values(provided.drop_last());
        match provided.last() {
            Some(v) => rest.push(v),
            None => rest,
        }
    }
}

/// What a median-value data provider serves for a key: the median of the
/// values its sources hold for that key, skipping the sources that hold none.
///
/// `provided[i]` is what source `i` returned for the key.
pub fn median_of_provided(provided: &Vec<Option<u64>>) -> (r: Option<u64>)
    ensures
        r == spec_select_median(present_values(provided@)),
{
    let mut values: Vec<u64> = Vec::new();
    let mut i: usize = 0;
    while i < provided.len()
        invariant
            i <= provided.len(),
            values@ == present_values(provided@.take(i as int)),
        decreases provided.len() - i,
    {
        proof {
            assert(provided@.take(i + 1).drop_last() == provided@.take(i as int));
        }
        match provided[i] {
            Some(v) => values.push(v),
            None => {},
        }
        i = i + 1;
    }
    proof {
        assert(provided@.take(provided.len() as int) == provided@);
    }
    median(values)
}

proof fn lemma_present_values(provided: Seq<Option<u64>>)
    ensures
        forall|v: u64| present_values(provided).contains(v) <==> provided.contains(Some(v)),
        present_values(provided).len() == 0 <==> forall|i: int| 0 <= i < provided.len() ==> provided[i] is None,
    decreases provided.len(),
{
    if provided.len() > 0 {
        let d = provided.drop_last();
        lemma_present_values(d);
        let rest = present_values(d);
        assert forall|v: u64| present_values(provided).contains(v) <==> provided.contains(Some(v)) by {
            if provided.contains(Some(v)) {
                let k = choose|k: int| 0 <= k < provided.len() && provided[k] == Some(v);
                if k < provided.len() - 1 {
                    assert(d[k] == Some(v));
                    assert(d.contains(Some(v)));
                    assert(rest.contains(v));
                    let j = choose|j: int| 0 <= j < rest.len() && rest[j] == v;
                    if provided.last() is Some {
                        assert(present_values(provided) == rest.push(provided.last().unwrap()));
                    } else {
                        assert(present_values(provided) == rest);
                    }
                    assert(present_values(provided)[j] == v);
                } else {
                    assert(present_values(provided) == rest.push(v));
                    assert(present_values(provided)[rest.len() as int] == v);
                }
            }
            if present_values(provided).contains(v) {
                let j = choose|j: int| 0 <= j < present_values(provided).len() && present_values(provided)[j] == v;
                if j < rest.len() {
                    if provided.last() is Some {
                        assert(present_values(provided) == rest.push(provided.last().unwrap()));
                    } else {
                        assert(present_values(provided) == rest);
                    }
                    assert(rest[j] == v);
                    assert(rest.contains(v));
                    assert(d.contains(Some(v)));
                    let k = choose|k: int| 0 <= k < d.len() && d[k] == Some(v);
                    assert(d[k] == provided[k]);
                    assert(provided[k] == Some(v));
                } else {
                    assert(provided[provided.len() - 1] == Some(v));
                }
            }
        }
    }
    let pv = present_values(provided);
    if pv.len() > 0 {
        assert(pv.contains(pv[0]));
        let k = choose|k: int| 0 <= k < provided.len() && provided[k] == Some(pv[0]);
        assert(!(provided[k] is None));
    } else {
        assert forall|i: int| 0 <= i < provided.len() implies provided[i] is None by {
            if let Some(v) = provided[i] {
                assert(provided.contains(Some(v)));
                assert(pv.contains(v));
            }
        }
    }
}

/// A median-value provider serves nothing exactly when no source holds a
/// value for the key, and otherwise one of the values the sources hold.
pub proof fn law_median_is_a_provided_value(provided: Seq<Option<u64>>)
    ensures
        spec_select_median(present_values(provided)) is None <==> forall|i: int|
            0 <= i < provided.len() ==> provided[i] is None,
        spec_select_median(present_values(provided)) matches Some(m) ==> provided.contains(Some(m)),
{
    lemma_present_values(provided);
    let vs = present_values(provided);
    if vs.len() > 0 {
        let k = (vs.len() / 2) as int;
        let t = crate::ordering::sorted_values(vs);
        crate::ordering::lemma_sorted_values(vs);
        t.to_multiset_ensures();
        vs.to_multiset_ensures();
        assert(t.contains(t[k]));
        assert(t.to_multiset().count(t[k]) > 0);
        assert(vs.contains(t[k]));
    }
}

} // verus!
