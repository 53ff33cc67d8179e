//! Resumable, bounded iteration over the storage entries under a key prefix.
//!
//! An iteration starts at a key under the prefix (or at the prefix itself),
//! asks the storage for the next key after the one it stands on, stops at the
//! first key outside the prefix, skips entries without a value or that do not
//! decode, and removes each entry it reads when it drains. A limit on the
//! number of items may be given; the iteration remembers whether the storage
//! itself ran out.
//!
//! The runtime reads, removes and decodes storage entries; the cursor and the
//! limit are here.
use vstd::prelude::*;

verus! {

/// Whether `prefix` starts `key`.
pub fn starts_with(key: &Vec<u8>, prefix: &Vec<u8>) -> (r: bool)
    ensures
        r == prefix@.is_prefix_of(key@),
{
    if prefix.len() > key.len() {
        return false;
    }
    let mut i: usize = 0;
    while i < prefix.len()
        invariant
            prefix.len() <= key.len(),
            i <= prefix.len(),
            forall|k: int| 0 <= k < i ==> prefix@[k] == key@[k],
        decreases prefix.len() - i,
    {
        if prefix[i] != key[i] {
            return false;
        }
        i = i + 1;
    }
    true
}

/// Where an iteration starts: the given key when it lies under the prefix,
/// else the prefix.
pub fn starting_key(prefix: &Vec<u8>, start_key: Option<Vec<u8>>) -> (k: Vec<u8>)
    ensures
        k@ == match start_key {
            Some(s) => if prefix@.is_prefix_of(s@) {
                s@
            } else {
                prefix@
            },
            None => prefix@,
        },
        prefix@.is_prefix_of(k@),
{
    match start_key {
        Some(s) => {
            if starts_with(&s, prefix) {
                s
            } else {
                let p = prefix.clone();
                assert(p@.is_prefix_of(p@)) by {
                    assert(p@.subrange(0, p@.len() as int) =~= p@);
                }
                p
            }
        },
        None => {
            let p = prefix.clone();
            assert(p@.is_prefix_of(p@)) by {
                assert(p@.subrange(0, p@.len() as int) =~= p@);
            }
            p
        },
    }
}

/// What to do with an entry whose key the cursor reached.
#[derive(Clone, Copy, Debug, PartialEq, Eq, Structural)]
pub enum EntryAction {
    /// The entry has no value: go on to the next key.
    Skip,
    /// Decode the entry, after removing it from storage when `remove`.
    Decode { remove: bool },
}

/// The position of an iteration under a prefix.
pub struct MapIterator {
    pub prefix: Vec<u8>,
    pub previous_key: Vec<u8>,
    /// Whether entries are removed as they are read.
    pub drain: bool,
}

impl MapIterator {
    pub open spec fn wf(&self) -> bool {
        self.prefix@.is_prefix_of(self.previous_key@)
    }

    /// A cursor at the start of an iteration.
    pub fn new(prefix: Vec<u8>, start_key: Option<Vec<u8>>, drain: bool) -> (c: Self)
        ensures
            c.wf(),
            c.prefix@ == prefix@,
            c.drain == drain,
            c.previous_key@ == match start_key {
                Some(s) => if prefix@.is_prefix_of(s@) {
                    s@
                } else {
                    prefix@
                },
                None => prefix@,
            },
    {
        let previous_key = starting_key(&prefix, start_key);
        MapIterator { prefix, previous_key, drain }
    }

    /// The storage's next key after the cursor: the cursor moves to it when it
    /// lies under the prefix (`true`); otherwise the iteration is over.
    pub fn advance(&mut self, next_key: Option<Vec<u8>>) -> (moved: bool)
        requires
            old(self).wf(),
        ensures
            final(self).wf(),
            final(self).prefix == old(self).prefix,
            final(self).drain == old(self).drain,
            moved == (next_key matches Some(k) && old(self).prefix@.is_prefix_of(k@)),
            moved ==> final(self).previous_key@ == next_key.unwrap()@,
            !moved ==> final(self).previous_key == old(self).previous_key,
    {
        match next_key {
            Some(k) => {
                if starts_with(&k, &self.prefix) {
                    self.previous_key = k;
                    true
                } else {
                    false
                }
            },
            None => false,
        }
    }

    /// What to do with the entry at the cursor, given whether it has a value.
    pub fn entry_action(&self, has_value: bool) -> (a: EntryAction)
        ensures
            a == if has_value {
                EntryAction::Decode { remove: self.drain }
            } else {
                EntryAction::Skip
            },
    {
        if has_value {
            EntryAction::Decode { remove: self.drain }
        } else {
            EntryAction::Skip
        }
    }

    /// The key at the cursor without the prefix, which the decoder reads.
    pub fn key_without_prefix(&self) -> (k: Vec<u8>)
        requires
            self.wf(),
        ensures
            k@ == self.previous_key@.skip(self.prefix@.len() as int),
    {
        let start = self.prefix.len();
        let mut k: Vec<u8> = Vec::new();
        let mut i: usize = start;
        while i < self.previous_key.len()
            invariant
                start == self.prefix@.len(),
                start <= i <= self.previous_key.len(),
                k@ == self.previous_key@.subrange(start as int, i as int),
            decreases self.previous_key.len() - i,
        {
            k.push(self.previous_key[i]);
            i = i + 1;
            proof {
                assert(k@ =~= self.previous_key@.subrange(start as int, i as int));
            }
        }
        proof {
            assert(k@ =~= self.previous_key@.skip(self.prefix@.len() as int));
        }
        k
    }
}

/// An iteration with an optional limit on the number of items it hands
/// out, which remembers whether the storage ran out.
pub struct MapIteratorShim {
    pub map_iterator: MapIterator,
    pub remain_iterator_count: Option<u32>,
    pub finished: bool,
}

/// The iteration over a storage map: the same cursor.
pub type StorageMapIterator = MapIterator;

/// The limited iteration over a storage map: the same shim.
pub type StorageMapIteratorShim = MapIteratorShim;

/// The remaining count after one request, and whether the request may go on.
pub open spec fn limit_step(remain: Option<u32>) -> (Option<u32>, bool) {
    match remain {
        Some(n) => if n == 0 {
            (Some(0u32), false)
        } else {
            (Some((n - 1) as u32), true)
        },
        None => (None, true),
    }
}

/// How many of `k` successive requests may go on.
pub open spec fn allowed(remain: Option<u32>, k: nat) -> nat
    decreases k,
{
    if k == 0 {
        0
    } else {
        let (next, go) = limit_step(remain);
        (if go {
            1nat
        } else {
            0nat
        }) + allowed(next, (k - 1) as nat)
    }
}

impl MapIteratorShim {
    /// At the start of an iteration.
    pub fn new(map_iterator: MapIterator, max_iterations: Option<u32>) -> (l: Self)
        ensures
            l.map_iterator == map_iterator,
            l.remain_iterator_count == max_iterations,
            !l.finished,
    {
        MapIteratorShim { map_iterator, remain_iterator_count: max_iterations, finished: false }
    }

    /// Before the next item is read: whether the limit allows it; an
    /// allowed read uses up one item of the limit.
    pub fn try_take(&mut self) -> (go: bool)
        ensures
            (final(self).remain_iterator_count, go) == limit_step(old(self).remain_iterator_count),
            final(self).finished == old(self).finished,
            final(self).map_iterator == old(self).map_iterator,
    {
        match self.remain_iterator_count {
            Some(n) => {
                if n == 0 {
                    false
                } else {
                    self.remain_iterator_count = Some(n - 1);
                    true
                }
            },
            None => true,
        }
    }

    /// The storage gave an item (`true`) or ran out, which is remembered.
    pub fn record(&mut self, got_item: bool)
        ensures
            final(self).remain_iterator_count == old(self).remain_iterator_count,
            final(self).finished == (old(self).finished || !got_item),
            final(self).map_iterator == old(self).map_iterator,
    {
        if !got_item {
            self.finished = true;
        }
    }
}

/// However many items are asked for, a limited iteration hands out at most
/// its limit, and exactly that many when asked for more.
pub proof fn law_limit_bounds_items(max: u32, k: nat)
    ensures
        allowed(Some(max), k) == if k <= max {
            k
        } else {
            max as nat
        },
    decreases k,
{
    if k > 0 {
        if max == 0 {
            lemma_exhausted_limit((k - 1) as nat);
        } else {
            law_limit_bounds_items((max - 1) as u32, (k - 1) as nat);
        }
    }
}

proof fn lemma_exhausted_limit(k: nat)
    ensures
        allowed(Some(0u32), k) == 0,
    decreases k,
{
    if k > 0 {
        lemma_exhausted_limit((k - 1) as nat);
    }
}

/// Without a limit, every request goes on.
pub proof fn law_unlimited_iteration(k: nat)
    ensures
        allowed(None, k) == k,
    decreases k,
{
    if k > 0 {
        law_unlimited_iteration((k - 1) as nat);
    }
}

} // verus!
