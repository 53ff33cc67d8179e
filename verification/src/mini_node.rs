//! Pieces of the minimal relay-chain node that runs beside a collator: the
//! selection of the active leaves the overseer starts with, and the handles
//! the node wires together.
use std::sync::Arc;
use vstd::prelude::*;

verus! {

/// A 32-byte block hash.
pub type H256 = [u8; 32];

/// Whether two hashes are equal.
pub fn hashes_equal(a: &H256, b: &H256) -> (r: bool)
    ensures
        r == (a@ == b@),
{
    let mut i: usize = 0;
    while i < 32
        invariant
            i <= 32,
            a@.len() == 32,
            b@.len() == 32,
            forall|k: int| 0 <= k < i ==> a@[k] == b@[k],
        decreases 32 - i,
    {
        if a[i] != b[i] {
            return false;
        }
        i = i + 1;
    }
    proof {
        assert(a@ =~= b@);
    }
    true
}

/// The most active leaves the overseer starts with.
pub const MAX_ACTIVE_LEAVES: usize = 4usize;

/// A relay-chain block as the overseer sees it.
#[derive(Clone, Copy, Debug, PartialEq, Eq)]
pub struct BlockInfo {
    pub hash: H256,
    pub parent_hash: H256,
    pub number: u32,
}

/// Whether a leaf is worth following beside the best block: it is at most an
/// uncle of the best block, and not the best block itself.
pub open spec fn is_active_candidate(leaf: BlockInfo, best: BlockInfo) -> bool {
    &&& leaf.number >= (if best.number >= 1 { best.number - 1 } else { 0 })
    &&& leaf.hash@ != best.hash@
}

/// The leaves worth following beside the best block, in order.
pub open spec fn active_candidates(leaves: Seq<BlockInfo>, best: BlockInfo) -> Seq<BlockInfo> {
    leaves.filter(|b: BlockInfo| is_active_candidate(b, best))
}

pub open spec fn number_is(n: u32) -> spec_fn(BlockInfo) -> bool {
    |b: BlockInfo| b.number == n
}

/// `t` holds the blocks of `s` ordered by number, blocks of equal number
/// keeping their order in `s`.
pub open spec fn stably_sorted_by_number(s: Seq<BlockInfo>, t: Seq<BlockInfo>) -> bool {
    &&& forall|i: int, j: int| 0 <= i < j < t.len() ==> t[i].number <= t[j].number
    &&& forall|n: u32| #[trigger] t.filter(number_is(n)) == s.filter(number_is(n))
}

/// The blocks newest first, at most `MAX_ACTIVE_LEAVES` of them.
pub open spec fn newest_first(v: Seq<BlockInfo>) -> Seq<BlockInfo> {
    if v.len() <= MAX_ACTIVE_LEAVES {
        v.reverse()
    } else {
        v.reverse().take(MAX_ACTIVE_LEAVES as int)
    }
}

/// Insert `b` after every block of `t` whose number is not above its own.
fn insert_by_number(t: &mut Vec<BlockInfo>, b: BlockInfo, Ghost(s): Ghost<Seq<BlockInfo>>)
    requires
        stably_sorted_by_number(s, old(t)@),
    ensures
        stably_sorted_by_number(s.push(b), final(t)@),
{
    let mut p: usize = 0;
    while p < t.len() && t[p].number <= b.number
        invariant
            p <= t.len(),
            forall|k: int| 0 <= k < p ==> t@[k].number <= b.number,
        decreases t.len() - p,
    {
        p = p + 1;
    }
    let ghost old_t = t@;
    proof {
        assert forall|k: int| p <= k < old_t.len() implies old_t[k].number > b.number by {
            assert(old_t[p as int].number <= old_t[k].number);
        }
    }
    t.insert(p, b);
    proof {
        let left = old_t.subrange(0, p as int);
        let right = old_t.subrange(p as int, old_t.len() as int);
        assert(old_t =~= left + right);
        assert(t@ =~= left + (seq![b] + right));
        assert forall|i: int, j: int| 0 <= i < j < t@.len() implies t@[i].number <= t@[j].number by {
            if j < p {
            } else if j == p {
            } else if i < p {
                assert(t@[j] == old_t[j - 1]);
            } else if i == p {
                assert(t@[j] == old_t[j - 1]);
            } else {
                assert(t@[i] == old_t[i - 1]);
                assert(t@[j] == old_t[j - 1]);
            }
        }
        assert forall|n: u32| #[trigger] t@.filter(number_is(n)) == s.push(b).filter(number_is(n)) by {
            let f = number_is(n);
            Seq::filter_distributes_over_add(left, seq![b] + right, f);
            Seq::filter_distributes_over_add(seq![b], right, f);
            Seq::filter_distributes_over_add(left, right, f);
            Seq::filter_distributes_over_add(s, seq![b], f);
            assert(s.push(b) =~= s + seq![b]);
            reveal_with_fuel(Seq::filter, 2);
            if n == b.number {
                assert(right.filter(f) =~= Seq::<BlockInfo>::empty()) by {
                    if right.filter(f).len() > 0 {
                        right.lemma_filter_pred(f, 0);
                        let x = right.filter(f)[0];
                        assert(right.filter(f).contains(x));
                        right.lemma_filter_contains_rev(f, x);
                        let k = choose|k: int| 0 <= k < right.len() && right[k] == x;
                        assert(old_t[p + k] == right[k]);
                    }
                }
                assert(seq![b].filter(f) =~= seq![b]);
            } else {
                assert(seq![b].filter(f) =~= Seq::<BlockInfo>::empty());
            }
        }
    }
}

/// The active leaves the overseer starts with: the leaves that are at most an
/// uncle of the best block, ordered by number (stably), then the best block;
/// newest first and at most `MAX_ACTIVE_LEAVES` of them.
pub fn active_leaves(leaves: &Vec<BlockInfo>, best: BlockInfo) -> (r: Vec<BlockInfo>)
    ensures
        exists|t: Seq<BlockInfo>|
            #[trigger] stably_sorted_by_number(active_candidates(leaves@, best), t) && r@ == newest_first(
                t.push(best),
            ),
{
    let ghost pred = |b: BlockInfo| is_active_candidate(b, best);
    let min_number = if best.number >= 1 { best.number - 1 } else { 0 };
    let mut t: Vec<BlockInfo> = Vec::new();
    let mut i: usize = 0;
    proof {
        assert(leaves@.take(0) =~= Seq::<BlockInfo>::empty());
        reveal_with_fuel(Seq::filter, 1);
        assert forall|n: u32| #[trigger] t@.filter(number_is(n)) == leaves@.take(0).filter(pred).filter(number_is(n)) by {
            assert(t@.filter(number_is(n)) =~= Seq::<BlockInfo>::empty());
            assert(leaves@.take(0).filter(pred) =~= Seq::<BlockInfo>::empty());
            assert(Seq::<BlockInfo>::empty().filter(number_is(n)) =~= Seq::<BlockInfo>::empty());
        }
    }
    while i < leaves.len()
        invariant
            i <= leaves.len(),
            pred == (|b: BlockInfo| is_active_candidate(b, best)),
            min_number == (if best.number >= 1 { best.number - 1 } else { 0 }),
            stably_sorted_by_number(leaves@.take(i as int).filter(pred), t@),
        decreases leaves.len() - i,
    {
        let b = leaves[i];
        proof {
            assert(leaves@.take(i + 1) =~= leaves@.take(i as int).push(b));
            reveal_with_fuel(Seq::filter, 1);
            assert(leaves@.take(i + 1).drop_last() =~= leaves@.take(i as int));
        }
        if b.number >= min_number && !hashes_equal(&b.hash, &best.hash) {
            insert_by_number(&mut t, b, Ghost(leaves@.take(i as int).filter(pred)));
            proof {
                assert(leaves@.take(i + 1).filter(pred) =~= leaves@.take(i as int).filter(pred).push(b));
            }
        } else {
            proof {
                assert(leaves@.take(i + 1).filter(pred) =~= leaves@.take(i as int).filter(pred));
            }
        }
        i = i + 1;
    }
    proof {
        assert(leaves@.take(leaves.len() as int) =~= leaves@);
    }
    let ghost sorted = t@;
    t.push(best);
    let ghost v = t@;
    let mut r: Vec<BlockInfo> = Vec::new();
    let mut k: usize = t.len();
    while k > 0 && r.len() < MAX_ACTIVE_LEAVES
        invariant
            k <= t.len(),
            t@ == v,
            r.len() == t.len() - k,
            r.len() <= MAX_ACTIVE_LEAVES,
            r@ == v.reverse().take(r.len() as int),
        decreases k,
    {
        proof {
            assert(v.reverse()[r.len() as int] == v[k - 1]);
            assert(v.reverse().take(r.len() + 1) =~= v.reverse().take(r.len() as int).push(v[k - 1]));
        }
        r.push(t[k - 1]);
        k = k - 1;
    }
    proof {
        if v.len() <= MAX_ACTIVE_LEAVES {
            assert(v.reverse().take(v.len() as int) =~= v.reverse());
        }
        assert(r@ == newest_first(sorted.push(best)));
        assert(stably_sorted_by_number(leaves@.filter(pred), sorted));
        assert(active_candidates(leaves@, best) == leaves@.filter(pred));
    }
    r
}

/// The overseer generator of a collator-only relay-chain node.
pub struct CollatorOverseerGen;

/// An import queue that imports nothing: the minimal node follows the relay
/// chain through its RPC client instead.
pub struct FakeImportQueue {}

/// Chain selection of the minimal node, answered by a relay-chain RPC client.
pub struct RPCSelectChain<C> {
    pub rpc_client: Arc<C>,
}

impl<C> RPCSelectChain<C> {
    /// A chain selection served by the given RPC client.
    pub fn new(rpc_client: Arc<C>) -> (r: Self)
        ensures
            r.rpc_client == rpc_client,
    {
        RPCSelectChain { rpc_client }
    }
}

impl<C> Clone for RPCSelectChain<C> {
    fn clone(&self) -> (r: Self)
        ensures
            r.rpc_client == self.rpc_client,
    {
        RPCSelectChain { rpc_client: Arc::clone(&self.rpc_client) }
    }
}

} // verus!
