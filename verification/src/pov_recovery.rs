//! Recovery of parachain blocks whose proof of validity was made available on
//! the relay chain but which were never announced to this node.
//!
//! The node runs the waiting, the availability requests, the decoding and the
//! imports; the bookkeeping and its decisions are made here: which candidates
//! are pending, which are being recovered, and what happens to a recovered
//! block (imported, kept until its parent is recovered, or dropped). Blocks
//! are identified by integers the node assigns to their hashes.
use std::collections::{HashMap, HashSet};
use vstd::std_specs::iter::IteratorSpec;
use vstd::prelude::*;

verus! {

broadcast use vstd::std_specs::hash::group_hash_axioms;

/// Identifier of a parachain block.
pub type BlockHash = u64;

/// Parachain block numbers.
pub type BlockNumber = u32;

/// Relay-chain session indices.
pub type SessionIndex = u32;

/// A candidate whose block is waiting to be seen, or else recovered.
pub struct PendingCandidate<R> {
    /// The candidate receipt, handed to the availability recovery.
    pub receipt: R,
    pub session_index: SessionIndex,
    pub block_number: BlockNumber,
}

/// The state of the recovery as mathematical values.
pub struct PoVRecoveryView<R, B> {
    pub pending_candidates: Map<BlockHash, PendingCandidate<R>>,
    pub recovering_candidates: Set<BlockHash>,
    /// Recovered blocks waiting for their parent to be recovered, by parent.
    pub waiting_for_parent: Map<BlockHash, Seq<B>>,
}

/// The bookkeeping of the recovery.
pub struct PoVRecovery<R, B> {
    pub pending_candidates: HashMap<BlockHash, PendingCandidate<R>>,
    pub recovering_candidates: HashSet<BlockHash>,
    pub waiting_for_parent: HashMap<BlockHash, Vec<B>>,
}

impl<R, B> View for PoVRecovery<R, B> {
    type V = PoVRecoveryView<R, B>;

    open spec fn view(&self) -> PoVRecoveryView<R, B> {
        PoVRecoveryView {
            pending_candidates: self.pending_candidates@,
            recovering_candidates: self.recovering_candidates@,
            waiting_for_parent: self.waiting_for_parent@.map_values(|v: Vec<B>| v@),
        }
    }
}

/// What the node learnt of a recovered candidate.
pub enum Recovered<B> {
    /// The availability recovery gave no data.
    Unavailable,
    /// The data could not be decompressed or decoded into a block.
    Undecodable,
    /// The block, its parent, and what the parachain client says of the parent.
    Block { block: B, parent: BlockHash, parent_status: ParentStatus },
}

/// What the parachain client says of a block.
#[derive(Clone, Copy, Debug, PartialEq, Eq, Structural)]
pub enum ParentStatus {
    /// The block is not known.
    Unknown,
    /// The block is known (imported, queued or known to be bad).
    Known,
    /// The client failed to tell.
    Error,
}

/// What the node does with a recovered candidate.
pub enum RecoveryAction<B> {
    /// Nothing: the block is dropped or kept until its parent is recovered.
    Nothing,
    /// Import the block (and then the blocks that waited for it).
    Import(B),
}

impl<R, B> PoVRecoveryView<R, B> {
    /// The state after a recovered candidate is handled, and the action.
    pub open spec fn handle_candidate_recovered(self, block_hash: BlockHash, recovered: Recovered<B>) -> (
        PoVRecoveryView<R, B>,
        RecoveryAction<B>,
    ) {
        let s = PoVRecoveryView { recovering_candidates: self.recovering_candidates.remove(block_hash), ..self };
        match recovered {
            Recovered::Block { block, parent, parent_status } => match parent_status {
                ParentStatus::Unknown => if s.recovering_candidates.contains(parent) {
                    let waiting = if s.waiting_for_parent.contains_key(parent) {
                        s.waiting_for_parent[parent]
                    } else {
                        Seq::empty()
                    };
                    (
                        PoVRecoveryView {
                            waiting_for_parent: s.waiting_for_parent.insert(parent, waiting.push(block)),
                            ..s
                        },
                        RecoveryAction::Nothing,
                    )
                } else {
                    (s, RecoveryAction::Nothing)
                },
                ParentStatus::Error => (s, RecoveryAction::Nothing),
                ParentStatus::Known => (s, RecoveryAction::Import(block)),
            },
            _ => (s, RecoveryAction::Nothing),
        }
    }
}

impl<R, B> PoVRecovery<R, B> {
    /// Nothing pending, nothing being recovered.
    pub fn new() -> (r: Self)
        ensures
            r@.pending_candidates == Map::<BlockHash, PendingCandidate<R>>::empty(),
            r@.recovering_candidates == Set::<BlockHash>::empty(),
            r@.waiting_for_parent == Map::<BlockHash, Seq<B>>::empty(),
    {
        let r = PoVRecovery {
            pending_candidates: HashMap::new(),
            recovering_candidates: HashSet::new(),
            waiting_for_parent: HashMap::new(),
        };
        proof {
            assert(r@.recovering_candidates =~= Set::<BlockHash>::empty());
            assert(r@.waiting_for_parent =~= Map::<BlockHash, Seq<B>>::empty());
        }
        r
    }

    /// A candidate was included on the relay chain: it waits for its block
    /// to be seen. Returns whether it is new, in which case the node schedules
    /// its recovery (after a random part of a relay-chain slot).
    pub fn insert_pending_candidate(
        &mut self,
        hash: BlockHash,
        block_number: BlockNumber,
        receipt: R,
        session_index: SessionIndex,
    ) -> (schedule: bool)
        ensures
            final(self)@.pending_candidates == old(self)@.pending_candidates.insert(
                hash,
                PendingCandidate { receipt, session_index, block_number },
            ),
            final(self)@.recovering_candidates == old(self)@.recovering_candidates,
            final(self)@.waiting_for_parent == old(self)@.waiting_for_parent,
            schedule == !old(self)@.pending_candidates.contains_key(hash),
    {
        let existed = self.pending_candidates.contains_key(&hash);
        self.pending_candidates.insert(hash, PendingCandidate { receipt, session_index, block_number });
        !existed
    }

    /// The block was imported: its candidate needs no recovery.
    pub fn block_imported(&mut self, hash: BlockHash)
        ensures
            final(self)@.pending_candidates == old(self)@.pending_candidates.remove(hash),
            final(self)@.recovering_candidates == old(self)@.recovering_candidates,
            final(self)@.waiting_for_parent == old(self)@.waiting_for_parent,
    {
        self.pending_candidates.remove(&hash);
    }

    /// A block was finalized: candidates at or below its number are dropped.
    pub fn block_finalized(&mut self, block_number: BlockNumber)
        ensures
            final(self)@.pending_candidates == old(self)@.pending_candidates.restrict(
                old(self)@.pending_candidates.dom().filter(
                    |h: BlockHash| old(self)@.pending_candidates[h].block_number > block_number,
                ),
            ),
            final(self)@.recovering_candidates == old(self)@.recovering_candidates,
            final(self)@.waiting_for_parent == old(self)@.waiting_for_parent,
    {
        let ghost m = self.pending_candidates@;
        let mut hashes: Vec<BlockHash> = Vec::new();
        let ghost keys = vstd::std_specs::hash::spec_keys_iter(&self.pending_candidates).remaining();
        proof {
            vstd::std_specs::hash::axiom_spec_keys_iter(&self.pending_candidates);
        }
        for h in it: self.pending_candidates.keys()
            invariant
                it.seq() == keys,
                hashes@.len() == it.index(),
                forall|j: int| 0 <= j < it.index() ==> hashes@[j] == *it.seq()[j],
        {
            hashes.push(*h);
        }
        proof {
            assert(hashes@ =~= keys.unref());
            assert(hashes@.to_set() =~= m.dom());
        }
        let mut i: usize = 0;
        while i < hashes.len()
            invariant
                i <= hashes.len(),
                hashes@.to_set() == m.dom(),
                hashes@.no_duplicates(),
                self.recovering_candidates@ == old(self).recovering_candidates@,
                self.waiting_for_parent@ == old(self).waiting_for_parent@,
                m == old(self)@.pending_candidates,
                forall|h: BlockHash| #[trigger] self.pending_candidates@.contains_key(h) ==> m.contains_key(h)
                    && self.pending_candidates@[h] == m[h],
                forall|h: BlockHash| #[trigger] m.contains_key(h) && m[h].block_number > block_number
                    ==> self.pending_candidates@.contains_key(h),
                forall|j: int| 0 <= j < i && m[#[trigger] hashes@[j]].block_number <= block_number
                    ==> !self.pending_candidates@.contains_key(hashes@[j]),
                forall|j: int| i <= j < hashes@.len() ==> self.pending_candidates@.contains_key(#[trigger] hashes@[j]),
            decreases hashes.len() - i,
        {
            let h = hashes[i];
            proof {
                assert(hashes@.to_set().contains(h));
            }
            let drop = match self.pending_candidates.get(&h) {
                Some(pc) => pc.block_number <= block_number,
                None => false,
            };
            if drop {
                self.pending_candidates.remove(&h);
            }
            proof {
                assert forall|j: int| i < j < hashes@.len() implies self.pending_candidates@.contains_key(
                    #[trigger] hashes@[j],
                ) by {
                    assert(hashes@[j] != hashes@[i as int]);
                }
            }
            i = i + 1;
        }
        proof {
            assert forall|h: BlockHash| m.contains_key(h) && m[h].block_number <= block_number implies
                !self.pending_candidates@.contains_key(h) by {
                assert(hashes@.to_set().contains(h));
                let j = choose|j: int| 0 <= j < hashes@.len() && hashes@[j] == h;
                assert(m[hashes@[j]].block_number <= block_number);
            }
            assert(self.pending_candidates@ =~= m.restrict(
                m.dom().filter(|h: BlockHash| m[h].block_number > block_number),
            ));
        }
    }

    /// The time to recover a candidate came: if it is still pending, it is
    /// recovering now and its receipt goes to the availability recovery.
    pub fn recover_candidate(&mut self, block_hash: BlockHash) -> (r: Option<PendingCandidate<R>>)
        ensures
            final(self)@.pending_candidates == old(self)@.pending_candidates.remove(block_hash),
            final(self)@.waiting_for_parent == old(self)@.waiting_for_parent,
            old(self)@.pending_candidates.contains_key(block_hash) ==> r == Some(
                old(self)@.pending_candidates[block_hash],
            ) && final(self)@.recovering_candidates == old(self)@.recovering_candidates.insert(block_hash),
            !old(self)@.pending_candidates.contains_key(block_hash) ==> r is None
                && final(self)@.recovering_candidates == old(self)@.recovering_candidates,
    {
        let pending = self.pending_candidates.remove(&block_hash);
        match pending {
            Some(pc) => {
                self.recovering_candidates.insert(block_hash);
                proof {
                    assert(self@.recovering_candidates =~= old(self)@.recovering_candidates.insert(block_hash));
                }
                Some(pc)
            },
            None => None,
        }
    }

    /// A recovery ended: the candidate is no longer recovering, and its block
    /// is imported when its parent is known, kept while its parent is itself
    /// being recovered, and dropped otherwise.
    pub fn handle_candidate_recovered(&mut self, block_hash: BlockHash, recovered: Recovered<B>) -> (r: RecoveryAction<
        B,
    >)
        ensures
            (final(self)@, r) == old(self)@.handle_candidate_recovered(block_hash, recovered),
    {
        self.recovering_candidates.remove(&block_hash);
        proof {
            assert(self@.recovering_candidates =~= old(self)@.recovering_candidates.remove(block_hash));
        }
        match recovered {
            Recovered::Block { block, parent, parent_status } => match parent_status {
                ParentStatus::Unknown => {
                    if self.recovering_candidates.contains(&parent) {
                        let ghost before = self@;
                        let mut waiting = match self.waiting_for_parent.remove(&parent) {
                            Some(v) => v,
                            None => Vec::new(),
                        };
                        waiting.push(block);
                        let ghost wv = waiting@;
                        self.waiting_for_parent.insert(parent, waiting);
                        proof {
                            assert(self@.waiting_for_parent =~= before.waiting_for_parent.insert(parent, wv));
                        }
                    }
                    RecoveryAction::Nothing
                },
                ParentStatus::Error => RecoveryAction::Nothing,
                ParentStatus::Known => RecoveryAction::Import(block),
            },
            Recovered::Unavailable => RecoveryAction::Nothing,
            Recovered::Undecodable => RecoveryAction::Nothing,
        }
    }

    /// A block was imported: the blocks that waited for it are imported next,
    /// in the order they were recovered.
    pub fn take_waiting(&mut self, block_hash: BlockHash) -> (r: Vec<B>)
        ensures
            final(self)@.pending_candidates == old(self)@.pending_candidates,
            final(self)@.recovering_candidates == old(self)@.recovering_candidates,
            final(self)@.waiting_for_parent == old(self)@.waiting_for_parent.remove(block_hash),
            r@ == if old(self)@.waiting_for_parent.contains_key(block_hash) {
                old(self)@.waiting_for_parent[block_hash]
            } else {
                Seq::empty()
            },
    {
        let r = match self.waiting_for_parent.remove(&block_hash) {
            Some(v) => v,
            None => Vec::new(),
        };
        proof {
            assert(self@.waiting_for_parent =~= old(self)@.waiting_for_parent.remove(block_hash));
        }
        r
    }
}

/// Handling a recovered candidate: the candidate stops being recovered; its
/// block is imported exactly when the parent is known; with an unknown parent
/// that is itself being recovered the block waits for it, after the blocks
/// already waiting; in every other case it is dropped, and nothing else
/// changes.
pub proof fn law_recovered_block_fate<R, B>(
    s: PoVRecoveryView<R, B>,
    block_hash: BlockHash,
    block: B,
    parent: BlockHash,
    parent_status: ParentStatus,
)
    ensures
        ({
            let (t, action) = s.handle_candidate_recovered(
                block_hash,
                Recovered::Block { block, parent, parent_status },
            );
            let waits = parent_status == ParentStatus::Unknown && parent != block_hash
                && s.recovering_candidates.contains(parent);
            let waiting = if s.waiting_for_parent.contains_key(parent) {
                s.waiting_for_parent[parent]
            } else {
                Seq::empty()
            };
            &&& t.recovering_candidates == s.recovering_candidates.remove(block_hash)
            &&& t.pending_candidates == s.pending_candidates
            &&& (action is Import <==> parent_status == ParentStatus::Known)
            &&& (action matches RecoveryAction::Import(b) ==> b == block)
            &&& waits ==> t.waiting_for_parent == s.waiting_for_parent.insert(parent, waiting.push(block))
            &&& !waits ==> t.waiting_for_parent == s.waiting_for_parent
        }),
{
}

/// A candidate whose recovery gave no usable block is dropped: it stops being
/// recovered, nothing is imported and no block waits for it.
pub proof fn law_unusable_recovery_is_dropped<R, B>(s: PoVRecoveryView<R, B>, block_hash: BlockHash, recovered: Recovered<B>)
    requires
        !(recovered is Block),
    ensures
        s.handle_candidate_recovered(block_hash, recovered).1 is Nothing,
        s.handle_candidate_recovered(block_hash, recovered).0 == (PoVRecoveryView {
            recovering_candidates: s.recovering_candidates.remove(block_hash),
            ..s
        }),
{
}

} // verus!
