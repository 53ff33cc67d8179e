//! The level monitor that prunes by freshness.
//!
//! Every imported block gets a freshness value from a monotonic counter.
//! When a level of the chain (the blocks at one height) is full, the monitor
//! picks the block whose freshest descending leaf is the least fresh, and the
//! node removes that block and every block that descends from it, leaves
//! first. The best block, and blocks whose routes to their freshest leaf pass
//! through it, are never picked. Levels below the finalized block are
//! forgotten once in a while.
//!
//! The node asks the backend for leaves and routes and removes the blocks;
//! the monitor's bookkeeping and choices are here.
use crate::level_monitor::{
    row_view, sort_leaves_by, sorted_by_import, table_view, BlockHash, BlockNumber, DescendingRoute, HashAndNumber,
    RouteView,
};
use std::collections::HashMap;
use vstd::prelude::*;

verus! {

broadcast use vstd::std_specs::hash::group_hash_axioms;

/// How many finalized levels may pile up before they are forgotten.
pub const CLEANUP_THRESHOLD: u32 = 32u32;

/// The monitor's state as mathematical values.
pub struct MonitorView {
    pub level_limit: usize,
    pub import_counter: BlockNumber,
    pub freshness: Map<BlockHash, u64>,
    pub levels: Map<BlockNumber, Seq<BlockHash>>,
    pub lowest_level: BlockNumber,
}

/// Keeps track of the blocks of each level and of their freshness.
pub struct LevelMonitor {
    /// The most blocks a level may hold.
    pub level_limit: usize,
    /// The freshness the next imported block gets.
    pub import_counter: BlockNumber,
    pub freshness: HashMap<BlockHash, u64>,
    /// The blocks of each level, each once.
    pub levels: HashMap<BlockNumber, Vec<BlockHash>>,
    /// The lowest level still remembered.
    pub lowest_level: BlockNumber,
}

impl View for LevelMonitor {
    type V = MonitorView;

    open spec fn view(&self) -> MonitorView {
        MonitorView {
            level_limit: self.level_limit,
            import_counter: self.import_counter,
            freshness: self.freshness@,
            levels: self.levels@.map_values(|v: Vec<BlockHash>| v@),
            lowest_level: self.lowest_level,
        }
    }
}

impl MonitorView {
    /// The blocks of a level.
    pub open spec fn level(self, number: BlockNumber) -> Seq<BlockHash> {
        if self.levels.contains_key(number) {
            self.levels[number]
        } else {
            Seq::empty()
        }
    }

    /// Every level holds each of its blocks once.
    pub open spec fn wf(self) -> bool {
        forall|n: BlockNumber| #[trigger] self.levels.contains_key(n) ==> self.levels[n].no_duplicates()
    }

    /// The block is recorded at `number` with the next freshness value.
    pub open spec fn insert_block(self, number: BlockNumber, hash: BlockHash) -> MonitorView {
        MonitorView {
            freshness: self.freshness.insert(hash, self.import_counter as u64),
            levels: self.levels.insert(
                number,
                if self.level(number).contains(hash) {
                    self.level(number)
                } else {
                    self.level(number).push(hash)
                },
            ),
            import_counter: (self.import_counter + 1) as BlockNumber,
            ..self
        }
    }

    /// The levels from the lowest remembered one up to the finalized one, excluded.
    pub open spec fn stale_levels(self, finalized: BlockNumber) -> Set<BlockNumber> {
        Set::new(|n: BlockNumber| self.lowest_level <= n < finalized)
    }

    /// Once the finalized block is [`CLEANUP_THRESHOLD`] levels above the
    /// lowest remembered level, the levels in between and the freshness of
    /// their blocks are forgotten.
    pub open spec fn cleanup(self, finalized: BlockNumber) -> MonitorView {
        if finalized >= self.lowest_level && finalized - self.lowest_level >= CLEANUP_THRESHOLD {
            let stale = self.stale_levels(finalized);
            MonitorView {
                levels: self.levels.remove_keys(stale),
                freshness: self.freshness.remove_keys(
                    Set::new(|h: BlockHash| held_in(self.levels, self.lowest_level as int, finalized as int, h)),
                ),
                lowest_level: finalized,
                ..self
            }
        } else {
            self
        }
    }

    /// After an import at `number` of `hash`, with the given finalized number.
    pub open spec fn update(self, number: BlockNumber, hash: BlockHash, finalized: BlockNumber) -> MonitorView {
        self.insert_block(number, hash).cleanup(finalized)
    }

    /// The block was removed from the backend.
    pub open spec fn forget(self, number: BlockNumber, hash: BlockHash) -> MonitorView {
        MonitorView {
            levels: if self.levels.contains_key(number) {
                self.levels.insert(number, without(self.levels[number], hash))
            } else {
                self.levels
            },
            freshness: self.freshness.remove(hash),
            ..self
        }
    }
}

impl MonitorView {
    /// How many blocks must leave level `number` before a block is imported there.
    pub open spec fn removals_needed(self, number: BlockNumber) -> int {
        if self.level(number).len() < self.level_limit {
            0
        } else {
            self.level(number).len() - self.level_limit + 1
        }
    }

    /// The state once the blocks of a route that are not known yet are
    /// recorded, each with its height as its freshness.
    pub open spec fn restore_blocks(self, blocks: Seq<HashAndNumber>, finalized: BlockNumber) -> MonitorView
        decreases blocks.len(),
    {
        if blocks.len() == 0 {
            self
        } else {
            let t = self.restore_blocks(blocks.drop_last(), finalized);
            let b = blocks.last();
            if t.freshness.contains_key(b.hash) {
                t
            } else {
                MonitorView { import_counter: b.number, ..t }.update(b.number, b.hash, finalized)
            }
        }
    }

    /// The state after the routes to the leaves that descend from the
    /// finalized block are recorded, and the highest freshness reached.
    pub open spec fn restore_routes(self, routes: Seq<Option<Seq<HashAndNumber>>>, finalized: BlockNumber) -> (
        MonitorView,
        BlockNumber,
    )
        decreases routes.len(),
    {
        if routes.len() == 0 {
            (self, 0)
        } else {
            let (t, counter_max) = self.restore_routes(routes.drop_last(), finalized);
            match routes.last() {
                None => (t, counter_max),
                Some(blocks) => {
                    let u = t.restore_blocks(blocks, finalized);
                    (u, if u.import_counter > counter_max { u.import_counter } else { counter_max })
                },
            }
        }
    }

    /// The state rebuilt from the backend: the finalized block, then the
    /// blocks enacted from it to each leaf (`None` for a leaf on another
    /// fork); freshness is inferred from the height.
    pub open spec fn restore(self, finalized: HashAndNumber, routes: Seq<Option<Seq<HashAndNumber>>>) -> MonitorView {
        let s0 = MonitorView { import_counter: finalized.number, ..self }.update(
            finalized.number,
            finalized.hash,
            finalized.number,
        );
        let (t, counter_max) = s0.restore_routes(routes, finalized.number);
        MonitorView { import_counter: counter_max, lowest_level: finalized.number, ..t }
    }
}

/// The blocks other than `h`, in order.
pub open spec fn without(s: Seq<BlockHash>, h: BlockHash) -> Seq<BlockHash>
    decreases s.len(),
{
    if s.len() == 0 {
        s
    } else {
        let rest = without(s.drop_last(), h);
        if s.last() == h {
            rest
        } else {
            rest.push(s.last())
        }
    }
}

proof fn lemma_without(s: Seq<BlockHash>, h: BlockHash)
    ensures
        forall|x: BlockHash| #[trigger] without(s, h).contains(x) <==> (s.contains(x) && x != h),
        s.no_duplicates() ==> without(s, h).no_duplicates(),
    decreases s.len(),
{
    if s.len() > 0 {
        let d = s.drop_last();
        lemma_without(d, h);
        assert forall|x: BlockHash| s.contains(x) <==> (d.contains(x) || x == s.last()) by {
            if s.contains(x) {
                let k = choose|k: int| 0 <= k < s.len() && s[k] == x;
                if k < s.len() - 1 {
                    assert(d[k] == x);
                }
            }
            if d.contains(x) {
                let k = choose|k: int| 0 <= k < d.len() && d[k] == x;
                assert(s[k] == x);
            }
            if x == s.last() {
                assert(s[s.len() - 1] == x);
            }
        }
        if s.no_duplicates() {
            assert(d.no_duplicates());
            assert(!d.contains(s.last())) by {
                if d.contains(s.last()) {
                    let k = choose|k: int| 0 <= k < d.len() && d[k] == s.last();
                    assert(s[k] == s[s.len() - 1]);
                }
            }
        }
        let rest = without(d, h);
        if s.last() != h && s.no_duplicates() {
            assert(!rest.contains(s.last()));
            assert forall|a: int, b: int| 0 <= a < b < rest.len() + 1 implies rest.push(s.last())[a] != rest.push(
                s.last(),
            )[b] by {
                if b == rest.len() {
                    assert(rest[a] == rest.push(s.last())[a]);
                }
            }
        }
        if s.last() != h {
            assert forall|x: BlockHash| #[trigger] rest.push(s.last()).contains(x) <==> (rest.contains(x) || x == s.last()) by {
                if rest.push(s.last()).contains(x) {
                    let k = choose|k: int| 0 <= k < rest.len() + 1 && rest.push(s.last())[k] == x;
                    if k < rest.len() {
                        assert(rest[k] == x);
                    }
                }
                if rest.contains(x) {
                    let k = choose|k: int| 0 <= k < rest.len() && rest[k] == x;
                    assert(rest.push(s.last())[k] == x);
                }
                if x == s.last() {
                    assert(rest.push(s.last())[rest.len() as int] == x);
                }
            }
        }
    }
}

impl LevelMonitor {
    /// The blocks of a level.
    pub fn level(&self, number: BlockNumber) -> (r: Vec<BlockHash>)
        ensures
            r@ == self@.level(number),
    {
        match self.levels.get(&number) {
            Some(v) => {
                let mut r: Vec<BlockHash> = Vec::new();
                let mut i: usize = 0;
                while i < v.len()
                    invariant
                        i <= v.len(),
                        r@ == v@.take(i as int),
                    decreases v.len() - i,
                {
                    r.push(v[i]);
                    i = i + 1;
                    proof {
                        assert(r@ =~= v@.take(i as int));
                    }
                }
                proof {
                    assert(v@.take(v.len() as int) =~= v@);
                }
                r
            },
            None => Vec::new(),
        }
    }

    /// How many blocks must leave level `number` before a block is imported there.
    pub fn removals_needed(&self, number: BlockNumber) -> (r: usize)
        requires
            self@.level(number).len() < usize::MAX,
        ensures
            r == self@.removals_needed(number),
    {
        let len = match self.levels.get(&number) {
            Some(l) => l.len(),
            None => 0,
        };
        proof {
            assert(len == self@.level(number).len());
        }
        if len < self.level_limit {
            0
        } else {
            len - self.level_limit + 1
        }
    }

    /// The leaves, least fresh first.
    pub fn sort_leaves(&self, leaves: &Vec<BlockHash>) -> (r: Vec<BlockHash>)
        ensures
            sorted_by_import(self@.freshness, leaves@, r@),
    {
        sort_leaves_by(&self.freshness, leaves)
    }

    /// Records an imported block; the finalized number tells which levels
    /// may be forgotten.
    pub fn update(&mut self, number: BlockNumber, hash: BlockHash, finalized: BlockNumber)
        requires
            old(self)@.import_counter < BlockNumber::MAX,
            old(self)@.wf(),
        ensures
            final(self)@ == old(self)@.update(number, hash, finalized),
            final(self)@.wf(),
    {
        self.insert_block(number, hash);
        self.cleanup(finalized);
    }

    /// Records how the removal of `block` from the backend went, in a run of
    /// removals: a removed block is forgotten and the run goes on; a block
    /// that could not be removed stays known, and the run stops there.
    pub fn record_removal(&mut self, block: HashAndNumber, removed: bool) -> (go_on: bool)
        requires
            old(self)@.wf(),
        ensures
            go_on == removed,
            removed ==> final(self)@ == old(self)@.forget(block.number, block.hash),
            !removed ==> final(self)@ == old(self)@,
            final(self)@.wf(),
    {
        if removed {
            self.forget(block.number, block.hash);
        }
        removed
    }

    /// The block at `number` was removed from the backend.
    pub fn forget(&mut self, number: BlockNumber, hash: BlockHash)
        requires
            old(self)@.wf(),
        ensures
            final(self)@ == old(self)@.forget(number, hash),
            final(self)@.wf(),
    {
        self.freshness.remove(&hash);
        match self.levels.remove(&number) {
            Some(level) => {
                let ghost lv = level@;
                let mut kept: Vec<BlockHash> = Vec::new();
                let mut i: usize = 0;
                while i < level.len()
                    invariant
                        i <= level.len(),
                        lv == level@,
                        kept@ == without(lv.take(i as int), hash),
                    decreases level.len() - i,
                {
                    proof {
                        assert(lv.take(i + 1).drop_last() =~= lv.take(i as int));
                    }
                    if level[i] != hash {
                        kept.push(level[i]);
                    }
                    i = i + 1;
                }
                proof {
                    assert(lv.take(level.len() as int) =~= lv);
                    lemma_without(lv, hash);
                }
                self.levels.insert(number, kept);
            },
            None => {},
        }
        proof {
            assert(self@.levels =~= old(self)@.forget(number, hash).levels);
            assert forall|n: BlockNumber| #[trigger] self@.levels.contains_key(n) implies self@.levels[n].no_duplicates() by {
                assert(old(self)@.levels.contains_key(n));
            }
        }
    }

    fn restore_blocks(&mut self, blocks: &Vec<HashAndNumber>, finalized: BlockNumber)
        requires
            old(self)@.wf(),
            forall|k: int| 0 <= k < blocks.len() ==> #[trigger] blocks@[k].number < BlockNumber::MAX,
        ensures
            final(self)@ == old(self)@.restore_blocks(blocks@, finalized),
            final(self)@.wf(),
    {
        let mut i: usize = 0;
        while i < blocks.len()
            invariant
                i <= blocks.len(),
                forall|k: int| 0 <= k < blocks.len() ==> #[trigger] blocks@[k].number < BlockNumber::MAX,
                self@.wf(),
                self@ == old(self)@.restore_blocks(blocks@.take(i as int), finalized),
            decreases blocks.len() - i,
        {
            let b = blocks[i];
            proof {
                assert(blocks@[i as int].number < BlockNumber::MAX);
                assert(blocks@.take(i + 1).drop_last() =~= blocks@.take(i as int));
                assert(blocks@.take(i + 1).last() == b);
            }
            if !self.freshness.contains_key(&b.hash) {
                let ghost before = self@;
                self.import_counter = b.number;
                proof {
                    assert(self@.levels == before.levels);
                    assert(self@.wf());
                }
                self.update(b.number, b.hash, finalized);
            }
            i = i + 1;
        }
        proof {
            assert(blocks@.take(blocks.len() as int) =~= blocks@);
        }
    }

    /// Rebuilds the state from the backend: the finalized block and, for each
    /// leaf, the blocks enacted from the finalized block to it (`None` for a
    /// leaf on another fork).
    pub fn restore(&mut self, finalized: HashAndNumber, routes: &Vec<Option<Vec<HashAndNumber>>>)
        requires
            old(self)@.wf(),
            finalized.number < BlockNumber::MAX,
            forall|r: int, k: int|
                0 <= r < routes.len() && routes@[r] is Some && 0 <= k < routes@[r]->0.len() ==> #[trigger] routes@[r]->0@[k].number
                    < BlockNumber::MAX,
        ensures
            final(self)@ == old(self)@.restore(finalized, routes_view(routes@)),
            final(self)@.wf(),
    {
        let ghost before = self@;
        self.import_counter = finalized.number;
        proof {
            assert(self@.levels == before.levels);
            assert(self@.wf());
        }
        self.update(finalized.number, finalized.hash, finalized.number);
        let ghost s0 = self@;
        let mut counter_max: BlockNumber = 0;
        let mut i: usize = 0;
        while i < routes.len()
            invariant
                i <= routes.len(),
                forall|r: int, k: int|
                    0 <= r < routes.len() && routes@[r] is Some && 0 <= k < routes@[r]->0.len() ==> #[trigger] routes@[r]->0@[k].number
                        < BlockNumber::MAX,
                self@.wf(),
                (self@, counter_max) == s0.restore_routes(routes_view(routes@).take(i as int), finalized.number),
            decreases routes.len() - i,
        {
            proof {
                assert(routes_view(routes@).take(i + 1).drop_last() =~= routes_view(routes@).take(i as int));
            }
            match &routes[i] {
                Some(blocks) => {
                    proof {
                        assert forall|k: int| 0 <= k < blocks.len() implies #[trigger] blocks@[k].number < BlockNumber::MAX by {
                            assert(routes@[i as int]->0@[k].number < BlockNumber::MAX);
                        }
                    }
                    self.restore_blocks(blocks, finalized.number);
                    if self.import_counter > counter_max {
                        counter_max = self.import_counter;
                    }
                },
                None => {},
            }
            i = i + 1;
        }
        proof {
            assert(routes_view(routes@).take(routes.len() as int) =~= routes_view(routes@));
        }
        let ghost before = self@;
        self.import_counter = counter_max;
        self.lowest_level = finalized.number;
        proof {
            assert(self@.levels == before.levels);
        }
    }

    /// A monitor rebuilt from the backend (see [`LevelMonitor::restore`]).
    pub fn new(level_limit: usize, finalized: HashAndNumber, routes: &Vec<Option<Vec<HashAndNumber>>>) -> (m: Self)
        requires
            finalized.number < BlockNumber::MAX,
            forall|r: int, k: int|
                0 <= r < routes.len() && routes@[r] is Some && 0 <= k < routes@[r]->0.len() ==> #[trigger] routes@[r]->0@[k].number
                    < BlockNumber::MAX,
        ensures
            m@ == (MonitorView {
                level_limit,
                import_counter: 0,
                freshness: Map::empty(),
                levels: Map::empty(),
                lowest_level: 0,
            }).restore(finalized, routes_view(routes@)),
            m@.wf(),
    {
        let mut m = LevelMonitor {
            level_limit,
            import_counter: 0,
            freshness: HashMap::new(),
            levels: HashMap::new(),
            lowest_level: 0,
        };
        proof {
            assert(m@.levels =~= Map::<BlockNumber, Seq<BlockHash>>::empty());
        }
        m.restore(finalized, routes);
        m
    }

    fn insert_block(&mut self, number: BlockNumber, hash: BlockHash)
        requires
            old(self)@.import_counter < BlockNumber::MAX,
            old(self)@.wf(),
        ensures
            final(self)@ == old(self)@.insert_block(number, hash),
            final(self)@.wf(),
    {
        let mut level = self.level(number);
        let mut present = false;
        let mut i: usize = 0;
        while i < level.len()
            invariant
                i <= level.len(),
                present <==> exists|k: int| 0 <= k < i && level@[k] == hash,
            decreases level.len() - i,
        {
            if level[i] == hash {
                present = true;
            }
            i = i + 1;
        }
        proof {
            if present {
                let k = choose|k: int| 0 <= k < i && level@[k] == hash;
                assert(level@.contains(hash));
            }
        }
        if !present {
            level.push(hash);
        }
        self.freshness.insert(hash, self.import_counter as u64);
        self.levels.insert(number, level);
        self.import_counter = self.import_counter + 1;
        proof {
            assert(self@.levels =~= old(self)@.insert_block(number, hash).levels);
            assert forall|n: BlockNumber| #[trigger] self@.levels.contains_key(n) implies self@.levels[n].no_duplicates() by {
                if n != number {
                    assert(old(self)@.levels.contains_key(n));
                }
            }
        }
    }

    fn cleanup(&mut self, finalized: BlockNumber)
        requires
            old(self)@.wf(),
        ensures
            final(self)@ == old(self)@.cleanup(finalized),
            final(self)@.wf(),
    {
        if finalized < self.lowest_level || finalized - self.lowest_level < CLEANUP_THRESHOLD {
            return;
        }
        let ghost s0 = self@;
        let ghost l0 = self.levels@;
        let delta = finalized - self.lowest_level;
        let lowest = self.lowest_level;
        let mut i: u32 = 0;
        while i < delta
            invariant
                i <= delta,
                delta == finalized - lowest,
                lowest == s0.lowest_level,
                s0 == old(self)@,
                l0 == old(self).levels@,
                self.level_limit == s0.level_limit,
                self.import_counter == s0.import_counter,
                self.lowest_level == s0.lowest_level,
                forall|n: BlockNumber| #[trigger] self.levels@.contains_key(n) <==> (l0.contains_key(n) && !(lowest <= n
                    < lowest + i)),
                forall|n: BlockNumber| #[trigger] self.levels@.contains_key(n) ==> self.levels@[n] == l0[n],
                forall|h: BlockHash| #[trigger] self.freshness@.contains_key(h) <==> (s0.freshness.contains_key(h)
                    && !held_in(s0.levels, lowest as int, lowest + i, h)),
                forall|h: BlockHash| #[trigger] self.freshness@.contains_key(h) ==> self.freshness@[h] == s0.freshness[h],
            decreases delta - i,
        {
            let number = lowest + i;
            let removed = self.levels.remove(&number);
            let ghost f_before = self.freshness@;
            match removed {
                Some(level) => {
                    proof {
                        assert(l0.contains_key(number) && l0[number] == level);
                        assert(s0.levels[number] == level@);
                    }
                    forget_all(&mut self.freshness, &level);
                    proof {
                        assert forall|h: BlockHash| level@.contains(h) <==> s0.levels[number].contains(h) by {}
                    }
                },
                None => {
                    proof {
                        assert(!l0.contains_key(number));
                        assert(!s0.levels.contains_key(number));
                    }
                },
            }
            proof {
                assert forall|h: BlockHash| #[trigger] self.freshness@.contains_key(h) <==> (f_before.contains_key(h)
                    && !(s0.levels.contains_key(number) && s0.levels[number].contains(h))) by {}
                assert forall|h: BlockHash| #[trigger] self.freshness@.contains_key(h) implies self.freshness@[h]
                    == f_before[h] by {}
            }
            let ghost i_old = i;
            i = i + 1;
            proof {
                assert forall|h: BlockHash| held_in(s0.levels, lowest as int, lowest + i, h) <==> (held_in(
                    s0.levels,
                    lowest as int,
                    lowest + i - 1,
                    h,
                ) || (s0.levels.contains_key(number) && s0.levels[number].contains(h))) by {
                    if s0.levels.contains_key(number) && s0.levels[number].contains(h) {
                        assert(s0.levels[number].contains(h));
                    }
                }
            }
        }
        self.lowest_level = finalized;
        proof {
            assert(self@.levels =~= s0.cleanup(finalized).levels) by {
                assert forall|n: BlockNumber| #[trigger] self@.levels.contains_key(n) <==> s0.cleanup(finalized).levels.contains_key(n) by {
                    assert(self@.levels.contains_key(n) <==> self.levels@.contains_key(n));
                    assert(s0.levels.contains_key(n) <==> l0.contains_key(n));
                }
            }
            assert(self@.freshness =~= s0.cleanup(finalized).freshness);
            assert forall|n: BlockNumber| #[trigger] self@.levels.contains_key(n) implies self@.levels[n].no_duplicates() by {
                assert(s0.levels.contains_key(n));
            }
        }
    }
}

/// Forgets the freshness of each of the blocks.
fn forget_all(freshness: &mut HashMap<BlockHash, u64>, blocks: &Vec<BlockHash>)
    ensures
        forall|h: BlockHash| #[trigger] final(freshness)@.contains_key(h) <==> (old(freshness)@.contains_key(h)
            && !blocks@.contains(h)),
        forall|h: BlockHash| #[trigger] final(freshness)@.contains_key(h) ==> final(freshness)@[h] == old(freshness)@[h],
{
    let mut k: usize = 0;
    while k < blocks.len()
        invariant
            k <= blocks.len(),
            forall|h: BlockHash| #[trigger] freshness@.contains_key(h) <==> (old(freshness)@.contains_key(h)
                && !(exists|j: int| 0 <= j < k && blocks@[j] == h)),
            forall|h: BlockHash| #[trigger] freshness@.contains_key(h) ==> freshness@[h] == old(freshness)@[h],
        decreases blocks.len() - k,
    {
        let h0 = blocks[k];
        freshness.remove(&h0);
        k = k + 1;
        proof {
            assert forall|h: BlockHash| #[trigger] freshness@.contains_key(h) <==> (old(freshness)@.contains_key(h)
                && !(exists|j: int| 0 <= j < k && blocks@[j] == h)) by {
                if h == h0 {
                    assert(blocks@[k - 1] == h);
                } else {
                    if exists|j: int| 0 <= j < k && blocks@[j] == h {
                        let j = choose|j: int| 0 <= j < k && blocks@[j] == h;
                        assert(j < k - 1);
                    }
                }
            }
        }
    }
}

/// The routes given to a restore, as mathematical values.
pub open spec fn routes_view(routes: Seq<Option<Vec<HashAndNumber>>>) -> Seq<Option<Seq<HashAndNumber>>> {
    routes.map_values(
        |r: Option<Vec<HashAndNumber>>|
            match r {
                Some(v) => Some(v@),
                None => None,
            },
    )
}

/// Whether a level between `lo` (included) and `hi` (excluded) holds the block.
pub open spec fn held_in(levels: Map<BlockNumber, Seq<BlockHash>>, lo: int, hi: int, h: BlockHash) -> bool {
    exists|n: BlockNumber| lo <= n < hi && levels.contains_key(n) && #[trigger] levels[n].contains(h)
}

/// The block chosen for removal: its freshest descending leaf (by index in
/// the leaves, least fresh first), and the route to that leaf (`None` when
/// the block is that leaf).
pub struct TargetInfo {
    pub block: BlockHash,
    pub freshest_leaf_idx: usize,
    pub freshest_route: Option<DescendingRoute>,
}

/// A target as mathematical values.
pub struct TargetView {
    pub block: BlockHash,
    pub idx: int,
    pub route: Option<RouteView>,
}

impl View for TargetInfo {
    type V = TargetView;

    open spec fn view(&self) -> TargetView {
        TargetView {
            block: self.block,
            idx: self.freshest_leaf_idx as int,
            route: match self.freshest_route {
                Some(r) => Some(r@),
                None => None,
            },
        }
    }
}

/// The freshest leaf below index `k`, not yet assigned to another block,
/// that is the block itself or descends from it (`row[l]` is the route from
/// the block to leaf `l` where it descends).
pub open spec fn freshest_leaf(
    blk: BlockHash,
    leaves: Seq<BlockHash>,
    row: Seq<Option<RouteView>>,
    assigned: Set<int>,
    k: int,
) -> Option<(int, Option<RouteView>)>
    decreases k,
{
    if k <= 0 {
        None
    } else {
        let l = k - 1;
        if !assigned.contains(l) && leaves[l] == blk {
            Some((l, None))
        } else if !assigned.contains(l) && row[l] is Some {
            Some((l, row[l]))
        } else {
            freshest_leaf(blk, leaves, row, assigned, l)
        }
    }
}

/// Whether a route to a leaf does not pass through the best block.
pub open spec fn avoids_best(route: Option<RouteView>, best: BlockHash) -> bool {
    match route {
        None => true,
        Some(r) => route_avoids(r, best),
    }
}

/// Whether no block enacted along a route is the best block.
pub open spec fn route_avoids(r: RouteView, best: BlockHash) -> bool {
    forall|i: int| 0 <= i < r.enacted.len() ==> #[trigger] r.enacted[i].hash != best
}

/// The search for the target from the level's block `i` on: each block but
/// the best gets its freshest unassigned leaf, which is then assigned; the
/// block becomes the target when that leaf is less fresh than the current
/// target's and its route avoids the best block; a target whose leaf is the
/// least fresh of all ends the search.
pub open spec fn search(
    level: Seq<BlockHash>,
    leaves: Seq<BlockHash>,
    table: Seq<Seq<Option<RouteView>>>,
    best: BlockHash,
    i: int,
    assigned: Set<int>,
    target: Option<TargetView>,
) -> Option<TargetView>
    decreases level.len() - i,
{
    if i < 0 || i >= level.len() {
        target
    } else if level[i] == best {
        search(level, leaves, table, best, i + 1, assigned, target)
    } else {
        match freshest_leaf(level[i], leaves, table[i], assigned, leaves.len() as int) {
            None => search(level, leaves, table, best, i + 1, assigned, target),
            Some((l, r)) => {
                let candidate = TargetView { block: level[i], idx: l, route: r };
                if (target is None || l < target.unwrap().idx) && avoids_best(r, best) {
                    if l == 0 {
                        Some(candidate)
                    } else {
                        search(level, leaves, table, best, i + 1, assigned.insert(l), Some(candidate))
                    }
                } else {
                    search(level, leaves, table, best, i + 1, assigned.insert(l), target)
                }
            },
        }
    }
}

impl MonitorView {
    /// The block of level `number` to remove, if any.
    pub open spec fn find_target(
        self,
        number: BlockNumber,
        leaves: Seq<BlockHash>,
        table: Seq<Seq<Option<RouteView>>>,
        best: BlockHash,
    ) -> Option<TargetView> {
        if self.levels.contains_key(number) {
            search(self.levels[number], leaves, table, best, 0, Set::empty(), None)
        } else {
            None
        }
    }
}

/// The routes from the target to the leaves of index `lo` to `hi` (excluded)
/// that descend from it, freshest first, each from its leaf down.
pub open spec fn other_routes(row: Seq<Option<RouteView>>, lo: int, hi: int) -> Seq<Seq<HashAndNumber>>
    decreases hi - lo,
{
    if hi <= lo {
        Seq::empty()
    } else {
        route_part(row, hi - 1) + other_routes(row, lo, hi - 1)
    }
}

pub open spec fn route_part(row: Seq<Option<RouteView>>, l: int) -> Seq<Seq<HashAndNumber>> {
    match row[l] {
        Some(r) => seq![r.enacted.reverse()],
        None => Seq::empty(),
    }
}

/// The blocks to remove for a target, as runs: in each run blocks are
/// removed in order until one cannot be (it is no leaf yet). The route to
/// the freshest leaf goes first, then the routes to the less fresh leaves,
/// then the target itself.
pub open spec fn removal_plan(
    t: TargetView,
    number: BlockNumber,
    leaves: Seq<BlockHash>,
    row: Seq<Option<RouteView>>,
) -> Seq<Seq<HashAndNumber>> {
    match t.route {
        Some(r) => seq![r.enacted.reverse()] + other_routes(row, 0, t.idx) + seq![
            seq![HashAndNumber { number, hash: r.common_block.hash }],
        ],
        None => seq![seq![HashAndNumber { number, hash: leaves[t.idx] }]],
    }
}

proof fn lemma_other_routes_extend(row: Seq<Option<RouteView>>, j: int, hi: int)
    requires
        1 <= j <= hi,
    ensures
        other_routes(row, j - 1, hi) == other_routes(row, j, hi) + route_part(row, j - 1),
    decreases hi - j,
{
    if hi == j {
        assert(other_routes(row, j - 1, j - 1) =~= Seq::<Seq<HashAndNumber>>::empty());
        assert(other_routes(row, j - 1, hi) =~= route_part(row, j - 1));
        assert(other_routes(row, j, hi) + route_part(row, j - 1) =~= route_part(row, j - 1));
    } else {
        lemma_other_routes_extend(row, j, hi - 1);
        assert(other_routes(row, j - 1, hi) =~= other_routes(row, j, hi) + route_part(row, j - 1));
    }
}

/// The assigned leaves as a set.
pub open spec fn assigned_set(assigned: Seq<bool>) -> Set<int> {
    Set::new(|l: int| 0 <= l < assigned.len() && assigned[l])
}

fn copy_route(r: &DescendingRoute) -> (c: DescendingRoute)
    ensures
        c@ == r@,
{
    let mut enacted: Vec<HashAndNumber> = Vec::new();
    let mut i: usize = 0;
    while i < r.enacted.len()
        invariant
            i <= r.enacted.len(),
            enacted@ == r.enacted@.take(i as int),
        decreases r.enacted.len() - i,
    {
        enacted.push(r.enacted[i]);
        i = i + 1;
        proof {
            assert(enacted@ =~= r.enacted@.take(i as int));
        }
    }
    proof {
        assert(r.enacted@.take(r.enacted.len() as int) =~= r.enacted@);
    }
    DescendingRoute { common_block: r.common_block, enacted }
}

fn reversed(v: &Vec<HashAndNumber>) -> (r: Vec<HashAndNumber>)
    ensures
        r@ == v@.reverse(),
{
    let mut r: Vec<HashAndNumber> = Vec::new();
    let mut i: usize = v.len();
    while i > 0
        invariant
            i <= v.len(),
            r@.len() == v.len() - i,
            forall|k: int| 0 <= k < r@.len() ==> r@[k] == v@[v.len() - 1 - k],
        decreases i,
    {
        r.push(v[i - 1]);
        i = i - 1;
    }
    proof {
        assert(r@ =~= v@.reverse());
    }
    r
}

fn route_avoids_best(r: &DescendingRoute, best: BlockHash) -> (b: bool)
    ensures
        b == route_avoids(r@, best),
{
    let mut i: usize = 0;
    while i < r.enacted.len()
        invariant
            i <= r.enacted.len(),
            forall|k: int| 0 <= k < i ==> #[trigger] r@.enacted[k].hash != best,
        decreases r.enacted.len() - i,
    {
        if r.enacted[i].hash == best {
            proof {
                assert(r@.enacted[i as int].hash == best);
            }
            return false;
        }
        i = i + 1;
    }
    true
}

fn freshest_leaf_of(
    blk: BlockHash,
    leaves: &Vec<BlockHash>,
    row: &Vec<Option<DescendingRoute>>,
    assigned: &Vec<bool>,
) -> (r: Option<(usize, Option<DescendingRoute>)>)
    requires
        row.len() == leaves.len(),
        assigned.len() == leaves.len(),
    ensures
        match r {
            None => freshest_leaf(blk, leaves@, row_view(row@), assigned_set(assigned@), leaves.len() as int) is None,
            Some((l, route)) => freshest_leaf(blk, leaves@, row_view(row@), assigned_set(assigned@), leaves.len() as int)
                == Some(
                (
                    l as int,
                    match route {
                        Some(x) => Some(x@),
                        None => None,
                    },
                ),
            ) && l < leaves.len(),
        },
{
    let ghost rv = row_view(row@);
    let ghost aset = assigned_set(assigned@);
    let mut k: usize = leaves.len();
    while k > 0
        invariant
            k <= leaves.len(),
            row.len() == leaves.len(),
            assigned.len() == leaves.len(),
            rv == row_view(row@),
            aset == assigned_set(assigned@),
            freshest_leaf(blk, leaves@, rv, aset, leaves.len() as int) == freshest_leaf(blk, leaves@, rv, aset, k as int),
        decreases k,
    {
        let l = k - 1;
        proof {
            assert(aset.contains(l as int) == assigned@[l as int]);
        }
        if !assigned[l] {
            if leaves[l] == blk {
                return Some((l, None));
            }
            match &row[l] {
                Some(route) => {
                    let c = copy_route(route);
                    return Some((l, Some(c)));
                },
                None => {},
            }
        }
        k = l;
    }
    None
}

impl LevelMonitor {
    /// The block of level `number` to remove, if any, given the leaves (least
    /// fresh first), the best block, and for each block of the level the
    /// route to each leaf that descends from it.
    pub fn find_target(
        &self,
        number: BlockNumber,
        leaves: &Vec<BlockHash>,
        best: BlockHash,
        table: &Vec<Vec<Option<DescendingRoute>>>,
    ) -> (r: Option<TargetInfo>)
        requires
            table.len() == self@.level(number).len(),
            forall|b: int| 0 <= b < table.len() ==> #[trigger] table@[b].len() == leaves.len(),
        ensures
            match r {
                None => self@.find_target(number, leaves@, table_view(table@), best) is None,
                Some(t) => self@.find_target(number, leaves@, table_view(table@), best) == Some(t@)
                    && t.freshest_leaf_idx < leaves.len(),
            },
    {
        let level = match self.levels.get(&number) {
            None => return None,
            Some(l) => l,
        };
        let ghost lv = level@;
        let ghost tv = table_view(table@);
        let mut assigned: Vec<bool> = Vec::new();
        while assigned.len() < leaves.len()
            invariant
                assigned.len() <= leaves.len(),
                forall|l: int| 0 <= l < assigned.len() ==> !#[trigger] assigned@[l],
            decreases leaves.len() - assigned.len(),
        {
            assigned.push(false);
        }
        proof {
            assert(assigned_set(assigned@) =~= Set::<int>::empty());
        }
        let mut target: Option<TargetInfo> = None;
        let mut i: usize = 0;
        while i < level.len()
            invariant
                i <= level.len(),
                lv == level@,
                lv == self@.level(number),
                self@.levels.contains_key(number),
                tv == table_view(table@),
                table.len() == lv.len(),
                forall|b: int| 0 <= b < table.len() ==> #[trigger] table@[b].len() == leaves.len(),
                assigned.len() == leaves.len(),
                target matches Some(t) ==> t.freshest_leaf_idx < leaves.len(),
                search(lv, leaves@, tv, best, 0, Set::empty(), None) == search(
                    lv,
                    leaves@,
                    tv,
                    best,
                    i as int,
                    assigned_set(assigned@),
                    match target {
                        Some(t) => Some(t@),
                        None => None,
                    },
                ),
            decreases level.len() - i,
        {
            let blk = level[i];
            if blk != best {
                proof {
                    assert(tv[i as int] == row_view(table@[i as int]@));
                }
                match freshest_leaf_of(blk, leaves, &table[i], &assigned) {
                    None => {},
                    Some((l, route)) => {
                        let less_fresh = match &target {
                            None => true,
                            Some(t) => l < t.freshest_leaf_idx,
                        };
                        let ghost old_assigned = assigned@;
                        assigned.set(l, true);
                        proof {
                            assert(assigned_set(assigned@) =~= assigned_set(old_assigned).insert(l as int));
                        }
                        let avoids = match &route {
                            None => true,
                            Some(x) => route_avoids_best(x, best),
                        };
                        if less_fresh && avoids {
                            let candidate = TargetInfo { block: blk, freshest_leaf_idx: l, freshest_route: route };
                            if l == 0 {
                                return Some(candidate);
                            }
                            target = Some(candidate);
                        }
                    },
                }
            }
            i = i + 1;
        }
        target
    }

    /// The runs of blocks to remove for a target (see [`removal_plan`]),
    /// given the route from the target block to each leaf that descends
    /// from it.
    pub fn removal_plan(
        target: &TargetInfo,
        number: BlockNumber,
        leaves: &Vec<BlockHash>,
        row: &Vec<Option<DescendingRoute>>,
    ) -> (plan: Vec<Vec<HashAndNumber>>)
        requires
            target.freshest_leaf_idx < leaves.len(),
            row.len() == leaves.len(),
        ensures
            plan@.map_values(|v: Vec<HashAndNumber>| v@) == removal_plan(target@, number, leaves@, row_view(row@)),
    {
        let mut plan: Vec<Vec<HashAndNumber>> = Vec::new();
        match &target.freshest_route {
            None => {
                let mut only: Vec<HashAndNumber> = Vec::new();
                only.push(HashAndNumber { number, hash: leaves[target.freshest_leaf_idx] });
                plan.push(only);
                proof {
                    assert(plan@.map_values(|v: Vec<HashAndNumber>| v@) =~= removal_plan(target@, number, leaves@, row_view(row@)));
                }
                plan
            },
            Some(r) => {
                let ghost rv = row_view(row@);
                plan.push(reversed(&r.enacted));
                let mut j: usize = target.freshest_leaf_idx;
                proof {
                    assert(plan@.map_values(|v: Vec<HashAndNumber>| v@) =~= seq![r@.enacted.reverse()] + other_routes(rv, j as int, target.freshest_leaf_idx as int));
                }
                while j > 0
                    invariant
                        j <= target.freshest_leaf_idx < leaves.len(),
                        row.len() == leaves.len(),
                        rv == row_view(row@),
                        plan@.map_values(|v: Vec<HashAndNumber>| v@) == seq![r@.enacted.reverse()] + other_routes(rv, j as int, target.freshest_leaf_idx as int),
                    decreases j,
                {
                    proof {
                        lemma_other_routes_extend(rv, j as int, target.freshest_leaf_idx as int);
                    }
                    let ghost before = plan@.map_values(|v: Vec<HashAndNumber>| v@);
                    match &row[j - 1] {
                        Some(other) => {
                            plan.push(reversed(&other.enacted));
                            proof {
                                assert(plan@.map_values(|v: Vec<HashAndNumber>| v@) =~= before + route_part(rv, j - 1));
                            }
                        },
                        None => {
                            proof {
                                assert(route_part(rv, j - 1) =~= Seq::<Seq<HashAndNumber>>::empty());
                                assert(before + route_part(rv, j - 1) =~= before);
                            }
                        },
                    }
                    j = j - 1;
                    proof {
                        assert(plan@.map_values(|v: Vec<HashAndNumber>| v@) =~= seq![r@.enacted.reverse()] + other_routes(rv, j as int, target.freshest_leaf_idx as int));
                    }
                }
                let ghost before = plan@.map_values(|v: Vec<HashAndNumber>| v@);
                let mut last: Vec<HashAndNumber> = Vec::new();
                last.push(HashAndNumber { number, hash: r.common_block.hash });
                plan.push(last);
                proof {
                    assert(plan@.map_values(|v: Vec<HashAndNumber>| v@) =~= removal_plan(target@, number, leaves@, row_view(row@)));
                }
                plan
            },
        }
    }
}

proof fn lemma_freshest_leaf_bounds(
    blk: BlockHash,
    leaves: Seq<BlockHash>,
    row: Seq<Option<RouteView>>,
    assigned: Set<int>,
    k: int,
)
    ensures
        freshest_leaf(blk, leaves, row, assigned, k) matches Some((l, r)) ==> 0 <= l < k && (r is None ==> leaves[l]
            == blk),
    decreases k,
{
    if k > 0 {
        lemma_freshest_leaf_bounds(blk, leaves, row, assigned, k - 1);
    }
}

proof fn lemma_search_spares_best(
    level: Seq<BlockHash>,
    leaves: Seq<BlockHash>,
    table: Seq<Seq<Option<RouteView>>>,
    best: BlockHash,
    i: int,
    assigned: Set<int>,
    target: Option<TargetView>,
)
    requires
        target matches Some(t) ==> t.block != best && level.contains(t.block) && avoids_best(t.route, best) && 0
            <= t.idx < leaves.len(),
    ensures
        search(level, leaves, table, best, i, assigned, target) matches Some(t) ==> t.block != best
            && level.contains(t.block) && avoids_best(t.route, best) && 0 <= t.idx < leaves.len(),
    decreases level.len() - i,
{
    if 0 <= i < level.len() {
        if level[i] != best {
            lemma_freshest_leaf_bounds(level[i], leaves, table[i], assigned, leaves.len() as int);
            assert(level.contains(level[i]));
        }
        match freshest_leaf(level[i], leaves, table[i], assigned, leaves.len() as int) {
            None => lemma_search_spares_best(level, leaves, table, best, i + 1, assigned, target),
            Some((l, r)) => {
                let candidate = TargetView { block: level[i], idx: l, route: r };
                lemma_search_spares_best(level, leaves, table, best, i + 1, assigned, target);
                lemma_search_spares_best(level, leaves, table, best, i + 1, assigned.insert(l), target);
                if level[i] != best && avoids_best(r, best) {
                    lemma_search_spares_best(level, leaves, table, best, i + 1, assigned.insert(l), Some(candidate));
                }
            },
        }
    }
}

/// The block chosen for removal is never the best block, nor one whose route
/// to its freshest leaf passes through the best block; it is a block of the
/// level, and its freshest leaf is one of the leaves.
pub proof fn law_target_spares_best(
    m: MonitorView,
    number: BlockNumber,
    leaves: Seq<BlockHash>,
    table: Seq<Seq<Option<RouteView>>>,
    best: BlockHash,
)
    ensures
        m.find_target(number, leaves, table, best) matches Some(t) ==> {
            &&& t.block != best
            &&& m.level(number).contains(t.block)
            &&& avoids_best(t.route, best)
            &&& 0 <= t.idx < leaves.len()
        },
{
    if m.levels.contains_key(number) {
        lemma_search_spares_best(m.levels[number], leaves, table, best, 0, Set::empty(), None);
    }
}

/// The candidates of the search from the level's block `i` on, in order:
/// each block but the best with its freshest leaf among those not taken by
/// an earlier block (it then takes that leaf) and its route to that leaf.
pub open spec fn candidates(
    level: Seq<BlockHash>,
    leaves: Seq<BlockHash>,
    table: Seq<Seq<Option<RouteView>>>,
    best: BlockHash,
    i: int,
    assigned: Set<int>,
) -> Seq<TargetView>
    decreases level.len() - i,
{
    if i < 0 || i >= level.len() {
        Seq::empty()
    } else if level[i] == best {
        candidates(level, leaves, table, best, i + 1, assigned)
    } else {
        match freshest_leaf(level[i], leaves, table[i], assigned, leaves.len() as int) {
            None => candidates(level, leaves, table, best, i + 1, assigned),
            Some((l, r)) => seq![TargetView { block: level[i], idx: l, route: r }] + candidates(
                level,
                leaves,
                table,
                best,
                i + 1,
                assigned.insert(l),
            ),
        }
    }
}

/// The candidates of a level.
pub open spec fn level_candidates(
    m: MonitorView,
    number: BlockNumber,
    leaves: Seq<BlockHash>,
    table: Seq<Seq<Option<RouteView>>>,
    best: BlockHash,
) -> Seq<TargetView> {
    if m.levels.contains_key(number) {
        candidates(m.levels[number], leaves, table, best, 0, Set::empty())
    } else {
        Seq::empty()
    }
}

proof fn lemma_candidates_nonneg(
    level: Seq<BlockHash>,
    leaves: Seq<BlockHash>,
    table: Seq<Seq<Option<RouteView>>>,
    best: BlockHash,
    i: int,
    assigned: Set<int>,
)
    ensures
        forall|k: int|
            0 <= k < candidates(level, leaves, table, best, i, assigned).len() ==> #[trigger] candidates(
                level,
                leaves,
                table,
                best,
                i,
                assigned,
            )[k].idx >= 0,
    decreases level.len() - i,
{
    if 0 <= i < level.len() {
        lemma_freshest_leaf_bounds(level[i], leaves, table[i], assigned, leaves.len() as int);
        lemma_candidates_nonneg(level, leaves, table, best, i + 1, assigned);
        match freshest_leaf(level[i], leaves, table[i], assigned, leaves.len() as int) {
            None => {},
            Some((l, r)) => {
                lemma_candidates_nonneg(level, leaves, table, best, i + 1, assigned.insert(l));
            },
        }
    }
}

proof fn lemma_search_least_fresh(
    level: Seq<BlockHash>,
    leaves: Seq<BlockHash>,
    table: Seq<Seq<Option<RouteView>>>,
    best: BlockHash,
    i: int,
    assigned: Set<int>,
    target: Option<TargetView>,
)
    requires
        target matches Some(t) ==> avoids_best(t.route, best) && t.idx >= 0,
    ensures
        ({
            let cs = candidates(level, leaves, table, best, i, assigned);
            let res = search(level, leaves, table, best, i, assigned, target);
            &&& res matches Some(r) ==> {
                &&& (res == target || exists|k: int| 0 <= k < cs.len() && cs[k] == r)
                &&& avoids_best(r.route, best)
                &&& (target matches Some(t) ==> r.idx <= t.idx)
                &&& forall|k: int| 0 <= k < cs.len() && avoids_best(#[trigger] cs[k].route, best) ==> r.idx <= cs[k].idx
            }
            &&& res is None ==> target is None && forall|k: int|
                0 <= k < cs.len() ==> !avoids_best(#[trigger] cs[k].route, best)
        }),
    decreases level.len() - i,
{
    if 0 <= i < level.len() && level[i] != best {
        match freshest_leaf(level[i], leaves, table[i], assigned, leaves.len() as int) {
            None => lemma_search_least_fresh(level, leaves, table, best, i + 1, assigned, target),
            Some((l, r)) => {
                lemma_freshest_leaf_bounds(level[i], leaves, table[i], assigned, leaves.len() as int);
                let cand = TargetView { block: level[i], idx: l, route: r };
                let rest = candidates(level, leaves, table, best, i + 1, assigned.insert(l));
                let cs = candidates(level, leaves, table, best, i, assigned);
                assert(cs == seq![cand] + rest);
                assert(cs[0] == cand);
                assert(forall|k: int| 1 <= k < cs.len() ==> cs[k] == rest[k - 1]);
                lemma_candidates_nonneg(level, leaves, table, best, i + 1, assigned.insert(l));
                if (target is None || l < target.unwrap().idx) && avoids_best(r, best) {
                    if l != 0 {
                        lemma_search_least_fresh(level, leaves, table, best, i + 1, assigned.insert(l), Some(cand));
                        let res = search(level, leaves, table, best, i + 1, assigned.insert(l), Some(cand));
                        if let Some(rr) = res {
                            if res != Some(cand) {
                                let k = choose|k: int| 0 <= k < rest.len() && rest[k] == rr;
                                assert(cs[k + 1] == rr);
                            }
                        }
                    } else {
                        assert forall|k: int| 1 <= k < cs.len() implies #[trigger] cs[k].idx >= 0 by {
                            assert(rest[k - 1].idx >= 0);
                        }
                    }
                } else {
                    lemma_search_least_fresh(level, leaves, table, best, i + 1, assigned.insert(l), target);
                    let res = search(level, leaves, table, best, i + 1, assigned.insert(l), target);
                    if let Some(rr) = res {
                        if res != target {
                            let k = choose|k: int| 0 <= k < rest.len() && rest[k] == rr;
                            assert(cs[k + 1] == rr);
                        }
                    }
                }
            },
        }
    } else if 0 <= i < level.len() {
        lemma_search_least_fresh(level, leaves, table, best, i + 1, assigned, target);
    }
}

/// The block chosen for removal is, among the candidates of the level whose
/// route to their freshest leaf avoids the best block, one whose freshest
/// leaf is the least fresh; when no block is chosen, every candidate's route
/// passes through the best block.
pub proof fn law_target_is_least_fresh(
    m: MonitorView,
    number: BlockNumber,
    leaves: Seq<BlockHash>,
    table: Seq<Seq<Option<RouteView>>>,
    best: BlockHash,
)
    ensures
        ({
            let cs = level_candidates(m, number, leaves, table, best);
            match m.find_target(number, leaves, table, best) {
                Some(t) => {
                    &&& exists|k: int| 0 <= k < cs.len() && cs[k] == t
                    &&& forall|k: int|
                        0 <= k < cs.len() && avoids_best(#[trigger] cs[k].route, best) ==> t.idx <= cs[k].idx
                },
                None => forall|k: int| 0 <= k < cs.len() ==> !avoids_best(#[trigger] cs[k].route, best),
            }
        }),
{
    if m.levels.contains_key(number) {
        lemma_search_least_fresh(m.levels[number], leaves, table, best, 0, Set::empty(), None);
    }
}

/// Recording an imported block puts it in its level once, with the next
/// freshness value (fresher than every block before it); once a block is
/// forgotten its level no longer holds it and its freshness is gone, while
/// the other levels and blocks are as they were.
pub proof fn law_blocks_enter_and_leave_levels(m: MonitorView, number: BlockNumber, hash: BlockHash, other: BlockNumber)
    requires
        m.wf(),
    ensures
        ({
            let t = m.insert_block(number, hash);
            &&& t.level(number).contains(hash)
            &&& t.level(number).no_duplicates()
            &&& t.freshness.contains_key(hash) && t.freshness[hash] == m.import_counter
            &&& t.import_counter == m.import_counter + 1 || m.import_counter == u32::MAX
            &&& other != number ==> t.level(other) == m.level(other)
        }),
        ({
            let t = m.forget(number, hash);
            &&& !t.level(number).contains(hash)
            &&& !t.freshness.contains_key(hash)
            &&& forall|h: BlockHash| h != hash ==> (#[trigger] t.level(number).contains(h) <==> m.level(number).contains(h))
            &&& other != number ==> t.level(other) == m.level(other)
        }),
{
    lemma_without(m.level(number), hash);
    if m.levels.contains_key(number) {
        assert(m.levels[number].no_duplicates());
    }
    let l = m.level(number);
    if !l.contains(hash) {
        assert(l.push(hash)[l.len() as int] == hash);
        assert forall|a: int, b: int| 0 <= a < b < l.len() + 1 implies l.push(hash)[a] != l.push(hash)[b] by {
            if b == l.len() {
                assert(l[a] == l.push(hash)[a]);
            }
        }
    }
}

} // verus!
