//! Bound on the number of leaves at each level of the parachain block tree.
//!
//! When a level holds too many blocks, the monitor picks the block whose
//! descendants were imported least recently and drops it together with its
//! descending routes. Blocks are identified by integers (the node assigns one
//! to each block hash); the routes through the block tree are computed by the
//! node's blockchain backend and handed to the monitor.
use std::collections::HashMap;
use vstd::prelude::*;

verus! {

broadcast use vstd::std_specs::hash::group_hash_axioms;

/// Identifier of a block.
pub type BlockHash = u64;

/// Block numbers.
pub type BlockNumber = u32;

/// Value good enough to be used with parachains using the current backend
/// implementation that ships with Substrate.
pub const MAX_LEAVES_PER_LEVEL_SENSIBLE_DEFAULT: usize = 32usize;

/// Upper bound to the number of leaves allowed for each level of the blockchain.
#[derive(Clone, Copy, Debug, PartialEq, Eq, Structural)]
pub enum LevelLimit {
    /// Limit set to `MAX_LEAVES_PER_LEVEL_SENSIBLE_DEFAULT`.
    Default,
    /// No explicit limit, however a limit may be implicitly imposed by the
    /// backend implementation.
    Unlimited,
    /// Custom value.
    Limit(usize),
}

/// The limit to enforce for a level limit setting; `None` for no limit.
pub open spec fn spec_level_limit(l: LevelLimit) -> Option<usize> {
    match l {
        LevelLimit::Default => Some(MAX_LEAVES_PER_LEVEL_SENSIBLE_DEFAULT),
        LevelLimit::Unlimited => None,
        LevelLimit::Limit(n) => Some(n),
    }
}

/// A block of a route: its number and its hash.
#[derive(Clone, Copy, Debug, PartialEq, Eq, Structural)]
pub struct HashAndNumber {
    pub number: BlockNumber,
    pub hash: BlockHash,
}

/// A route from a block to one of its descendants (a route that retracts no
/// block): the block itself and the blocks enacted up to the descendant.
#[derive(Debug, PartialEq, Eq)]
pub struct DescendingRoute {
    pub common_block: HashAndNumber,
    pub enacted: Vec<HashAndNumber>,
}

/// A descending route as a mathematical value.
pub struct RouteView {
    pub common_block: HashAndNumber,
    pub enacted: Seq<HashAndNumber>,
}

impl View for DescendingRoute {
    type V = RouteView;

    open spec fn view(&self) -> RouteView {
        RouteView { common_block: self.common_block, enacted: self.enacted@ }
    }
}

pub open spec fn row_view(row: Seq<Option<DescendingRoute>>) -> Seq<Option<RouteView>> {
    row.map_values(
        |r: Option<DescendingRoute>|
            match r {
                Some(r) => Some(r@),
                None => None,
            },
    )
}

/// Whether a route passes through the best block.
pub open spec fn route_touches(r: RouteView, best: BlockHash) -> bool {
    r.common_block.hash == best || exists|i: int|
        0 <= i < r.enacted.len() && #[trigger] r.enacted[i].hash == best
}

/// What scanning the leaves of one level block gives: the descending routes to
/// collect (freshest leaf first) and the index of the freshest leaf reached.
pub struct BlockScan {
    pub routes: Seq<RouteView>,
    pub fresher_leaf_idx: int,
}

/// Scan the leaves with index below `j`, from the freshest down. `row[i]` is the
/// route from the level block to leaf `i` if that leaf descends from it.
/// Reaching a leaf fresher than the current candidate's, or a route through the
/// best block, drops the block from candidacy (no routes).
pub open spec fn scan_leaves(
    row: Seq<Option<RouteView>>,
    candidate_fresher: int,
    best: BlockHash,
    j: int,
    acc: BlockScan,
) -> BlockScan
    decreases j,
{
    if j <= 0 {
        acc
    } else {
        let leaf_idx = j - 1;
        match row[leaf_idx] {
            None => scan_leaves(row, candidate_fresher, best, j - 1, acc),
            Some(r) => if leaf_idx > candidate_fresher || route_touches(r, best) {
                BlockScan { routes: Seq::empty(), fresher_leaf_idx: acc.fresher_leaf_idx }
            } else {
                let fresher = if acc.fresher_leaf_idx == 0 {
                    leaf_idx
                } else {
                    acc.fresher_leaf_idx
                };
                scan_leaves(
                    row,
                    candidate_fresher,
                    best,
                    j - 1,
                    BlockScan { routes: acc.routes.push(r), fresher_leaf_idx: fresher },
                )
            },
        }
    }
}

/// The candidate for removal: its index in the level, its routes and its freshest leaf.
pub struct Candidate {
    pub idx: int,
    pub routes: Seq<RouteView>,
    pub fresher_leaf_idx: int,
}

pub open spec fn initial_candidate() -> Candidate {
    Candidate { idx: 0, routes: Seq::empty(), fresher_leaf_idx: usize::MAX as int }
}

/// Scan the first `k` blocks of the level: `table[b][i]` is the route from
/// level block `b` to leaf `i`, if any. The last block with descending routes
/// not reaching a fresher leaf than the previous candidate becomes the candidate.
pub open spec fn scan_level(table: Seq<Seq<Option<RouteView>>>, best: BlockHash, k: int) -> Candidate
    decreases k,
{
    if k <= 0 {
        initial_candidate()
    } else {
        let c = scan_level(table, best, k - 1);
        let row = table[k - 1];
        let s = scan_leaves(
            row,
            c.fresher_leaf_idx,
            best,
            row.len() as int,
            BlockScan { routes: Seq::empty(), fresher_leaf_idx: 0 },
        );
        if s.routes.len() > 0 {
            Candidate { idx: k - 1, routes: s.routes, fresher_leaf_idx: s.fresher_leaf_idx }
        } else {
            c
        }
    }
}

/// The blocks a route drops, in order: from the descendant back to the block itself.
pub open spec fn route_removals(r: RouteView) -> Seq<BlockHash> {
    r.enacted.reverse().map_values(|e: HashAndNumber| e.hash).push(r.common_block.hash)
}

/// The blocks the routes drop, route after route.
pub open spec fn removals(routes: Seq<RouteView>) -> Seq<BlockHash>
    decreases routes.len(),
{
    if routes.len() == 0 {
        Seq::empty()
    } else {
        removals(routes.drop_last()) + route_removals(routes.last())
    }
}

/// The monitor's state as mathematical values.
pub struct LevelMonitorView {
    pub level_limit: usize,
    pub import_counter: u64,
    pub import_counters: Map<BlockHash, u64>,
    pub levels: Map<BlockNumber, Seq<BlockHash>>,
}

/// Support structure to constrain the number of leaves for each level.
pub struct LevelMonitor {
    /// Max number of leaves for each level.
    pub level_limit: usize,
    /// Monotonic counter used to keep track of block import age.
    pub import_counter: u64,
    /// Map between leaves hashes and insertion timestamp.
    pub import_counters: HashMap<BlockHash, u64>,
    /// Blockchain levels cache.
    pub levels: HashMap<BlockNumber, Vec<BlockHash>>,
}

impl View for LevelMonitor {
    type V = LevelMonitorView;

    open spec fn view(&self) -> LevelMonitorView {
        LevelMonitorView {
            level_limit: self.level_limit,
            import_counter: self.import_counter,
            import_counters: self.import_counters@,
            levels: self.levels@.map_values(|v: Vec<BlockHash>| v@),
        }
    }
}

impl LevelMonitorView {
    pub open spec fn level(self, number: BlockNumber) -> Seq<BlockHash> {
        if self.levels.contains_key(number) {
            self.levels[number]
        } else {
            Seq::empty()
        }
    }

    /// Record an imported block.
    pub open spec fn update(self, number: BlockNumber, hash: BlockHash) -> LevelMonitorView {
        LevelMonitorView {
            import_counters: self.import_counters.insert(hash, self.import_counter),
            levels: self.levels.insert(number, self.level(number).push(hash)),
            import_counter: (self.import_counter + 1) as u64,
            ..self
        }
    }

    /// Record the blocks of one route from the finalized block, numbering the
    /// blocks not known yet by their height.
    pub open spec fn restore_route(self, blocks: Seq<HashAndNumber>) -> LevelMonitorView
        decreases blocks.len(),
    {
        if blocks.len() == 0 {
            self
        } else {
            let s = self.restore_route(blocks.drop_last());
            let b = blocks.last();
            if s.import_counters.contains_key(b.hash) {
                s
            } else {
                LevelMonitorView { import_counter: b.number as u64, ..s }.update(b.number, b.hash)
            }
        }
    }

    /// Restore from the routes to the leaves from the finalized block (`None`
    /// for a leaf not descending from it); `max` is the largest counter seen.
    pub open spec fn restore_routes(self, routes: Seq<Option<Seq<HashAndNumber>>>, max: u64) -> (
        LevelMonitorView,
        u64,
    )
        decreases routes.len(),
    {
        if routes.len() == 0 {
            (self, max)
        } else {
            let (s, m) = self.restore_routes(routes.drop_last(), max);
            match routes.last() {
                None => (s, m),
                Some(blocks) => {
                    let s1 = s.restore_route(blocks);
                    (s1, if s1.import_counter > m { s1.import_counter } else { m })
                },
            }
        }
    }

    /// The monitor restored from the routes to the leaves: blocks are numbered
    /// by their height and the counter continues after the highest.
    pub open spec fn restore(self, routes: Seq<Option<Seq<HashAndNumber>>>) -> LevelMonitorView {
        let (s, m) = self.restore_routes(routes, 0);
        LevelMonitorView { import_counter: m, ..s }
    }

    /// Forget a block's import counter.
    pub open spec fn forget(self, hashes: Seq<BlockHash>) -> LevelMonitorView
        decreases hashes.len(),
    {
        if hashes.len() == 0 {
            self
        } else {
            let s = self.forget(hashes.drop_last());
            LevelMonitorView { import_counters: s.import_counters.remove(hashes.last()), ..s }
        }
    }

    /// One removal step at a saturated level: the candidate's routes are
    /// forgotten and the candidate leaves the level.
    pub open spec fn remove_one(
        self,
        number: BlockNumber,
        table: Seq<Seq<Option<RouteView>>>,
        best: BlockHash,
    ) -> (LevelMonitorView, Seq<BlockHash>) {
        let level = self.level(number);
        let c = scan_level(table, best, level.len() as int);
        let s = self.forget(removals(c.routes));
        (
            LevelMonitorView { levels: s.levels.insert(number, level.remove(c.idx)), ..s },
            removals(c.routes),
        )
    }
}

/// Forgetting import counters leaves everything else as it was.
pub proof fn lemma_forget_frame(s: LevelMonitorView, hashes: Seq<BlockHash>)
    ensures
        s.forget(hashes).levels == s.levels,
        s.forget(hashes).level_limit == s.level_limit,
        s.forget(hashes).import_counter == s.import_counter,
    decreases hashes.len(),
{
    if hashes.len() > 0 {
        lemma_forget_frame(s, hashes.drop_last());
    }
}

/// Import counters as sort keys: unknown blocks come first.
pub open spec fn counter_key(counters: Map<BlockHash, u64>, h: BlockHash) -> int {
    if counters.contains_key(h) {
        counters[h] as int
    } else {
        -1
    }
}

/// `t` holds the blocks of `s`, ordered by import counter (least recent first).
pub open spec fn sorted_by_import(counters: Map<BlockHash, u64>, s: Seq<BlockHash>, t: Seq<BlockHash>) -> bool {
    &&& t.to_multiset() == s.to_multiset()
    &&& forall|i: int, j: int|
        0 <= i < j < t.len() ==> counter_key(counters, t[i]) <= counter_key(counters, t[j])
}

impl LevelMonitor {
    /// A monitor for the given limit, or none when there is no limit.
    pub fn new(level_leaves_max: LevelLimit) -> (r: Option<LevelMonitor>)
        ensures
            match spec_level_limit(level_leaves_max) {
                None => r is None,
                Some(limit) => r matches Some(m) && m@ == (LevelMonitorView {
                    level_limit: limit,
                    import_counter: 0,
                    import_counters: Map::empty(),
                    levels: Map::empty(),
                }),
            },
    {
        let limit = match level_leaves_max {
            LevelLimit::Unlimited => return None,
            LevelLimit::Limit(limit) => limit,
            LevelLimit::Default => MAX_LEAVES_PER_LEVEL_SENSIBLE_DEFAULT,
        };
        let m = LevelMonitor {
            level_limit: limit,
            import_counter: 0,
            import_counters: HashMap::new(),
            levels: HashMap::new(),
        };
        proof {
            assert(m@.levels =~= Map::empty());
        }
        Some(m)
    }

    /// The blocks recorded at a level.
    pub fn level(&self, number: BlockNumber) -> (r: Vec<BlockHash>)
        ensures
            r@ == self@.level(number),
    {
        match self.levels.get(&number) {
            Some(v) => {
                let mut r: Vec<BlockHash> = Vec::new();
                let mut i: usize = 0;
                while i < v.len()
                    invariant
                        i <= v.len(),
                        r@ == v@.take(i as int),
                    decreases v.len() - i,
                {
                    r.push(v[i]);
                    i = i + 1;
                    proof {
                        assert(r@ =~= v@.take(i as int));
                    }
                }
                proof {
                    assert(v@.take(v.len() as int) =~= v@);
                }
                r
            },
            None => Vec::new(),
        }
    }

    /// Add a new imported block information to the monitor.
    pub fn update(&mut self, number: BlockNumber, hash: BlockHash)
        requires
            old(self)@.import_counter < u64::MAX,
        ensures
            final(self)@ == old(self)@.update(number, hash),
    {
        let mut level = self.level(number);
        level.push(hash);
        self.import_counters.insert(hash, self.import_counter);
        self.levels.insert(number, level);
        self.import_counter = self.import_counter + 1;
        proof {
            assert(self@.levels =~= old(self)@.levels.insert(number, old(self)@.level(number).push(hash)));
        }
    }

    /// Whether the monitor still has to be restored from the backend (nothing
    /// was imported yet).
    pub fn needs_restore(&self) -> (r: bool)
        ensures
            r == (self@.import_counter == 0),
    {
        self.import_counter == 0
    }

    fn restore_route(&mut self, blocks: &Vec<HashAndNumber>)
        ensures
            final(self)@ == old(self)@.restore_route(blocks@),
    {
        let ghost s0 = self@;
        let mut i: usize = 0;
        proof {
            assert(blocks@.take(0) =~= Seq::<HashAndNumber>::empty());
        }
        while i < blocks.len()
            invariant
                i <= blocks.len(),
                s0 == old(self)@,
                self@ == s0.restore_route(blocks@.take(i as int)),
            decreases blocks.len() - i,
        {
            let b = blocks[i];
            proof {
                assert(blocks@.take(i + 1).drop_last() == blocks@.take(i as int));
            }
            if !self.import_counters.contains_key(&b.hash) {
                self.import_counter = b.number as u64;
                self.update(b.number, b.hash);
            }
            i = i + 1;
        }
        proof {
            assert(blocks@.take(blocks.len() as int) == blocks@);
        }
    }

    /// Restore the structure from the routes from the last finalized block to
    /// each leaf of the backend: `Some(blocks)` (the finalized block and the
    /// blocks enacted up to the leaf) for a leaf descending from the finalized
    /// block, `None` otherwise.
    ///
    /// Blocks import counters are inferred from their height.
    pub fn restore(&mut self, routes: &Vec<Option<Vec<HashAndNumber>>>)
        ensures
            final(self)@ == old(self)@.restore(
                routes@.map_values(
                    |r: Option<Vec<HashAndNumber>>|
                        match r {
                            Some(v) => Some(v@),
                            None => None,
                        },
                ),
            ),
    {
        let ghost rv = routes@.map_values(
            |r: Option<Vec<HashAndNumber>>|
                match r {
                    Some(v) => Some(v@),
                    None => None,
                },
        );
        let ghost s0 = self@;
        let mut counter_max: u64 = 0;
        let mut i: usize = 0;
        proof {
            assert(rv.take(0) =~= Seq::<Option<Seq<HashAndNumber>>>::empty());
        }
        while i < routes.len()
            invariant
                i <= routes.len(),
                rv.len() == routes@.len(),
                forall|k: int| 0 <= k < routes@.len() ==> #[trigger] rv[k] == match routes@[k] {
                    Some(v) => Some(v@),
                    None => None::<Seq<HashAndNumber>>,
                },
                s0 == old(self)@,
                s0.restore_routes(rv.take(i as int), 0) == (self@, counter_max),
            decreases routes.len() - i,
        {
            proof {
                assert(rv.take(i + 1).drop_last() == rv.take(i as int));
                assert(rv.take(i + 1).last() == rv[i as int]);
            }
            match &routes[i] {
                None => {},
                Some(blocks) => {
                    self.restore_route(blocks);
                    if self.import_counter > counter_max {
                        counter_max = self.import_counter;
                    }
                },
            }
            i = i + 1;
        }
        proof {
            assert(rv.take(routes.len() as int) == rv);
        }
        self.import_counter = counter_max;
    }

    /// Start checking a level before a block at `number` is imported: the level
    /// gets an entry, and the number of blocks to remove from it is returned.
    pub fn removals_needed(&mut self, number: BlockNumber) -> (r: usize)
        requires
            old(self)@.level_limit > 0,
        ensures
            final(self)@ == (LevelMonitorView {
                levels: old(self)@.levels.insert(number, old(self)@.level(number)),
                ..old(self)@
            }),
            r == if old(self)@.level(number).len() < old(self)@.level_limit {
                0
            } else {
                (old(self)@.level(number).len() - old(self)@.level_limit + 1) as usize
            },
    {
        let level = self.level(number);
        let len = level.len();
        self.levels.insert(number, level);
        proof {
            assert(self@.levels =~= old(self)@.levels.insert(number, old(self)@.level(number)));
        }
        if len < self.level_limit {
            0
        } else {
            len - self.level_limit + 1
        }
    }

    /// The leaves ordered by import counter, least recently imported first.
    pub fn sort_leaves(&self, leaves: &Vec<BlockHash>) -> (r: Vec<BlockHash>)
        ensures
            sorted_by_import(self@.import_counters, leaves@, r@),
    {
        sort_leaves_by(&self.import_counters, leaves)
    }
}

/// The leaves ordered by their counters, those without one first, then
/// least recent first.
pub fn sort_leaves_by(counters: &HashMap<BlockHash, u64>, leaves: &Vec<BlockHash>) -> (r: Vec<BlockHash>)
    ensures
        sorted_by_import(counters@, leaves@, r@),
{
    let mut t: Vec<BlockHash> = Vec::new();
    let mut keys: Vec<Option<u64>> = Vec::new();
    let mut i: usize = 0;
    proof {
        assert(leaves@.take(0) =~= t@);
    }
    while i < leaves.len()
        invariant
            i <= leaves.len(),
            t.len() == keys.len(),
            forall|k: int| 0 <= k < t.len() ==> #[trigger] keys@[k] == (if counters@.contains_key(t@[k]) {
                Some(counters@[t@[k]])
            } else {
                None::<u64>
            }),
            forall|a: int, b: int| 0 <= a < b < t.len() ==> counter_key(counters@, t@[a]) <= counter_key(counters@, t@[b]),
            t@.to_multiset() == leaves@.take(i as int).to_multiset(),
        decreases leaves.len() - i,
    {
        let h = leaves[i];
        let key = match counters.get(&h) {
            Some(c) => Some(*c),
            None => None,
        };
        assert(key == (if counters@.contains_key(h) {
            Some(counters@[h])
        } else {
            None::<u64>
        }));
        let mut p: usize = 0;
        while p < t.len() && key_le(keys[p], key)
            invariant
                p <= t.len(),
                t.len() == keys.len(),
                forall|k: int| 0 <= k < t.len() ==> #[trigger] keys@[k] == (if counters@.contains_key(t@[k]) {
                    Some(counters@[t@[k]])
                } else {
                    None::<u64>
                }),
                key == (if counters@.contains_key(h) {
                    Some(counters@[h])
                } else {
                    None::<u64>
                }),
                forall|k: int| 0 <= k < p ==> counter_key(counters@, t@[k]) <= counter_key(counters@, h),
            decreases t.len() - p,
        {
            p = p + 1;
        }
        let ghost old_t = t@;
        let ghost old_keys = keys@;
        proof {
            if p < t.len() {
                assert forall|k: int| p <= k < t.len() implies counter_key(counters@, h) < counter_key(counters@, t@[k]) by {
                    assert(counter_key(counters@, t@[p as int]) <= counter_key(counters@, t@[k]) || k == p);
                }
            }
        }
        t.insert(p, h);
        keys.insert(p, key);
        proof {
            let left = old_t.subrange(0, p as int);
            let right = old_t.subrange(p as int, old_t.len() as int);
            assert(old_t == left + right);
            assert(t@ == left + (seq![h] + right));
            vstd::seq_lib::lemma_multiset_commutative(left, right);
            vstd::seq_lib::lemma_multiset_commutative(seq![h], right);
            vstd::seq_lib::lemma_multiset_commutative(left, seq![h] + right);
            assert(seq![h].to_multiset() == vstd::multiset::Multiset::<BlockHash>::empty().insert(h)) by {
                seq![h].to_multiset_ensures();
                Seq::<BlockHash>::empty().to_multiset_ensures();
                assert(seq![h] == Seq::<BlockHash>::empty().push(h));
            }
            let lt = leaves@.take(i as int);
            assert(leaves@.take(i + 1) == lt.push(h));
            lt.to_multiset_ensures();
            assert(t@.to_multiset() =~= leaves@.take(i + 1).to_multiset());
            assert forall|a: int, b: int| 0 <= a < b < t@.len() implies counter_key(counters@, t@[a]) <= counter_key(counters@, t@[b]) by {
                if b < p {
                } else if b == p {
                } else if a < p {
                    assert(t@[b] == old_t[b - 1]);
                } else if a == p {
                    assert(t@[b] == old_t[b - 1]);
                } else {
                    assert(t@[a] == old_t[a - 1]);
                    assert(t@[b] == old_t[b - 1]);
                }
            }
            assert forall|k: int| 0 <= k < t.len() implies #[trigger] keys@[k] == (if counters@.contains_key(t@[k]) {
                Some(counters@[t@[k]])
            } else {
                None::<u64>
            }) by {
                if k < p {
                    assert(keys@[k] == old_keys[k]);
                } else if k > p {
                    assert(keys@[k] == old_keys[k - 1]);
                    assert(t@[k] == old_t[k - 1]);
                }
            }
        }
        i = i + 1;
    }
    proof {
        assert(leaves@.take(leaves.len() as int) =~= leaves@);
    }
    t
}

/// The routes of a table, row by row, as mathematical values.
pub open spec fn table_view(table: Seq<Vec<Option<DescendingRoute>>>) -> Seq<Seq<Option<RouteView>>> {
    table.map_values(|row: Vec<Option<DescendingRoute>>| row_view(row@))
}

/// Whether a route passes through the best block.
fn touches(r: &DescendingRoute, best: BlockHash) -> (b: bool)
    ensures
        b == route_touches(r@, best),
{
    if r.common_block.hash == best {
        return true;
    }
    let mut i: usize = 0;
    while i < r.enacted.len()
        invariant
            i <= r.enacted.len(),
            r.common_block.hash != best,
            forall|k: int| 0 <= k < i ==> #[trigger] r.enacted@[k].hash != best,
        decreases r.enacted.len() - i,
    {
        if r.enacted[i].hash == best {
            assert(r@.enacted[i as int].hash == best);
            return true;
        }
        i = i + 1;
    }
    false
}

/// Append the blocks a route drops.
fn push_route_removals(out: &mut Vec<BlockHash>, r: &DescendingRoute)
    ensures
        final(out)@ == old(out)@ + route_removals(r@),
{
    let n = r.enacted.len();
    let mut i: usize = n;
    let ghost hashes = r@.enacted.reverse().map_values(|e: HashAndNumber| e.hash);
    proof {
        assert(hashes.len() == n);
        assert(hashes.take(0) =~= Seq::<BlockHash>::empty());
        assert(old(out)@ + hashes.take(0) =~= old(out)@);
    }
    while i > 0
        invariant
            i <= n,
            n == r.enacted.len(),
            hashes == r@.enacted.reverse().map_values(|e: HashAndNumber| e.hash),
            hashes.len() == n,
            out@ == old(out)@ + hashes.take(n - i),
        decreases i,
    {
        proof {
            assert(hashes[n - i] == r.enacted@[i - 1].hash);
            assert(hashes.take(n - i + 1) =~= hashes.take(n - i).push(r.enacted@[i - 1].hash));
        }
        out.push(r.enacted[i - 1].hash);
        i = i - 1;
        proof {
            assert(out@ =~= old(out)@ + hashes.take(n - i));
        }
    }
    out.push(r.common_block.hash);
    proof {
        assert(hashes.take(n as int) =~= hashes);
        assert(out@ =~= old(out)@ + route_removals(r@));
    }
}

impl LevelMonitor {
    /// Remove one block from a saturated level. `table[b][i]` is the route
    /// from the level's block `b` to the leaf of index `i` (leaves sorted least
    /// recently imported first), where that route retracts no block, and
    /// `None` where it does or the backend could not give it. The candidate
    /// block is the one whose routes reach leaves imported least recently,
    /// among those with no route through the best block; its import counters
    /// are forgotten and it leaves the level. Returns the blocks to drop from
    /// the backend, in order.
    pub fn remove_one(
        &mut self,
        number: BlockNumber,
        table: &Vec<Vec<Option<DescendingRoute>>>,
        best: BlockHash,
    ) -> (removed: Vec<BlockHash>)
        requires
            old(self)@.level(number).len() > 0,
            table@.len() == old(self)@.level(number).len(),
        ensures
            (final(self)@, removed@) == old(self)@.remove_one(number, table_view(table@), best),
    {
        let ghost tv = table_view(table@);
        let mut level = self.level(number);
        let mut cand_idx: usize = 0;
        let mut cand_removals: Vec<BlockHash> = Vec::new();
        let mut cand_fresher: usize = usize::MAX;
        let ghost mut cand_routes: Seq<RouteView> = Seq::empty();
        let mut k: usize = 0;
        while k < level.len()
            invariant
                k <= level.len(),
                level@ == old(self)@.level(number),
                table@.len() == level.len(),
                tv == table_view(table@),
                cand_idx < level.len(),
                cand_removals@ == removals(cand_routes),
                scan_level(tv, best, k as int) == (Candidate {
                    idx: cand_idx as int,
                    routes: cand_routes,
                    fresher_leaf_idx: cand_fresher as int,
                }),
            decreases level.len() - k,
        {
            let row = &table[k];
            let ghost rv = row_view(row@);
            proof {
                assert(tv[k as int] == rv);
            }
            let mut j: usize = row.len();
            let mut blk_removals: Vec<BlockHash> = Vec::new();
            let mut blk_count: usize = 0;
            let mut blk_fresher: usize = 0;
            let ghost mut acc_routes: Seq<RouteView> = Seq::empty();
            while j > 0
                invariant
                    k < level.len(),
                    level@ == old(self)@.level(number),
                    table@.len() == level.len(),
                    tv == table_view(table@),
                    cand_idx < level.len(),
                    cand_removals@ == removals(cand_routes),
                    scan_level(tv, best, k as int) == (Candidate {
                        idx: cand_idx as int,
                        routes: cand_routes,
                        fresher_leaf_idx: cand_fresher as int,
                    }),
                    j <= row.len(),
                    row == &table@[k as int],
                    rv == row_view(row@),
                    rv.len() == row.len(),
                    blk_removals@ == removals(acc_routes),
                    blk_count == acc_routes.len(),
                    blk_count <= row.len() - j,
                    scan_leaves(
                        rv,
                        cand_fresher as int,
                        best,
                        row.len() as int,
                        BlockScan { routes: Seq::empty(), fresher_leaf_idx: 0 },
                    ) == scan_leaves(
                        rv,
                        cand_fresher as int,
                        best,
                        j as int,
                        BlockScan { routes: acc_routes, fresher_leaf_idx: blk_fresher as int },
                    ),
                decreases j,
            {
                let leaf_idx = j - 1;
                match &row[leaf_idx] {
                    None => {
                        j = j - 1;
                    },
                    Some(r) => {
                        if leaf_idx > cand_fresher || touches(r, best) {
                            blk_removals = Vec::new();
                            blk_count = 0;
                            proof {
                                acc_routes = Seq::empty();
                            }
                            j = 0;
                        } else {
                            if blk_fresher == 0 {
                                blk_fresher = leaf_idx;
                            }
                            push_route_removals(&mut blk_removals, r);
                            proof {
                                assert(acc_routes.push(r@).drop_last() =~= acc_routes);
                                acc_routes = acc_routes.push(r@);
                            }
                            blk_count = blk_count + 1;
                            j = j - 1;
                        }
                    },
                }
            }
            if blk_count > 0 {
                cand_idx = k;
                cand_removals = blk_removals;
                cand_fresher = blk_fresher;
                proof {
                    cand_routes = acc_routes;
                }
            }
            k = k + 1;
        }
        let ghost s0 = self@;
        let mut i: usize = 0;
        proof {
            assert(cand_removals@.take(0) =~= Seq::<BlockHash>::empty());
        }
        while i < cand_removals.len()
            invariant
                i <= cand_removals.len(),
                level@ == old(self)@.level(number),
                cand_idx < level.len(),
                self@ == s0.forget(cand_removals@.take(i as int)),
            decreases cand_removals.len() - i,
        {
            proof {
                assert(cand_removals@.take(i + 1).drop_last() =~= cand_removals@.take(i as int));
            }
            self.import_counters.remove(&cand_removals[i]);
            i = i + 1;
            proof {
                assert(self@.import_counters =~= s0.forget(cand_removals@.take(i as int)).import_counters);
            }
        }
        proof {
            assert(cand_removals@.take(cand_removals.len() as int) =~= cand_removals@);
            lemma_forget_frame(s0, cand_removals@);
        }
        level.remove(cand_idx);
        self.levels.insert(number, level);
        proof {
            assert(self@.levels =~= s0.levels.insert(number, old(self)@.level(number).remove(cand_idx as int)));
        }
        cand_removals
    }
}

/// Order of optional import counters: unknown blocks first.
fn key_le(a: Option<u64>, b: Option<u64>) -> (r: bool)
    ensures
        r == (match a {
            Some(x) => x as int,
            None => -1,
        } <= match b {
            Some(y) => y as int,
            None => -1,
        }),
{
    match (a, b) {
        (None, _) => true,
        (Some(_), None) => false,
        (Some(x), Some(y)) => x <= y,
    }
}

} // verus!

verus! {

/// Several removal steps at one level, one table of routes per step.
pub open spec fn remove_many(
    s: LevelMonitorView,
    number: BlockNumber,
    tables: Seq<Seq<Seq<Option<RouteView>>>>,
    best: BlockHash,
) -> LevelMonitorView
    decreases tables.len(),
{
    if tables.len() == 0 {
        s
    } else {
        remove_many(s, number, tables.drop_last(), best).remove_one(number, tables.last(), best).0
    }
}

proof fn lemma_scan_leaves_avoids_best(
    row: Seq<Option<RouteView>>,
    candidate_fresher: int,
    best: BlockHash,
    j: int,
    acc: BlockScan,
)
    requires
        forall|i: int| 0 <= i < acc.routes.len() ==> !route_touches(#[trigger] acc.routes[i], best),
    ensures
        forall|i: int|
            0 <= i < scan_leaves(row, candidate_fresher, best, j, acc).routes.len() ==> !route_touches(
                #[trigger] scan_leaves(row, candidate_fresher, best, j, acc).routes[i],
                best,
            ),
    decreases j,
{
    if j > 0 {
        let leaf_idx = j - 1;
        match row[leaf_idx] {
            None => {
                lemma_scan_leaves_avoids_best(row, candidate_fresher, best, j - 1, acc);
                assert(scan_leaves(row, candidate_fresher, best, j, acc) == scan_leaves(
                    row,
                    candidate_fresher,
                    best,
                    j - 1,
                    acc,
                ));
            },
            Some(r) => {
                if leaf_idx > candidate_fresher || route_touches(r, best) {
                    assert(scan_leaves(row, candidate_fresher, best, j, acc).routes =~= Seq::<RouteView>::empty());
                } else {
                    let fresher = if acc.fresher_leaf_idx == 0 {
                        leaf_idx
                    } else {
                        acc.fresher_leaf_idx
                    };
                    let next = BlockScan { routes: acc.routes.push(r), fresher_leaf_idx: fresher };
                    assert forall|i: int| 0 <= i < next.routes.len() implies !route_touches(
                        #[trigger] next.routes[i],
                        best,
                    ) by {
                        if i < acc.routes.len() {
                            assert(next.routes[i] == acc.routes[i]);
                        }
                    }
                    lemma_scan_leaves_avoids_best(row, candidate_fresher, best, j - 1, next);
                    assert(scan_leaves(row, candidate_fresher, best, j, acc) == scan_leaves(
                        row,
                        candidate_fresher,
                        best,
                        j - 1,
                        next,
                    ));
                }
            },
        }
    }
}

proof fn lemma_scan_level(table: Seq<Seq<Option<RouteView>>>, best: BlockHash, k: int)
    ensures
        0 <= scan_level(table, best, k).idx,
        k > 0 ==> scan_level(table, best, k).idx < k,
        forall|i: int|
            0 <= i < scan_level(table, best, k).routes.len() ==> !route_touches(
                #[trigger] scan_level(table, best, k).routes[i],
                best,
            ),
    decreases k,
{
    if k > 0 {
        lemma_scan_level(table, best, k - 1);
        let c = scan_level(table, best, k - 1);
        let row = table[k - 1];
        lemma_scan_leaves_avoids_best(
            row,
            c.fresher_leaf_idx,
            best,
            row.len() as int,
            BlockScan { routes: Seq::empty(), fresher_leaf_idx: 0 },
        );
    }
}

proof fn lemma_removals_avoid(routes: Seq<RouteView>, best: BlockHash)
    requires
        forall|i: int| 0 <= i < routes.len() ==> !route_touches(#[trigger] routes[i], best),
    ensures
        !removals(routes).contains(best),
    decreases routes.len(),
{
    if routes.len() > 0 {
        let r = routes.last();
        assert(!route_touches(routes[routes.len() - 1], best));
        lemma_removals_avoid(routes.drop_last(), best);
        let rr = route_removals(r);
        let n = r.enacted.len();
        assert forall|k: int| 0 <= k < rr.len() implies rr[k] != best by {
            if k < n {
                assert(rr[k] == r.enacted[n - 1 - k].hash);
                if r.enacted[n - 1 - k].hash == best {
                    assert(route_touches(r, best));
                }
            }
        }
        let all = removals(routes);
        assert(all == removals(routes.drop_last()) + rr);
        if all.contains(best) {
            let k = choose|k: int| 0 <= k < all.len() && all[k] == best;
            if k < removals(routes.drop_last()).len() {
                assert(removals(routes.drop_last())[k] == best);
            } else {
                assert(rr[k - removals(routes.drop_last()).len()] == best);
            }
        }
    }
}

/// A removal step never drops the best block: a level block with a route
/// through it is never a candidate.
pub proof fn law_best_block_kept(
    s: LevelMonitorView,
    number: BlockNumber,
    table: Seq<Seq<Option<RouteView>>>,
    best: BlockHash,
)
    ensures
        !s.remove_one(number, table, best).1.contains(best),
{
    lemma_scan_level(table, best, s.level(number).len() as int);
    lemma_removals_avoid(scan_level(table, best, s.level(number).len() as int).routes, best);
}

/// Scanning the leaves of a block yields routes only when none of the routes
/// from the block to the scanned leaves passes through the best block.
proof fn lemma_scan_leaves_spares_best(
    row: Seq<Option<RouteView>>,
    candidate_fresher: int,
    best: BlockHash,
    j: int,
    acc: BlockScan,
)
    requires
        j <= row.len(),
    ensures
        scan_leaves(row, candidate_fresher, best, j, acc).routes.len() > 0 ==> forall|i: int|
            0 <= i < j && #[trigger] row[i] is Some ==> !route_touches(row[i]->0, best),
    decreases j,
{
    if j > 0 {
        let l = j - 1;
        match row[l] {
            None => lemma_scan_leaves_spares_best(row, candidate_fresher, best, j - 1, acc),
            Some(r) => if !(l > candidate_fresher || route_touches(r, best)) {
                let fresher = if acc.fresher_leaf_idx == 0 {
                    l
                } else {
                    acc.fresher_leaf_idx
                };
                lemma_scan_leaves_spares_best(
                    row,
                    candidate_fresher,
                    best,
                    j - 1,
                    BlockScan { routes: acc.routes.push(r), fresher_leaf_idx: fresher },
                );
            },
        }
    }
}

/// The candidate of a level scan, when it has routes, is a block none of
/// whose routes to the leaves passes through the best block.
proof fn lemma_scan_level_spares_best(table: Seq<Seq<Option<RouteView>>>, best: BlockHash, k: int)
    requires
        k <= table.len(),
    ensures
        scan_level(table, best, k).routes.len() > 0 ==> {
            let c = scan_level(table, best, k);
            &&& 0 <= c.idx < k
            &&& forall|i: int|
                0 <= i < table[c.idx].len() && #[trigger] table[c.idx][i] is Some ==> !route_touches(
                    table[c.idx][i]->0,
                    best,
                )
        },
    decreases k,
{
    if k > 0 {
        lemma_scan_level_spares_best(table, best, k - 1);
        let c = scan_level(table, best, k - 1);
        let row = table[k - 1];
        lemma_scan_leaves_spares_best(
            row,
            c.fresher_leaf_idx,
            best,
            row.len() as int,
            BlockScan { routes: Seq::empty(), fresher_leaf_idx: 0 },
        );
    }
}

/// A removal step that drops any block takes out of the level a block none
/// of whose routes to the leaves passes through the best block: it keeps the
/// best block and every ancestor of it.
pub proof fn law_removal_spares_ancestors_of_best(
    s: LevelMonitorView,
    number: BlockNumber,
    table: Seq<Seq<Option<RouteView>>>,
    best: BlockHash,
)
    requires
        table.len() == s.level(number).len(),
    ensures
        s.remove_one(number, table, best).1.len() > 0 ==> exists|idx: int|
            {
                &&& 0 <= idx < s.level(number).len()
                &&& s.remove_one(number, table, best).0.level(number) == s.level(number).remove(idx)
                &&& forall|i: int|
                    0 <= i < table[idx].len() && #[trigger] table[idx][i] is Some ==> !route_touches(
                        table[idx][i]->0,
                        best,
                    )
            },
{
    let level = s.level(number);
    lemma_scan_level(table, best, level.len() as int);
    lemma_scan_level_spares_best(table, best, level.len() as int);
    let c = scan_level(table, best, level.len() as int);
    lemma_forget_frame(s, removals(c.routes));
    if s.remove_one(number, table, best).1.len() > 0 {
        if c.routes.len() == 0 {
            assert(removals(c.routes) =~= Seq::<BlockHash>::empty());
        }
        assert(s.remove_one(number, table, best).0.level(number) == level.remove(c.idx));
    }
}

/// Recording an imported block appends it to its level with the current
/// import counter, which then moves on; other levels are untouched.
pub proof fn law_update_records_the_import(s: LevelMonitorView, number: BlockNumber, hash: BlockHash, other: BlockNumber)
    ensures
        s.update(number, hash).level(number) == s.level(number).push(hash),
        s.update(number, hash).import_counters[hash] == s.import_counter,
        s.import_counter < u64::MAX ==> s.update(number, hash).import_counter == s.import_counter + 1,
        other != number ==> s.update(number, hash).level(other) == s.level(other),
        s.update(number, hash).level_limit == s.level_limit,
{
}

/// A removal step takes exactly one block out of a non-empty level and leaves
/// the other levels and the limit as they were.
pub proof fn law_remove_one_shrinks_level(
    s: LevelMonitorView,
    number: BlockNumber,
    table: Seq<Seq<Option<RouteView>>>,
    best: BlockHash,
)
    requires
        s.level(number).len() > 0,
    ensures
        s.remove_one(number, table, best).0.level(number).len() == s.level(number).len() - 1,
        s.remove_one(number, table, best).0.level_limit == s.level_limit,
        forall|n: BlockNumber|
            n != number ==> #[trigger] s.remove_one(number, table, best).0.level(n) == s.level(n),
{
    let level = s.level(number);
    lemma_scan_level(table, best, level.len() as int);
    let c = scan_level(table, best, level.len() as int);
    lemma_forget_frame(s, removals(c.routes));
}

/// When a block is checked at a saturated level, the removals the monitor asks
/// for leave room for exactly one more block: the level ends one below its limit.
pub proof fn law_check_leaves_room(
    s: LevelMonitorView,
    number: BlockNumber,
    tables: Seq<Seq<Seq<Option<RouteView>>>>,
    best: BlockHash,
)
    requires
        s.level_limit > 0,
        s.level(number).len() >= s.level_limit,
        tables.len() == s.level(number).len() - s.level_limit + 1,
    ensures
        remove_many(s, number, tables, best).level(number).len() == s.level_limit - 1,
    decreases tables.len(),
{
    lemma_remove_many_len(s, number, tables, best);
}

proof fn lemma_remove_many_len(
    s: LevelMonitorView,
    number: BlockNumber,
    tables: Seq<Seq<Seq<Option<RouteView>>>>,
    best: BlockHash,
)
    requires
        tables.len() <= s.level(number).len(),
    ensures
        remove_many(s, number, tables, best).level(number).len() == s.level(number).len() - tables.len(),
        remove_many(s, number, tables, best).level_limit == s.level_limit,
    decreases tables.len(),
{
    if tables.len() > 0 {
        lemma_remove_many_len(s, number, tables.drop_last(), best);
        let prev = remove_many(s, number, tables.drop_last(), best);
        law_remove_one_shrinks_level(prev, number, tables.last(), best);
    }
}

/// How a block reached the import queue.
#[derive(Clone, Copy, Debug, PartialEq, Eq, Structural)]
pub enum BlockOrigin {
    Genesis,
    NetworkInitialSync,
    NetworkBroadcast,
    ConsensusBroadcast,
    Own,
    File,
}

/// Whether an imported block is made the best block: only while the node
/// syncs for the first time; otherwise the relay chain decides, when it
/// includes the block.
pub fn becomes_best(origin: BlockOrigin) -> (best: bool)
    ensures
        best == (origin == BlockOrigin::NetworkInitialSync),
{
    match origin {
        BlockOrigin::NetworkInitialSync => true,
        _ => false,
    }
}

/// The parachain's block import: the level monitor, when there is a limit,
/// learns of every block that was imported.
pub struct ParachainBlockImport {
    pub level_monitor: Option<LevelMonitor>,
}

impl ParachainBlockImport {
    /// A block import with a monitor for the given limit, if any.
    pub fn new(level_leaves_max: LevelLimit) -> (r: Self)
        ensures
            match spec_level_limit(level_leaves_max) {
                None => r.level_monitor is None,
                Some(limit) => r.level_monitor matches Some(m) && m@ == (LevelMonitorView {
                    level_limit: limit,
                    import_counter: 0,
                    import_counters: Map::empty(),
                    levels: Map::empty(),
                }),
            },
    {
        ParachainBlockImport { level_monitor: LevelMonitor::new(level_leaves_max) }
    }

    /// The block at `number` with `hash` was imported.
    pub fn imported(&mut self, number: BlockNumber, hash: BlockHash)
        requires
            old(self).level_monitor matches Some(m) ==> m@.import_counter < u64::MAX,
        ensures
            match old(self).level_monitor {
                None => final(self).level_monitor is None,
                Some(m) => final(self).level_monitor matches Some(n) && n@ == m@.update(number, hash),
            },
    {
        match &mut self.level_monitor {
            Some(m) => m.update(number, hash),
            None => {},
        }
    }
}

} // verus!
