//! The storage of the feed pallet and its mathematical view.
use crate::chainlink_feed::types::{
    account_key, account_key_of, round_key, round_key_of, AccountId, Balance, BlockNumber, Event,
    FeedConfig, FeedConfigView, FeedId, OracleMeta, OracleStatus, Requester, Round, RoundDetails,
    RoundDetailsView, RoundId,
};
use std::collections::{HashMap, HashSet};
use vstd::std_specs::hash::spec_hash_keys_iter;
use vstd::std_specs::iter::IteratorSpec;
use vstd::prelude::*;

verus! {

broadcast use vstd::std_specs::hash::group_hash_axioms;

/// Limits the runtime configures for the pallet.
#[derive(Clone, Copy, Debug, PartialEq, Eq, Structural)]
pub struct Limits {
    /// Maximum allowed string length.
    pub string_limit: u32,
    /// Maximum number of oracles per feed.
    pub oracle_count_limit: u32,
    /// Maximum number of feeds.
    pub feed_limit: FeedId,
    /// The minimum amount of funds that need to be present in the fund account.
    pub minimum_reserve: Balance,
}

/// The storage of the feed pallet, as mathematical values.
pub struct PalletView {
    pub limits: Limits,
    pub pallet_admin: AccountId,
    pub pending_pallet_admin: Option<AccountId>,
    pub feed_counter: FeedId,
    pub feeds: Map<FeedId, FeedConfigView>,
    pub feed_creators: Set<AccountId>,
    /// Rounds by `round_key(feed, round)`.
    pub rounds: Map<u64, Round>,
    /// Round details by `round_key(feed, round)`.
    pub details: Map<u64, RoundDetailsView>,
    pub oracles: Map<AccountId, OracleMeta>,
    /// Oracle statuses by `account_key(feed, oracle)`.
    pub oracle_statuses: Map<u128, OracleStatus>,
    /// Requesters by `account_key(feed, requester)`.
    pub requesters: Map<u128, Requester>,
    /// The events deposited so far.
    pub events: Seq<Event>,
}

/// The storage of the feed pallet.
pub struct Pallet {
    pub limits: Limits,
    pub pallet_admin: AccountId,
    pub pending_pallet_admin: Option<AccountId>,
    pub feed_counter: FeedId,
    pub feeds: HashMap<FeedId, FeedConfig>,
    pub feed_creators: HashSet<AccountId>,
    pub rounds: HashMap<u64, Round>,
    pub details: HashMap<u64, RoundDetails>,
    pub oracles: HashMap<AccountId, OracleMeta>,
    pub oracle_statuses: HashMap<u128, OracleStatus>,
    pub requesters: HashMap<u128, Requester>,
    pub events: Vec<Event>,
}

impl View for Pallet {
    type V = PalletView;

    open spec fn view(&self) -> PalletView {
        PalletView {
            limits: self.limits,
            pallet_admin: self.pallet_admin,
            pending_pallet_admin: self.pending_pallet_admin,
            feed_counter: self.feed_counter,
            feeds: self.feeds@.map_values(|c: FeedConfig| c@),
            feed_creators: self.feed_creators@,
            rounds: self.rounds@,
            details: self.details@.map_values(|d: RoundDetails| d@),
            oracles: self.oracles@,
            oracle_statuses: self.oracle_statuses@,
            requesters: self.requesters@,
            events: self.events@,
        }
    }
}

/// Every feed keeps a non-empty pruning window.
pub open spec fn feeds_well_formed(feeds: Map<FeedId, FeedConfigView>) -> bool {
    forall|f: FeedId| #[trigger] feeds.contains_key(f) ==> feeds[f].pruning_window > 0
}

impl PalletView {
    pub open spec fn well_formed(self) -> bool {
        feeds_well_formed(self.feeds)
    }

    pub open spec fn round(self, feed: FeedId, round: RoundId) -> Option<Round> {
        if self.rounds.contains_key(round_key(feed, round)) {
            Some(self.rounds[round_key(feed, round)])
        } else {
            None
        }
    }

    pub open spec fn details(self, feed: FeedId, round: RoundId) -> Option<RoundDetailsView> {
        if self.details.contains_key(round_key(feed, round)) {
            Some(self.details[round_key(feed, round)])
        } else {
            None
        }
    }

    pub open spec fn oracle_status(self, feed: FeedId, oracle: AccountId) -> Option<OracleStatus> {
        if self.oracle_statuses.contains_key(account_key(feed, oracle)) {
            Some(self.oracle_statuses[account_key(feed, oracle)])
        } else {
            None
        }
    }

    pub open spec fn requester(self, feed: FeedId, requester: AccountId) -> Option<Requester> {
        if self.requesters.contains_key(account_key(feed, requester)) {
            Some(self.requesters[account_key(feed, requester)])
        } else {
            None
        }
    }

    pub open spec fn oracle(self, oracle: AccountId) -> Option<OracleMeta> {
        if self.oracles.contains_key(oracle) {
            Some(self.oracles[oracle])
        } else {
            None
        }
    }

    pub open spec fn feed_config(self, feed: FeedId) -> Option<FeedConfigView> {
        if self.feeds.contains_key(feed) {
            Some(self.feeds[feed])
        } else {
            None
        }
    }

    pub open spec fn deposit(self, e: Event) -> PalletView {
        PalletView { events: self.events.push(e), ..self }
    }

    pub open spec fn put_round(self, feed: FeedId, round: RoundId, r: Round) -> PalletView {
        PalletView { rounds: self.rounds.insert(round_key(feed, round), r), ..self }
    }

    pub open spec fn remove_round(self, feed: FeedId, round: RoundId) -> PalletView {
        PalletView { rounds: self.rounds.remove(round_key(feed, round)), ..self }
    }

    pub open spec fn put_details(
        self,
        feed: FeedId,
        round: RoundId,
        d: RoundDetailsView,
    ) -> PalletView {
        PalletView { details: self.details.insert(round_key(feed, round), d), ..self }
    }

    pub open spec fn remove_details(self, feed: FeedId, round: RoundId) -> PalletView {
        PalletView { details: self.details.remove(round_key(feed, round)), ..self }
    }

    pub open spec fn put_status(self, feed: FeedId, oracle: AccountId, st: OracleStatus) -> PalletView {
        PalletView {
            oracle_statuses: self.oracle_statuses.insert(account_key(feed, oracle), st),
            ..self
        }
    }

    pub open spec fn put_requester(
        self,
        feed: FeedId,
        requester: AccountId,
        r: Requester,
    ) -> PalletView {
        PalletView { requesters: self.requesters.insert(account_key(feed, requester), r), ..self }
    }

    pub open spec fn remove_requester(self, feed: FeedId, requester: AccountId) -> PalletView {
        PalletView { requesters: self.requesters.remove(account_key(feed, requester)), ..self }
    }

    pub open spec fn put_oracle(self, oracle: AccountId, m: OracleMeta) -> PalletView {
        PalletView { oracles: self.oracles.insert(oracle, m), ..self }
    }

    pub open spec fn put_feed(self, feed: FeedId, c: FeedConfigView) -> PalletView {
        PalletView { feeds: self.feeds.insert(feed, c), ..self }
    }
}

impl Pallet {
    /// A pallet with empty storage and the given limits.
    pub fn new(limits: Limits) -> (p: Pallet)
        ensures
            p@ == (PalletView {
                limits,
                pallet_admin: 0,
                pending_pallet_admin: None,
                feed_counter: 0,
                feeds: Map::empty(),
                feed_creators: Set::empty(),
                rounds: Map::empty(),
                details: Map::empty(),
                oracles: Map::empty(),
                oracle_statuses: Map::empty(),
                requesters: Map::empty(),
                events: Seq::empty(),
            }),
    {
        let p = Pallet {
            limits,
            pallet_admin: 0,
            pending_pallet_admin: None,
            feed_counter: 0,
            feeds: HashMap::new(),
            feed_creators: HashSet::new(),
            rounds: HashMap::new(),
            details: HashMap::new(),
            oracles: HashMap::new(),
            oracle_statuses: HashMap::new(),
            requesters: HashMap::new(),
            events: Vec::new(),
        };
        proof {
            assert(p@.feeds =~= Map::empty());
            assert(p@.details =~= Map::empty());
            assert(p@.feed_creators =~= Set::empty());
        }
        p
    }

    // --- storage access -------------------------------------------------

    /// The limits the pallet was configured with.
    pub fn limits(&self) -> (l: Limits)
        ensures
            l == self@.limits,
    {
        self.limits
    }

    pub fn get_round(&self, feed: FeedId, round: RoundId) -> (r: Option<Round>)
        ensures
            r == self@.round(feed, round),
    {
        match self.rounds.get(&round_key_of(feed, round)) {
            Some(r) => Some(*r),
            None => None,
        }
    }

    pub fn get_oracle_status(&self, feed: FeedId, oracle: AccountId) -> (r: Option<OracleStatus>)
        ensures
            r == self@.oracle_status(feed, oracle),
    {
        match self.oracle_statuses.get(&account_key_of(feed, oracle)) {
            Some(s) => Some(*s),
            None => None,
        }
    }

    pub fn get_requester(&self, feed: FeedId, requester: AccountId) -> (r: Option<Requester>)
        ensures
            r == self@.requester(feed, requester),
    {
        match self.requesters.get(&account_key_of(feed, requester)) {
            Some(s) => Some(*s),
            None => None,
        }
    }

    pub fn get_oracle(&self, oracle: AccountId) -> (r: Option<OracleMeta>)
        ensures
            r == self@.oracle(oracle),
    {
        match self.oracles.get(&oracle) {
            Some(m) => Some(*m),
            None => None,
        }
    }

    /// The timeout of a round's details, if they are present.
    pub fn get_details_timeout(&self, feed: FeedId, round: RoundId) -> (r: Option<BlockNumber>)
        ensures
            r == (match self@.details(feed, round) {
                Some(d) => Some(d.timeout),
                None => None,
            }),
    {
        match self.details.get(&round_key_of(feed, round)) {
            Some(d) => Some(d.timeout),
            None => None,
        }
    }

    pub(crate) fn deposit_event(&mut self, e: Event)
        ensures
            final(self)@ == old(self)@.deposit(e),
    {
        self.events.push(e);
    }

    pub(crate) fn insert_round(&mut self, feed: FeedId, round: RoundId, r: Round)
        ensures
            final(self)@ == old(self)@.put_round(feed, round, r),
    {
        self.rounds.insert(round_key_of(feed, round), r);
    }

    pub(crate) fn delete_round(&mut self, feed: FeedId, round: RoundId)
        ensures
            final(self)@ == old(self)@.remove_round(feed, round),
    {
        self.rounds.remove(&round_key_of(feed, round));
    }

    pub(crate) fn insert_details(&mut self, feed: FeedId, round: RoundId, d: RoundDetails)
        ensures
            final(self)@ == old(self)@.put_details(feed, round, d@),
    {
        self.details.insert(round_key_of(feed, round), d);
        proof {
            assert(self@.details =~= old(self)@.details.insert(round_key(feed, round), d@));
        }
    }

    pub(crate) fn delete_details(&mut self, feed: FeedId, round: RoundId)
        ensures
            final(self)@ == old(self)@.remove_details(feed, round),
    {
        self.details.remove(&round_key_of(feed, round));
        proof {
            assert(self@.details =~= old(self)@.details.remove(round_key(feed, round)));
        }
    }

    /// Remove and return the details of a round.
    pub(crate) fn take_details(&mut self, feed: FeedId, round: RoundId) -> (r: Option<RoundDetails>)
        ensures
            final(self)@ == old(self)@.remove_details(feed, round),
            match r {
                Some(d) => old(self)@.details(feed, round) == Some(d@),
                None => old(self)@.details(feed, round) is None,
            },
    {
        let r = self.details.remove(&round_key_of(feed, round));
        proof {
            assert(self@.details =~= old(self)@.details.remove(round_key(feed, round)));
        }
        r
    }

    pub(crate) fn insert_status(&mut self, feed: FeedId, oracle: AccountId, st: OracleStatus)
        ensures
            final(self)@ == old(self)@.put_status(feed, oracle, st),
    {
        self.oracle_statuses.insert(account_key_of(feed, oracle), st);
    }

    pub(crate) fn insert_requester(&mut self, feed: FeedId, requester: AccountId, r: Requester)
        ensures
            final(self)@ == old(self)@.put_requester(feed, requester, r),
    {
        self.requesters.insert(account_key_of(feed, requester), r);
    }

    pub(crate) fn take_requester(&mut self, feed: FeedId, requester: AccountId) -> (r: Option<
        Requester,
    >)
        ensures
            final(self)@ == old(self)@.remove_requester(feed, requester),
            r == old(self)@.requester(feed, requester),
    {
        self.requesters.remove(&account_key_of(feed, requester))
    }

    pub(crate) fn insert_oracle(&mut self, oracle: AccountId, m: OracleMeta)
        ensures
            final(self)@ == old(self)@.put_oracle(oracle, m),
    {
        self.oracles.insert(oracle, m);
    }

    /// Store a feed configuration.
    pub(crate) fn store_feed(&mut self, feed: FeedId, c: FeedConfig)
        requires
            c.pruning_window > 0,
        ensures
            final(self)@ == old(self)@.put_feed(feed, c@),
    {
        self.feeds.insert(feed, c);
        proof {
            assert(self@.feeds =~= old(self)@.feeds.insert(feed, c@));
        }
    }

    /// A copy of the whole storage.
    pub(crate) fn checkpoint(&self) -> (r: Pallet)
        ensures
            r@ == self@,
    {
        let mut events: Vec<Event> = Vec::new();
        let mut i: usize = 0;
        while i < self.events.len()
            invariant
                i <= self.events.len(),
                events@ == self.events@.take(i as int),
            decreases self.events.len() - i,
        {
            events.push(self.events[i]);
            i = i + 1;
            proof {
                assert(events@ =~= self.events@.take(i as int));
            }
        }
        proof {
            assert(self.events@.take(self.events.len() as int) =~= self.events@);
        }
        Pallet {
            limits: self.limits,
            pallet_admin: self.pallet_admin,
            pending_pallet_admin: self.pending_pallet_admin,
            feed_counter: self.feed_counter,
            feeds: self.feeds.clone(),
            feed_creators: copy_accounts(&self.feed_creators),
            rounds: self.rounds.clone(),
            details: self.details.clone(),
            oracles: self.oracles.clone(),
            oracle_statuses: self.oracle_statuses.clone(),
            requesters: self.requesters.clone(),
            events,
        }
    }

    /// A copy of the stored configuration of a feed.
    pub fn get_feed_config(&self, feed: FeedId) -> (r: Option<FeedConfig>)
        requires
            self@.well_formed(),
        ensures
            match r {
                Some(c) => self@.feed_config(feed) == Some(c@) && c.pruning_window > 0,
                None => self@.feed_config(feed) is None,
            },
    {
        match self.feeds.get(&feed) {
            Some(c) => Some(c.duplicate()),
            None => None,
        }
    }
}

/// A copy of a set of accounts.
fn copy_accounts(accounts: &HashSet<AccountId>) -> (r: HashSet<AccountId>)
    ensures
        r@ == accounts@,
{
    let mut r: HashSet<AccountId> = HashSet::new();
    let ghost mut taken: Seq<AccountId> = Seq::empty();
    for k in it: accounts.iter()
        invariant
            taken == it.seq().take(it.index()).map_values(|x: &AccountId| *x),
            r@ == taken.to_set(),
    {
        proof {
            taken.lemma_push_to_set_commute(*k);
            taken = taken.push(*k);
        }
        r.insert(*k);
    }
    let ghost ks = IteratorSpec::remaining(&spec_hash_keys_iter(accounts));
    assert(taken =~= ks.unref());
    r
}

} // verus!
