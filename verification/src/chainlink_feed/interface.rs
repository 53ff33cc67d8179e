//! Reading feeds, starting rounds on request of other pallets, and building
//! the genesis storage.
use crate::chainlink_feed::feed::sat_sub_u32;
use crate::chainlink_feed::state::{Limits, Pallet, PalletView};
use crate::chainlink_feed::types::{
    account_key, lemma_account_key_injective, AccountId, Balance, BlockNumber, Error, FeedConfig, FeedConfigView, FeedId, OracleMeta,
    OracleStatus, Round, RoundData, RoundId, Value,
};
use vstd::prelude::*;

verus! {

/// The initial storage of the pallet.
pub struct GenesisConfig {
    pub pallet_admin: Option<AccountId>,
    /// Accounts allowed to create new feeds.
    pub feed_creators: Vec<AccountId>,
    /// Feeds: owner, payment, timeout, minimum submissions, decimals, description, oracles.
    pub feeds: Vec<(AccountId, Balance, BlockNumber, u32, u8, Vec<u8>, Vec<(AccountId, AccountId)>)>,
}

impl PalletView {
    /// The debt of a feed.
    pub open spec fn debt(self, feed: FeedId) -> Result<Balance, Error> {
        match self.feed_config(feed) {
            Some(cfg) => Ok(cfg.debt),
            None => Err(Error::FeedNotFound),
        }
    }

    /// The data of an answered round of a feed.
    pub open spec fn data_at(self, feed: FeedId, round: RoundId) -> Option<RoundData> {
        match self.round(feed, round) {
            Some(r) => match RoundData::spec_try_from(r) {
                Ok(d) => Some(d),
                Err(_) => None,
            },
            None => None,
        }
    }

    /// The latest data of a feed, or default data when the latest round is not answered.
    pub open spec fn latest_data(self, feed: FeedId, cfg: FeedConfigView) -> RoundData {
        match self.data_at(feed, cfg.latest_round) {
            Some(d) => d,
            None => RoundData { started_at: 0, answer: 0, updated_at: 0, answered_in_round: 0 },
        }
    }

    /// Enable a genesis oracle; `None` when it is already enabled.
    pub open spec fn genesis_oracle(
        self,
        feed: FeedId,
        reporting: RoundId,
        oracle: AccountId,
        admin: AccountId,
    ) -> Option<PalletView> {
        let s1 = self.put_oracle(oracle, OracleMeta { withdrawable: 0, admin, pending_admin: None });
        match s1.oracle_status(feed, oracle) {
            Some(st) => if st.ending_round is None {
                None
            } else {
                Some(
                    s1.put_status(
                        feed,
                        oracle,
                        OracleStatus { starting_round: reporting, ending_round: None, ..st },
                    ),
                )
            },
            None => Some(s1.put_status(feed, oracle, OracleStatus::spec_new(reporting))),
        }
    }

    /// Enable the genesis oracles in order; `None` when one is already enabled.
    pub open spec fn genesis_oracles(
        self,
        feed: FeedId,
        reporting: RoundId,
        oracles: Seq<(AccountId, AccountId)>,
    ) -> Option<PalletView>
        decreases oracles.len(),
    {
        if oracles.len() == 0 {
            Some(self)
        } else {
            match self.genesis_oracles(feed, reporting, oracles.drop_last()) {
                None => None,
                Some(s1) => s1.genesis_oracle(feed, reporting, oracles.last().0, oracles.last().1),
            }
        }
    }

    /// The storage after creating a feed at genesis (without checks);
    /// `None` when an oracle of the feed is already enabled.
    pub open spec fn genesis_feed(
        self,
        owner: AccountId,
        payment: Balance,
        timeout: BlockNumber,
        submission_value_bounds: (Value, Value),
        min_submissions: u32,
        decimals: u8,
        description: Seq<u8>,
        restart_delay: RoundId,
        oracles: Seq<(AccountId, AccountId)>,
        pruning_window: RoundId,
        max_debt: Option<Balance>,
        now: BlockNumber,
    ) -> Option<PalletView> {
        let id = self.feed_counter;
        let cfg = FeedConfigView {
            owner,
            pending_owner: None,
            payment,
            timeout,
            submission_value_bounds,
            submission_count_bounds: (min_submissions, oracles.len() as u32),
            decimals,
            description,
            restart_delay,
            latest_round: 0,
            reporting_round: 0,
            first_valid_round: None,
            oracle_count: oracles.len() as u32,
            pruning_window,
            next_round_to_prune: 1,
            debt: 0,
            max_debt,
        };
        let s1 = PalletView { feed_counter: (id + 1) as u32, ..self }.put_round(
            id,
            0,
            Round { started_at: now, answer: Some(0), updated_at: Some(now), answered_in_round: Some(0) },
        );
        match s1.genesis_oracles(id, 0, oracles) {
            None => None,
            Some(s2) => Some(s2.put_feed(id, cfg)),
        }
    }
}

impl Pallet {
    /// Get the debt of a feed.
    pub fn debt(&self, feed_id: FeedId) -> (r: Result<Balance, Error>)
        requires
            self@.well_formed(),
        ensures
            r == self@.debt(feed_id),
    {
        match self.get_feed_config(feed_id) {
            Some(cfg) => Ok(cfg.debt),
            None => Err(Error::FeedNotFound),
        }
    }

    /// The id of the first round of a feed that contains non-default data.
    pub fn first_valid_round(&self, feed_id: FeedId) -> (r: Option<Option<RoundId>>)
        requires
            self@.well_formed(),
        ensures
            r == (match self@.feed_config(feed_id) {
                Some(cfg) => Some(cfg.first_valid_round),
                None => None,
            }),
    {
        match self.get_feed_config(feed_id) {
            Some(cfg) => Some(cfg.first_valid_round),
            None => None,
        }
    }

    /// The id of the latest answered round of a feed.
    pub fn latest_round(&self, feed_id: FeedId) -> (r: Option<RoundId>)
        requires
            self@.well_formed(),
        ensures
            r == (match self@.feed_config(feed_id) {
                Some(cfg) => Some(cfg.latest_round),
                None => None,
            }),
    {
        match self.get_feed_config(feed_id) {
            Some(cfg) => Some(cfg.latest_round),
            None => None,
        }
    }

    /// The round a feed's oracles are currently reporting data for.
    pub fn reporting_round_id(&self, feed_id: FeedId) -> (r: Option<RoundId>)
        requires
            self@.well_formed(),
        ensures
            r == (match self@.feed_config(feed_id) {
                Some(cfg) => Some(cfg.reporting_round),
                None => None,
            }),
    {
        match self.get_feed_config(feed_id) {
            Some(cfg) => Some(cfg.reporting_round),
            None => None,
        }
    }

    /// The configured decimals of a feed.
    pub fn decimals(&self, feed_id: FeedId) -> (r: Option<u8>)
        requires
            self@.well_formed(),
        ensures
            r == (match self@.feed_config(feed_id) {
                Some(cfg) => Some(cfg.decimals),
                None => None,
            }),
    {
        match self.get_feed_config(feed_id) {
            Some(cfg) => Some(cfg.decimals),
            None => None,
        }
    }

    /// The data of a round, if the round is answered.
    pub fn data_at(&self, feed_id: FeedId, round: RoundId) -> (r: Option<RoundData>)
        ensures
            r == self@.data_at(feed_id, round),
    {
        match self.get_round(feed_id, round) {
            Some(r) => match RoundData::try_from(r) {
                Ok(d) => Some(d),
                Err(_) => None,
            },
            None => None,
        }
    }

    /// The data of the latest round of a feed (default data when it is not
    /// answered); `None` for an unknown feed.
    pub fn latest_data(&self, feed_id: FeedId) -> (r: Option<RoundData>)
        requires
            self@.well_formed(),
        ensures
            r == (match self@.feed_config(feed_id) {
                Some(cfg) => Some(self@.latest_data(feed_id, cfg)),
                None => None,
            }),
    {
        match self.get_feed_config(feed_id) {
            Some(cfg) => match self.data_at(feed_id, cfg.latest_round) {
                Some(d) => Some(d),
                None => Some(RoundData { started_at: 0, answer: 0, updated_at: 0, answered_in_round: 0 }),
            },
            None => None,
        }
    }

    /// Request that a new round be started for a feed on behalf of `requester`,
    /// as other pallets do through the mutable feed interface.
    pub fn request_new_round_for(
        &mut self,
        feed_id: FeedId,
        requester: AccountId,
        now: BlockNumber,
    ) -> (r: Result<(), Error>)
        requires
            old(self)@.well_formed(),
        ensures
            final(self)@.well_formed(),
            match old(self)@.feed_config(feed_id) {
                None => r == Err::<(), Error>(Error::FeedNotFound) && final(self)@ == old(self)@,
                Some(cfg) => match old(self)@.feed_request_new_round(feed_id, cfg, requester, now) {
                    Ok((s, c)) => r is Ok && final(self)@ == s.put_feed(feed_id, c),
                    Err(e) => r == Err::<(), Error>(e) && final(self)@ == old(self)@,
                },
            },
    {
        let mut cfg = match self.get_feed_config(feed_id) {
            Some(c) => c,
            None => return Err(Error::FeedNotFound),
        };
        let checkpoint = self.checkpoint();
        let r = self.feed_request_new_round(feed_id, &mut cfg, requester, now);
        if r.is_err() {
            *self = checkpoint;
            return r;
        }
        self.store_feed(feed_id, cfg);
        Ok(())
    }

    fn genesis_oracles(&mut self, feed: FeedId, oracles: &Vec<(AccountId, AccountId)>)
        requires
            old(self)@.genesis_oracles(feed, 0, oracles@) is Some,
        ensures
            old(self)@.genesis_oracles(feed, 0, oracles@) == Some(final(self)@),
            final(self)@.feeds == old(self)@.feeds,
    {
        let ghost s0 = self@;
        let mut i: usize = 0;
        proof {
            assert(oracles@.take(0) =~= Seq::<(AccountId, AccountId)>::empty());
        }
        while i < oracles.len()
            invariant
                i <= oracles.len(),
                s0 == old(self)@,
                s0.genesis_oracles(feed, 0, oracles@) is Some,
                s0.genesis_oracles(feed, 0, oracles@.take(i as int)) == Some(self@),
                self@.feeds == s0.feeds,
            decreases oracles.len() - i,
        {
            let (oracle, admin) = oracles[i];
            proof {
                assert(oracles@.take(i + 1).drop_last() == oracles@.take(i as int));
                lemma_genesis_prefix_some(s0, feed, oracles@, (i + 1) as int);
            }
            self.insert_oracle(oracle, OracleMeta { withdrawable: 0, admin, pending_admin: None });
            match self.get_oracle_status(feed, oracle) {
                Some(st) => {
                    self.insert_status(
                        feed,
                        oracle,
                        OracleStatus {
                            starting_round: 0,
                            ending_round: None,
                            last_reported_round: st.last_reported_round,
                            last_started_round: st.last_started_round,
                            latest_submission: st.latest_submission,
                        },
                    );
                },
                None => {
                    self.insert_status(
                        feed,
                        oracle,
                        OracleStatus {
                            starting_round: 0,
                            ending_round: None,
                            last_reported_round: None,
                            last_started_round: None,
                            latest_submission: None,
                        },
                    );
                },
            }
            i = i + 1;
        }
        proof {
            assert(oracles@.take(oracles.len() as int) == oracles@);
        }
    }

    /// Create a feed at genesis, without the checks of `create_feed`.
    ///
    /// No oracle of the feed may be enabled already, and the feed counter must
    /// not be at its maximum.
    pub fn genesis_feeds(
        &mut self,
        owner: AccountId,
        payment: Balance,
        timeout: BlockNumber,
        submission_value_bounds: (Value, Value),
        min_submissions: u32,
        decimals: u8,
        description: Vec<u8>,
        restart_delay: RoundId,
        oracles: Vec<(AccountId, AccountId)>,
        pruning_window: RoundId,
        max_debt: Option<Balance>,
        now: BlockNumber,
    ) -> (r: Result<(), Error>)
        requires
            old(self)@.well_formed(),
            pruning_window > 0,
            old(self)@.feed_counter < u32::MAX,
            old(self)@.genesis_feed(
                owner,
                payment,
                timeout,
                submission_value_bounds,
                min_submissions,
                decimals,
                description@,
                restart_delay,
                oracles@,
                pruning_window,
                max_debt,
                now,
            ) is Some,
        ensures
            r is Ok,
            final(self)@.well_formed(),
            Some(final(self)@) == old(self)@.genesis_feed(
                owner,
                payment,
                timeout,
                submission_value_bounds,
                min_submissions,
                decimals,
                description@,
                restart_delay,
                oracles@,
                pruning_window,
                max_debt,
                now,
            ),
    {
        #[verifier::truncate]
        let count = oracles.len() as u32;
        let id = self.feed_counter;
        self.feed_counter = id + 1;
        let cfg = FeedConfig {
            owner,
            pending_owner: None,
            payment,
            timeout,
            submission_value_bounds,
            submission_count_bounds: (min_submissions, count),
            decimals,
            description,
            restart_delay,
            latest_round: 0,
            reporting_round: 0,
            first_valid_round: None,
            oracle_count: count,
            pruning_window,
            next_round_to_prune: 1,
            debt: 0,
            max_debt,
        };
        self.insert_round(
            id,
            0,
            Round { started_at: now, answer: Some(0), updated_at: Some(now), answered_in_round: Some(0) },
        );
        self.genesis_oracles(id, &oracles);
        self.store_feed(id, cfg);
        Ok(())
    }

    /// The storage built from a genesis configuration at block `now`, with the
    /// given limits. Each feed accepts any value, has no restart delay and keeps
    /// a pruning window of 10 rounds.
    ///
    /// No oracle may be listed twice for one feed.
    pub fn build_genesis(limits: Limits, config: &GenesisConfig, now: BlockNumber) -> (p: Pallet)
        requires
            config.feeds@.len() < u32::MAX,
            forall|f: int| 0 <= f < config.feeds@.len() ==> distinct_oracles(#[trigger] config.feeds@[f].6@),
        ensures
            p@.well_formed(),
            p@.limits == limits,
            p@.feed_counter == config.feeds@.len(),
            p@.pallet_admin == (match config.pallet_admin {
                Some(a) => a,
                None => 0,
            }),
            forall|i: int| 0 <= i < config.feed_creators@.len() ==> p@.feed_creators.contains(#[trigger] config.feed_creators@[i]),
            forall|f: int| 0 <= f < config.feeds@.len() ==> #[trigger] p@.feeds.contains_key(f as u32),
    {
        let mut p = Pallet::new(limits);
        match config.pallet_admin {
            Some(a) => p.pallet_admin = a,
            None => {},
        }
        let mut i: usize = 0;
        while i < config.feed_creators.len()
            invariant
                i <= config.feed_creators.len(),
                p@.well_formed(),
                p@.feed_counter == 0,
                p@.limits == limits,
                p@.pallet_admin == (match config.pallet_admin {
                    Some(a) => a,
                    None => 0,
                }),
                p@.oracle_statuses == Map::<u128, OracleStatus>::empty(),
                p@.feeds == Map::<FeedId, FeedConfigView>::empty(),
                forall|j: int| 0 <= j < i ==> p@.feed_creators.contains(#[trigger] config.feed_creators@[j]),
            decreases config.feed_creators.len() - i,
        {
            p.feed_creators.insert(config.feed_creators[i]);
            i = i + 1;
        }
        let mut f: usize = 0;
        while f < config.feeds.len()
            invariant
                f <= config.feeds.len(),
                config.feeds@.len() < u32::MAX,
                forall|g: int| 0 <= g < config.feeds@.len() ==> distinct_oracles(#[trigger] config.feeds@[g].6@),
                p@.well_formed(),
                p@.feed_counter == f,
                p@.limits == limits,
                p@.pallet_admin == (match config.pallet_admin {
                    Some(a) => a,
                    None => 0,
                }),
                no_statuses_from(p@, f as u32),
                forall|j: int| 0 <= j < config.feed_creators@.len() ==> p@.feed_creators.contains(#[trigger] config.feed_creators@[j]),
                forall|g: int| 0 <= g < f ==> #[trigger] p@.feeds.contains_key(g as u32),
            decreases config.feeds.len() - f,
        {
            let feed = &config.feeds[f];
            let description = crate::chainlink_feed::types::copy_bytes(&feed.5);
            let oracles = copy_pairs(&feed.6);
            let ghost before = p@;
            let ghost list = oracles@;
            let ghost s1 = PalletView { feed_counter: (f + 1) as u32, ..before }.put_round(
                f as u32,
                0,
                Round { started_at: now, answer: Some(0), updated_at: Some(now), answered_in_round: Some(0) },
            );
            proof {
                assert(distinct_oracles(config.feeds@[f as int].6@));
                assert(no_statuses_from(s1, f as u32));
                lemma_genesis_oracles_some(s1, f as u32, list);
            }
            p.genesis_feeds(
                feed.0,
                feed.1,
                feed.2,
                (0, u64::MAX),
                feed.3,
                feed.4,
                description,
                0,
                oracles,
                10,
                None,
                now,
            );
            proof {
                assert forall|g: FeedId, a: AccountId| g >= (f + 1) as u32 implies !#[trigger] p@.oracle_statuses.contains_key(
                    account_key(g, a),
                ) by {
                    lemma_genesis_oracles_frame(s1, f as u32, list, g, a);
                    assert(!before.oracle_statuses.contains_key(account_key(g, a)));
                }
                lemma_genesis_oracles_fields(s1, f as u32, list);
                assert forall|g: int| 0 <= g < f + 1 implies #[trigger] p@.feeds.contains_key(g as u32) by {
                    if g < f {
                        assert(before.feeds.contains_key(g as u32));
                    }
                }
            }
            f = f + 1;
        }
        p
    }
}

/// A copy of a list of pairs.
pub fn copy_pairs(v: &Vec<(AccountId, AccountId)>) -> (r: Vec<(AccountId, AccountId)>)
    ensures
        r@ == v@,
{
    let mut r: Vec<(AccountId, AccountId)> = Vec::new();
    let mut i: usize = 0;
    while i < v.len()
        invariant
            i <= v.len(),
            r@ == v@.take(i as int),
        decreases v.len() - i,
    {
        r.push(v[i]);
        i = i + 1;
        proof {
            assert(r@ =~= v@.take(i as int));
        }
    }
    proof {
        assert(v@.take(v.len() as int) =~= v@);
    }
    r
}

/// No oracle is listed twice.
pub open spec fn distinct_oracles(oracles: Seq<(AccountId, AccountId)>) -> bool {
    forall|i: int, j: int| 0 <= i < j < oracles.len() ==> oracles[i].0 != oracles[j].0
}

/// No oracle status is stored for a feed numbered `from` or above.
pub open spec fn no_statuses_from(s: PalletView, from: FeedId) -> bool {
    forall|f: FeedId, a: AccountId| f >= from ==> !#[trigger] s.oracle_statuses.contains_key(account_key(f, a))
}

/// Enabling genesis oracles leaves the statuses of other accounts and of other
/// feeds alone, and never touches the feed configurations.
proof fn lemma_genesis_oracles_frame(
    s: PalletView,
    feed: FeedId,
    oracles: Seq<(AccountId, AccountId)>,
    f: FeedId,
    a: AccountId,
)
    requires
        s.genesis_oracles(feed, 0, oracles) is Some,
        f != feed || (forall|i: int| 0 <= i < oracles.len() ==> oracles[i].0 != a),
    ensures
        s.genesis_oracles(feed, 0, oracles)->0.oracle_status(f, a) == s.oracle_status(f, a),
    decreases oracles.len(),
{
    if oracles.len() > 0 {
        lemma_genesis_oracles_frame(s, feed, oracles.drop_last(), f, a);
        let last = oracles.last();
        lemma_account_key_injective(feed, last.0, f, a);
    }
}

/// Enabling genesis oracles never touches the feed configurations and settings.
proof fn lemma_genesis_oracles_fields(s: PalletView, feed: FeedId, oracles: Seq<(AccountId, AccountId)>)
    requires
        s.genesis_oracles(feed, 0, oracles) is Some,
    ensures
        s.genesis_oracles(feed, 0, oracles)->0.feeds == s.feeds,
        s.genesis_oracles(feed, 0, oracles)->0.feed_counter == s.feed_counter,
        s.genesis_oracles(feed, 0, oracles)->0.limits == s.limits,
        s.genesis_oracles(feed, 0, oracles)->0.pallet_admin == s.pallet_admin,
        s.genesis_oracles(feed, 0, oracles)->0.feed_creators == s.feed_creators,
    decreases oracles.len(),
{
    if oracles.len() > 0 {
        lemma_genesis_oracles_fields(s, feed, oracles.drop_last());
    }
}

/// Distinct oracles without a status yet can all be enabled at genesis.
proof fn lemma_genesis_oracles_some(s: PalletView, feed: FeedId, oracles: Seq<(AccountId, AccountId)>)
    requires
        distinct_oracles(oracles),
        no_statuses_from(s, feed),
    ensures
        s.genesis_oracles(feed, 0, oracles) is Some,
    decreases oracles.len(),
{
    if oracles.len() > 0 {
        let init = oracles.drop_last();
        lemma_genesis_oracles_some(s, feed, init);
        let last = oracles.last();
        lemma_genesis_oracles_frame(s, feed, init, feed, last.0);
        assert(!s.oracle_statuses.contains_key(account_key(feed, last.0)));
    }
}

/// Enabling a list of genesis oracles succeeds only if enabling each prefix does.
proof fn lemma_genesis_prefix_some(
    s: PalletView,
    feed: FeedId,
    oracles: Seq<(AccountId, AccountId)>,
    i: int,
)
    requires
        0 <= i <= oracles.len(),
        s.genesis_oracles(feed, 0, oracles) is Some,
    ensures
        s.genesis_oracles(feed, 0, oracles.take(i)) is Some,
    decreases oracles.len() - i,
{
    if i < oracles.len() {
        lemma_genesis_prefix_some(s, feed, oracles, i + 1);
        assert(oracles.take(i + 1).drop_last() == oracles.take(i));
    } else {
        assert(oracles.take(i) == oracles);
    }
}

} // verus!
