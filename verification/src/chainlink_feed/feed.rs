//! Operations on a single feed: round validity, round initialization and
//! closing, pruning, and the oracle set.
use crate::chainlink_feed::state::{Pallet, PalletView};
use crate::chainlink_feed::types::{
    AccountId, Balance, BlockNumber, Error, Event, FeedConfig, FeedConfigView, FeedId,
    OracleMeta, OracleStatus, Round, RoundDetails, RoundDetailsView, RoundId,
};
use vstd::prelude::*;

verus! {

pub open spec fn sat_add_u32(a: u32, b: u32) -> u32 {
    if a + b > u32::MAX { u32::MAX } else { (a + b) as u32 }
}

pub open spec fn sat_sub_u32(a: u32, b: u32) -> u32 {
    if a < b { 0 } else { (a - b) as u32 }
}

pub open spec fn sat_add_u64(a: u64, b: u64) -> u64 {
    if a + b > u64::MAX { u64::MAX } else { (a + b) as u64 }
}

pub open spec fn sat_sub_u64(a: u64, b: u64) -> u64 {
    if a < b { 0 } else { (a - b) as u64 }
}

/// A fresh round details record for a feed configuration.
pub open spec fn fresh_details(cfg: FeedConfigView) -> RoundDetailsView {
    RoundDetailsView {
        submissions: Seq::empty(),
        submission_count_bounds: cfg.submission_count_bounds,
        payment: cfg.payment,
        timeout: cfg.timeout,
    }
}

impl PalletView {
    /// Whether a round is timed out at block `now`; `false` for rounds not in storage.
    pub open spec fn is_timed_out(self, feed: FeedId, round: RoundId, now: BlockNumber) -> bool {
        let started_at = match self.round(feed, round) {
            Some(r) => r.started_at,
            None => 0,
        };
        let timeout = match self.details(feed, round) {
            Some(d) => d.timeout,
            None => 0,
        };
        started_at > 0 && timeout > 0 && sat_add_u64(started_at, timeout) < now
    }

    /// Whether a round has been answered; `false` for rounds not in storage.
    pub open spec fn was_updated(self, feed: FeedId, round: RoundId) -> bool {
        match self.round(feed, round) {
            Some(r) => r.updated_at is Some,
            None => false,
        }
    }

    /// Whether the round can be superseded by the next one.
    pub open spec fn is_supersedable(self, feed: FeedId, round: RoundId, now: BlockNumber) -> bool {
        round == 0 || self.was_updated(feed, round) || self.is_timed_out(feed, round, now)
    }

    /// Whether `oracle` may submit for `round` of the feed whose configuration is `cfg`.
    pub open spec fn check_valid_round(
        self,
        feed: FeedId,
        cfg: FeedConfigView,
        oracle: AccountId,
        round: RoundId,
        now: BlockNumber,
    ) -> Result<(), Error> {
        match self.oracle_status(feed, oracle) {
            None => Err(Error::NotOracle),
            Some(o) => {
                let reporting = cfg.reporting_round;
                let current_unanswered = match self.round(feed, reporting) {
                    Some(r) => r.updated_at is None,
                    None => true,
                };
                let is_current = round == reporting;
                let is_next = round == sat_add_u32(reporting, 1);
                let is_previous = sat_add_u32(round, 1) == reporting;
                if !(o.starting_round <= round) {
                    Err(Error::OracleNotEnabled)
                } else if o.ending_round matches Some(e) && e < round {
                    Err(Error::OracleDisabled)
                } else if o.last_reported_round matches Some(l) && l >= round {
                    Err(Error::ReportingOrder)
                } else if !(is_current || is_next || (is_previous && current_unanswered)) {
                    Err(Error::InvalidRound)
                } else if !(round == 1 || self.is_supersedable(feed, sat_sub_u32(round, 1), now)) {
                    Err(Error::NotSupersedable)
                } else {
                    Ok(())
                }
            },
        }
    }

    /// Close a timed out round: it takes the answer of the round before it and
    /// loses its details.
    pub open spec fn close_timed_out_round(
        self,
        feed: FeedId,
        timed_out: RoundId,
        now: BlockNumber,
    ) -> Result<PalletView, Error> {
        let prev_id = sat_sub_u32(timed_out, 1);
        match (self.round(feed, prev_id), self.round(feed, timed_out)) {
            (Some(prev), Some(t)) => Ok(
                self.put_round(
                    feed,
                    timed_out,
                    Round {
                        answer: prev.answer,
                        answered_in_round: prev.answered_in_round,
                        updated_at: Some(now),
                        ..t
                    },
                ).remove_details(feed, timed_out),
            ),
            _ => Err(Error::RoundNotFound),
        }
    }

    /// Start round `new_round`: closes the previous round if it timed out, and
    /// stores fresh details and a new round started at `now`.
    pub open spec fn initialize_round(
        self,
        feed: FeedId,
        cfg: FeedConfigView,
        new_round: RoundId,
        now: BlockNumber,
    ) -> Result<(PalletView, FeedConfigView), Error> {
        let cfg1 = FeedConfigView { reporting_round: new_round, ..cfg };
        let prev = sat_sub_u32(new_round, 1);
        let closed = if self.is_timed_out(feed, prev, now) {
            self.close_timed_out_round(feed, prev, now)
        } else {
            Ok(self)
        };
        match closed {
            Err(e) => Err(e),
            Ok(s1) => Ok(
                (
                    s1.put_details(feed, new_round, fresh_details(cfg)).put_round(
                        feed,
                        new_round,
                        Round::spec_new(now),
                    ),
                    cfg1,
                ),
            ),
        }
    }

    /// Prune the oldest round if it lies outside the pruning window.
    pub open spec fn prune_oldest(self, feed: FeedId, cfg: FeedConfigView) -> (
        PalletView,
        FeedConfigView,
        bool,
    ) {
        let next = cfg.next_round_to_prune;
        if sat_sub_u32(cfg.latest_round, next) >= cfg.pruning_window {
            let next1 = (next + 1) as u32;
            (
                self.remove_round(feed, next).remove_details(feed, next),
                FeedConfigView {
                    next_round_to_prune: next1,
                    first_valid_round: Some(next1),
                    ..cfg
                },
                true,
            )
        } else {
            (self, cfg, false)
        }
    }

    /// Enable one oracle (with its admin) for a feed whose reporting round is `reporting`.
    pub open spec fn add_oracle(
        self,
        feed: FeedId,
        reporting: RoundId,
        oracle: AccountId,
        admin: AccountId,
    ) -> Result<PalletView, Error> {
        let tracked_ok = match self.oracle(oracle) {
            Some(meta) => meta.admin == admin,
            None => true,
        };
        let s1 = match self.oracle(oracle) {
            Some(meta) => self,
            None => self.put_oracle(
                oracle,
                OracleMeta { withdrawable: 0, admin, pending_admin: None },
            ),
        };
        if !tracked_ok {
            Err(Error::OwnerCannotChangeAdmin)
        } else {
            match s1.oracle_status(feed, oracle) {
                Some(st) => if st.ending_round is None {
                    Err(Error::AlreadyEnabled)
                } else {
                    Ok(
                        s1.put_status(
                            feed,
                            oracle,
                            OracleStatus { starting_round: reporting, ending_round: None, ..st },
                        ).deposit(Event::OraclePermissionsUpdated(feed, oracle, true)),
                    )
                },
                None => Ok(
                    s1.put_status(feed, oracle, OracleStatus::spec_new(reporting)).deposit(
                        Event::OraclePermissionsUpdated(feed, oracle, true),
                    ),
                ),
            }
        }
    }

    /// Enable the oracles of `to_add` in order.
    pub open spec fn add_oracle_entries(
        self,
        feed: FeedId,
        reporting: RoundId,
        to_add: Seq<(AccountId, AccountId)>,
    ) -> Result<PalletView, Error>
        decreases to_add.len(),
    {
        if to_add.len() == 0 {
            Ok(self)
        } else {
            match self.add_oracle_entries(feed, reporting, to_add.drop_last()) {
                Err(e) => Err(e),
                Ok(s1) => s1.add_oracle(feed, reporting, to_add.last().0, to_add.last().1),
            }
        }
    }

    /// Add the given oracles to the feed.
    pub open spec fn add_oracles(
        self,
        feed: FeedId,
        cfg: FeedConfigView,
        to_add: Seq<(AccountId, AccountId)>,
    ) -> Result<(PalletView, FeedConfigView), Error> {
        let new_count = sat_add_u32(cfg.oracle_count, to_add.len() as u32);
        if new_count > self.limits.oracle_count_limit {
            Err(Error::OraclesLimitExceeded)
        } else {
            match self.add_oracle_entries(feed, cfg.reporting_round, to_add) {
                Err(e) => Err(e),
                Ok(s1) => Ok((s1, FeedConfigView { oracle_count: new_count, ..cfg })),
            }
        }
    }

    /// Disable one oracle of a feed whose reporting round is `reporting`.
    pub open spec fn disable_oracle(
        self,
        feed: FeedId,
        reporting: RoundId,
        oracle: AccountId,
    ) -> Result<PalletView, Error> {
        match self.oracle_status(feed, oracle) {
            None => Err(Error::OracleNotFound),
            Some(st) => if st.ending_round is Some {
                Err(Error::OracleDisabled)
            } else {
                Ok(
                    self.put_status(
                        feed,
                        oracle,
                        OracleStatus { ending_round: Some(reporting), ..st },
                    ).deposit(Event::OraclePermissionsUpdated(feed, oracle, false)),
                )
            },
        }
    }

    /// Disable the oracles of `to_disable` in order.
    pub open spec fn disable_oracle_entries(
        self,
        feed: FeedId,
        reporting: RoundId,
        to_disable: Seq<AccountId>,
    ) -> Result<PalletView, Error>
        decreases to_disable.len(),
    {
        if to_disable.len() == 0 {
            Ok(self)
        } else {
            match self.disable_oracle_entries(feed, reporting, to_disable.drop_last()) {
                Err(e) => Err(e),
                Ok(s1) => s1.disable_oracle(feed, reporting, to_disable.last()),
            }
        }
    }

    /// Disable the given oracles.
    pub open spec fn disable_oracles(
        self,
        feed: FeedId,
        cfg: FeedConfigView,
        to_disable: Seq<AccountId>,
    ) -> Result<(PalletView, FeedConfigView), Error> {
        let n = to_disable.len() as u32;
        if cfg.oracle_count < n {
            Err(Error::NotEnoughOracles)
        } else {
            match self.disable_oracle_entries(feed, cfg.reporting_round, to_disable) {
                Err(e) => Err(e),
                Ok(s1) => Ok(
                    (s1, FeedConfigView { oracle_count: (cfg.oracle_count - n) as u32, ..cfg }),
                ),
            }
        }
    }

    /// Update the configuration for future oracle rounds.
    pub open spec fn update_future_rounds(
        self,
        feed: FeedId,
        cfg: FeedConfigView,
        payment: Balance,
        submission_count_bounds: (u32, u32),
        restart_delay: RoundId,
        timeout: BlockNumber,
    ) -> Result<(PalletView, FeedConfigView), Error> {
        let (min, max) = submission_count_bounds;
        if max < min {
            Err(Error::WrongBounds)
        } else if cfg.oracle_count < max {
            Err(Error::MaxExceededTotal)
        } else if cfg.oracle_count <= restart_delay {
            Err(Error::DelayNotBelowCount)
        } else if cfg.oracle_count > 0 && min == 0 {
            Err(Error::WrongBounds)
        } else {
            Ok(
                (
                    self.deposit(
                        Event::RoundDetailsUpdated(
                            feed,
                            payment,
                            submission_count_bounds,
                            restart_delay,
                            timeout,
                        ),
                    ),
                    FeedConfigView {
                        payment,
                        submission_count_bounds,
                        restart_delay,
                        timeout,
                        ..cfg
                    },
                ),
            )
        }
    }

    /// Start a new round on request of `requester`, if the reporting round can be superseded.
    pub open spec fn feed_request_new_round(
        self,
        feed: FeedId,
        cfg: FeedConfigView,
        requester: AccountId,
        now: BlockNumber,
    ) -> Result<(PalletView, FeedConfigView), Error> {
        if cfg.reporting_round == u32::MAX {
            Err(Error::Overflow)
        } else if !self.is_supersedable(feed, cfg.reporting_round, now) {
            Err(Error::RoundNotSupersedable)
        } else {
            let new_round = (cfg.reporting_round + 1) as u32;
            match self.initialize_round(feed, cfg, new_round, now) {
                Err(e) => Err(e),
                Ok((s1, cfg1)) => Ok(
                    (s1.deposit(Event::NewRound(feed, new_round, requester, now)), cfg1),
                ),
            }
        }
    }
}

impl Pallet {
    /// Whether a round is timed out at block `now`.
    pub fn is_timed_out(&self, feed: FeedId, round: RoundId, now: BlockNumber) -> (r: bool)
        ensures
            r == self@.is_timed_out(feed, round, now),
    {
        let started_at = match self.get_round(feed, round) {
            Some(r) => r.started_at,
            None => 0,
        };
        let timeout = match self.get_details_timeout(feed, round) {
            Some(t) => t,
            None => 0,
        };
        started_at > 0 && timeout > 0 && started_at.saturating_add(timeout) < now
    }

    /// Whether a round has been answered.
    pub fn was_updated(&self, feed: FeedId, round: RoundId) -> (r: bool)
        ensures
            r == self@.was_updated(feed, round),
    {
        match self.get_round(feed, round) {
            Some(r) => r.updated_at.is_some(),
            None => false,
        }
    }

    /// Whether a round can be superseded by the next one.
    pub fn is_supersedable(&self, feed: FeedId, round: RoundId, now: BlockNumber) -> (r: bool)
        ensures
            r == self@.is_supersedable(feed, round, now),
    {
        round == 0 || self.was_updated(feed, round) || self.is_timed_out(feed, round, now)
    }

    /// Make sure that the given oracle can submit data for the given round.
    pub fn ensure_valid_round(
        &self,
        feed: FeedId,
        cfg: &FeedConfig,
        oracle: AccountId,
        round: RoundId,
        now: BlockNumber,
    ) -> (r: Result<(), Error>)
        ensures
            r == self@.check_valid_round(feed, cfg@, oracle, round, now),
    {
        let o = match self.get_oracle_status(feed, oracle) {
            Some(o) => o,
            None => return Err(Error::NotOracle),
        };
        if !(o.starting_round <= round) {
            return Err(Error::OracleNotEnabled);
        }
        match o.ending_round {
            Some(e) => if e < round {
                return Err(Error::OracleDisabled);
            },
            None => {},
        }
        match o.last_reported_round {
            Some(l) => if l >= round {
                return Err(Error::ReportingOrder);
            },
            None => {},
        }
        let reporting = cfg.reporting_round;
        let is_current = round == reporting;
        let is_next = round == reporting.saturating_add(1);
        let current_unanswered = match self.get_round(feed, reporting) {
            Some(r) => r.updated_at.is_none(),
            None => true,
        };
        let is_previous = round.saturating_add(1) == reporting;
        if !(is_current || is_next || (is_previous && current_unanswered)) {
            return Err(Error::InvalidRound);
        }
        if !(round == 1 || self.is_supersedable(feed, round.saturating_sub(1), now)) {
            return Err(Error::NotSupersedable);
        }
        Ok(())
    }

    /// Close a timed out round and remove its details.
    pub(crate) fn close_timed_out_round(
        &mut self,
        feed: FeedId,
        timed_out: RoundId,
        now: BlockNumber,
    ) -> (r: Result<(), Error>)
        ensures
            match old(self)@.close_timed_out_round(feed, timed_out, now) {
                Ok(s) => r is Ok && final(self)@ == s,
                Err(e) => r == Err::<(), Error>(e) && final(self)@ == old(self)@,
            },
    {
        let prev_id = timed_out.saturating_sub(1);
        let prev = match self.get_round(feed, prev_id) {
            Some(p) => p,
            None => return Err(Error::RoundNotFound),
        };
        let t = match self.get_round(feed, timed_out) {
            Some(t) => t,
            None => return Err(Error::RoundNotFound),
        };
        let closed = Round {
            answer: prev.answer,
            answered_in_round: prev.answered_in_round,
            updated_at: Some(now),
            started_at: t.started_at,
        };
        self.insert_round(feed, timed_out, closed);
        self.delete_details(feed, timed_out);
        Ok(())
    }

    /// Initialize a new round, closing the previous one if it is timed out.
    pub(crate) fn initialize_round(
        &mut self,
        feed: FeedId,
        cfg: &mut FeedConfig,
        new_round: RoundId,
        now: BlockNumber,
    ) -> (r: Result<BlockNumber, Error>)
        ensures
            match old(self)@.initialize_round(feed, old(cfg)@, new_round, now) {
                Ok((s, c)) => r == Ok::<BlockNumber, Error>(now) && final(self)@ == s
                    && final(cfg)@ == c,
                Err(e) => r == Err::<BlockNumber, Error>(e),
            },
            final(cfg).pruning_window == old(cfg).pruning_window,
    {
        let ghost cfg0 = cfg@;
        cfg.reporting_round = new_round;
        let prev = new_round.saturating_sub(1);
        if self.is_timed_out(feed, prev, now) {
            let closed = self.close_timed_out_round(feed, prev, now);
            if closed.is_err() {
                return Err(Error::RoundNotFound);
            }
        }
        let details = RoundDetails {
            submissions: Vec::new(),
            submission_count_bounds: cfg.submission_count_bounds,
            payment: cfg.payment,
            timeout: cfg.timeout,
        };
        proof {
            assert(details@ == fresh_details(cfg0));
        }
        self.insert_details(feed, new_round, details);
        self.insert_round(feed, new_round, Round::new(now));
        proof {
            assert(cfg@ == FeedConfigView { reporting_round: new_round, ..cfg0 });
        }
        Ok(now)
    }

    /// Prune the oldest round of a feed if it lies outside the pruning window.
    /// Returns whether a round was pruned.
    pub(crate) fn prune_oldest(&mut self, feed: FeedId, cfg: &mut FeedConfig) -> (r: bool)
        requires
            old(cfg).pruning_window > 0,
        ensures
            (final(self)@, final(cfg)@, r) == old(self)@.prune_oldest(feed, old(cfg)@),
            final(cfg).pruning_window == old(cfg).pruning_window,
    {
        let next = cfg.next_round_to_prune;
        if cfg.latest_round.saturating_sub(next) >= cfg.pruning_window {
            self.delete_round(feed, next);
            self.delete_details(feed, next);
            cfg.next_round_to_prune = next + 1;
            cfg.first_valid_round = Some(next + 1);
            true
        } else {
            false
        }
    }

    /// Enable one oracle for a feed.
    fn add_oracle(&mut self, feed: FeedId, reporting: RoundId, oracle: AccountId, admin: AccountId) -> (r:
        Result<(), Error>)
        ensures
            match old(self)@.add_oracle(feed, reporting, oracle, admin) {
                Ok(s) => r is Ok && final(self)@ == s,
                Err(e) => r == Err::<(), Error>(e),
            },
            final(self)@.feeds == old(self)@.feeds,
    {
        match self.get_oracle(oracle) {
            Some(meta) => {
                if meta.admin != admin {
                    return Err(Error::OwnerCannotChangeAdmin);
                }
            },
            None => {
                self.insert_oracle(oracle, OracleMeta { withdrawable: 0, admin, pending_admin: None });
            },
        }
        match self.get_oracle_status(feed, oracle) {
            Some(st) => {
                if st.ending_round.is_none() {
                    return Err(Error::AlreadyEnabled);
                }
                self.insert_status(
                    feed,
                    oracle,
                    OracleStatus {
                        starting_round: reporting,
                        ending_round: None,
                        last_reported_round: st.last_reported_round,
                        last_started_round: st.last_started_round,
                        latest_submission: st.latest_submission,
                    },
                );
            },
            None => {
                self.insert_status(
                    feed,
                    oracle,
                    OracleStatus {
                        starting_round: reporting,
                        ending_round: None,
                        last_reported_round: None,
                        last_started_round: None,
                        latest_submission: None,
                    },
                );
            },
        }
        self.deposit_event(Event::OraclePermissionsUpdated(feed, oracle, true));
        Ok(())
    }

    /// Enable the given oracles in order.
    fn add_oracle_entries(
        &mut self,
        feed: FeedId,
        reporting: RoundId,
        to_add: &Vec<(AccountId, AccountId)>,
    ) -> (r: Result<(), Error>)
        ensures
            match old(self)@.add_oracle_entries(feed, reporting, to_add@) {
                Ok(s) => r is Ok && final(self)@ == s,
                Err(e) => r == Err::<(), Error>(e),
            },
            final(self)@.feeds == old(self)@.feeds,
    {
        let ghost s0 = self@;
        let mut i: usize = 0;
        proof {
            assert(to_add@.take(0) =~= Seq::<(AccountId, AccountId)>::empty());
        }
        while i < to_add.len()
            invariant
                i <= to_add.len(),
                s0 == old(self)@,
                self@.feeds == s0.feeds,
                s0.add_oracle_entries(feed, reporting, to_add@.take(i as int)) == Ok::<
                    PalletView,
                    Error,
                >(self@),
            decreases to_add.len() - i,
        {
            let (oracle, admin) = to_add[i];
            let ghost before = self@;
            let r = self.add_oracle(feed, reporting, oracle, admin);
            proof {
                assert(to_add@.take(i + 1).drop_last() == to_add@.take(i as int));
            }
            if r.is_err() {
                proof {
                    let t = to_add@.take(i + 1);
                    assert(t.last() == to_add@[i as int]);
                    assert(s0.add_oracle_entries(feed, reporting, t) == before.add_oracle(
                        feed,
                        reporting,
                        oracle,
                        admin,
                    ));
                    lemma_add_entries_err_propagates(s0, feed, reporting, to_add@, (i + 1) as int);
                }
                return r;
            }
            i = i + 1;
        }
        proof {
            assert(to_add@.take(to_add.len() as int) == to_add@);
        }
        Ok(())
    }

    /// Add the given oracles to the feed.
    pub(crate) fn add_oracles(
        &mut self,
        feed: FeedId,
        cfg: &mut FeedConfig,
        to_add: &Vec<(AccountId, AccountId)>,
    ) -> (r: Result<(), Error>)
        ensures
            match old(self)@.add_oracles(feed, old(cfg)@, to_add@) {
                Ok((s, c)) => r is Ok && final(self)@ == s && final(cfg)@ == c,
                Err(e) => r == Err::<(), Error>(e),
            },
            final(self)@.feeds == old(self)@.feeds,
            final(cfg).pruning_window == old(cfg).pruning_window,
    {
        #[verifier::truncate]
        let n = to_add.len() as u32;
        let new_count = cfg.oracle_count.saturating_add(n);
        if new_count > self.limits().oracle_count_limit {
            return Err(Error::OraclesLimitExceeded);
        }
        cfg.oracle_count = new_count;
        let reporting = cfg.reporting_round;
        self.add_oracle_entries(feed, reporting, to_add)
    }

    /// Disable one oracle of a feed.
    fn disable_oracle(&mut self, feed: FeedId, reporting: RoundId, oracle: AccountId) -> (r: Result<
        (),
        Error,
    >)
        ensures
            match old(self)@.disable_oracle(feed, reporting, oracle) {
                Ok(s) => r is Ok && final(self)@ == s,
                Err(e) => r == Err::<(), Error>(e),
            },
            final(self)@.feeds == old(self)@.feeds,
    {
        let st = match self.get_oracle_status(feed, oracle) {
            Some(st) => st,
            None => return Err(Error::OracleNotFound),
        };
        if st.ending_round.is_some() {
            return Err(Error::OracleDisabled);
        }
        self.insert_status(
            feed,
            oracle,
            OracleStatus {
                starting_round: st.starting_round,
                ending_round: Some(reporting),
                last_reported_round: st.last_reported_round,
                last_started_round: st.last_started_round,
                latest_submission: st.latest_submission,
            },
        );
        self.deposit_event(Event::OraclePermissionsUpdated(feed, oracle, false));
        Ok(())
    }

    /// Disable the given oracles in order.
    fn disable_oracle_entries(
        &mut self,
        feed: FeedId,
        reporting: RoundId,
        to_disable: &Vec<AccountId>,
    ) -> (r: Result<(), Error>)
        ensures
            match old(self)@.disable_oracle_entries(feed, reporting, to_disable@) {
                Ok(s) => r is Ok && final(self)@ == s,
                Err(e) => r == Err::<(), Error>(e),
            },
            final(self)@.feeds == old(self)@.feeds,
    {
        let ghost s0 = self@;
        let mut i: usize = 0;
        proof {
            assert(to_disable@.take(0) =~= Seq::<AccountId>::empty());
        }
        while i < to_disable.len()
            invariant
                i <= to_disable.len(),
                s0 == old(self)@,
                self@.feeds == s0.feeds,
                s0.disable_oracle_entries(feed, reporting, to_disable@.take(i as int)) == Ok::<
                    PalletView,
                    Error,
                >(self@),
            decreases to_disable.len() - i,
        {
            let oracle = to_disable[i];
            let ghost before = self@;
            let r = self.disable_oracle(feed, reporting, oracle);
            proof {
                assert(to_disable@.take(i + 1).drop_last() == to_disable@.take(i as int));
            }
            if r.is_err() {
                proof {
                    let t = to_disable@.take(i + 1);
                    assert(t.last() == to_disable@[i as int]);
                    assert(s0.disable_oracle_entries(feed, reporting, t) == before.disable_oracle(
                        feed,
                        reporting,
                        oracle,
                    ));
                    lemma_disable_entries_err_propagates(
                        s0,
                        feed,
                        reporting,
                        to_disable@,
                        (i + 1) as int,
                    );
                }
                return r;
            }
            i = i + 1;
        }
        proof {
            assert(to_disable@.take(to_disable.len() as int) == to_disable@);
        }
        Ok(())
    }

    /// Disable the given oracles.
    pub(crate) fn disable_oracles(
        &mut self,
        feed: FeedId,
        cfg: &mut FeedConfig,
        to_disable: &Vec<AccountId>,
    ) -> (r: Result<(), Error>)
        ensures
            match old(self)@.disable_oracles(feed, old(cfg)@, to_disable@) {
                Ok((s, c)) => r is Ok && final(self)@ == s && final(cfg)@ == c,
                Err(e) => r == Err::<(), Error>(e),
            },
            final(self)@.feeds == old(self)@.feeds,
            final(cfg).pruning_window == old(cfg).pruning_window,
    {
        #[verifier::truncate]
        let n = to_disable.len() as u32;
        if cfg.oracle_count < n {
            return Err(Error::NotEnoughOracles);
        }
        cfg.oracle_count = cfg.oracle_count - n;
        let reporting = cfg.reporting_round;
        self.disable_oracle_entries(feed, reporting, to_disable)
    }

    /// Update the configuration for future oracle rounds.
    pub(crate) fn update_future_rounds_of(
        &mut self,
        feed: FeedId,
        cfg: &mut FeedConfig,
        payment: Balance,
        submission_count_bounds: (u32, u32),
        restart_delay: RoundId,
        timeout: BlockNumber,
    ) -> (r: Result<(), Error>)
        ensures
            match old(self)@.update_future_rounds(
                feed,
                old(cfg)@,
                payment,
                submission_count_bounds,
                restart_delay,
                timeout,
            ) {
                Ok((s, c)) => r is Ok && final(self)@ == s && final(cfg)@ == c,
                Err(e) => r == Err::<(), Error>(e),
            },
            r is Err ==> final(self)@ == old(self)@,
            final(cfg).pruning_window == old(cfg).pruning_window,
    {
        let (min, max) = submission_count_bounds;
        if max < min {
            return Err(Error::WrongBounds);
        }
        if cfg.oracle_count < max {
            return Err(Error::MaxExceededTotal);
        }
        if cfg.oracle_count <= restart_delay {
            return Err(Error::DelayNotBelowCount);
        }
        if cfg.oracle_count > 0 && min == 0 {
            return Err(Error::WrongBounds);
        }
        cfg.payment = payment;
        cfg.submission_count_bounds = submission_count_bounds;
        cfg.restart_delay = restart_delay;
        cfg.timeout = timeout;
        self.deposit_event(
            Event::RoundDetailsUpdated(
                feed,
                payment,
                submission_count_bounds,
                restart_delay,
                timeout,
            ),
        );
        Ok(())
    }

    /// Request that a new round be started for the feed.
    pub(crate) fn feed_request_new_round(
        &mut self,
        feed: FeedId,
        cfg: &mut FeedConfig,
        requester: AccountId,
        now: BlockNumber,
    ) -> (r: Result<(), Error>)
        ensures
            match old(self)@.feed_request_new_round(feed, old(cfg)@, requester, now) {
                Ok((s, c)) => r is Ok && final(self)@ == s && final(cfg)@ == c,
                Err(e) => r == Err::<(), Error>(e),
            },
            final(cfg).pruning_window == old(cfg).pruning_window,
    {
        if cfg.reporting_round == u32::MAX {
            return Err(Error::Overflow);
        }
        let new_round = cfg.reporting_round + 1;
        if !self.is_supersedable(feed, cfg.reporting_round, now) {
            return Err(Error::RoundNotSupersedable);
        }
        let started_at = self.initialize_round(feed, cfg, new_round, now)?;
        self.deposit_event(Event::NewRound(feed, new_round, requester, started_at));
        Ok(())
    }
}

/// Once enabling a prefix of the oracles fails, enabling the whole list fails the same way.
proof fn lemma_add_entries_err_propagates(
    s: PalletView,
    feed: FeedId,
    reporting: RoundId,
    to_add: Seq<(AccountId, AccountId)>,
    i: int,
)
    requires
        0 <= i <= to_add.len(),
        s.add_oracle_entries(feed, reporting, to_add.take(i)) is Err,
    ensures
        s.add_oracle_entries(feed, reporting, to_add) == s.add_oracle_entries(
            feed,
            reporting,
            to_add.take(i),
        ),
    decreases to_add.len() - i,
{
    if i < to_add.len() {
        assert(to_add.take(i + 1).drop_last() == to_add.take(i));
        lemma_add_entries_err_propagates(s, feed, reporting, to_add, i + 1);
    } else {
        assert(to_add.take(i) == to_add);
    }
}

/// Once disabling a prefix of the oracles fails, disabling the whole list fails the same way.
proof fn lemma_disable_entries_err_propagates(
    s: PalletView,
    feed: FeedId,
    reporting: RoundId,
    to_disable: Seq<AccountId>,
    i: int,
)
    requires
        0 <= i <= to_disable.len(),
        s.disable_oracle_entries(feed, reporting, to_disable.take(i)) is Err,
    ensures
        s.disable_oracle_entries(feed, reporting, to_disable) == s.disable_oracle_entries(
            feed,
            reporting,
            to_disable.take(i),
        ),
    decreases to_disable.len() - i,
{
    if i < to_disable.len() {
        assert(to_disable.take(i + 1).drop_last() == to_disable.take(i));
        lemma_disable_entries_err_propagates(s, feed, reporting, to_disable, i + 1);
    } else {
        assert(to_disable.take(i) == to_disable);
    }
}

} // verus!
