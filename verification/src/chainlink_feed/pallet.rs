//! The calls of the feed pallet.
//!
//! Calls that the pallet runs in a storage transaction leave the storage
//! untouched when they fail; so do the other calls, which fail before they
//! write anything.
use crate::chainlink_feed::feed::{sat_sub_u32, sat_sub_u64};
use crate::chainlink_feed::state::{Pallet, PalletView};
use crate::chainlink_feed::types::{
    ensure_signed, spec_ensure_signed, AccountId, Balance, BlockNumber, Error, Event, FeedConfig,
    FeedConfigView, FeedId, OracleMeta, OracleStatus, Origin, Round, RoundData, RoundDetails,
    RoundDetailsView, RoundId, Value,
};
use crate::chainlink_feed::utils::{median, spec_median};
use crate::ordering::sorted_values;
use vstd::prelude::*;

verus! {

/// Callback run when the answer of a round is updated.
pub trait OnAnswerHandler {
    fn on_answer(feed: FeedId, new_data: RoundData);
}

/// The handler that does nothing.
pub struct NoAnswerHandler;

impl OnAnswerHandler for NoAnswerHandler {
    fn on_answer(feed: FeedId, new_data: RoundData) {
    }
}

impl PalletView {
    /// Record the answer of `round` from its (non-empty) submissions `subs`:
    /// returns the storage, the feed configuration and the sorted submissions.
    pub open spec fn answer_round(
        self,
        feed: FeedId,
        cfg: FeedConfigView,
        round: RoundId,
        subs: Seq<Value>,
        now: BlockNumber,
    ) -> Result<(PalletView, FeedConfigView, Seq<Value>), Error> {
        match self.round(feed, round) {
            None => Err(Error::RoundNotFound),
            Some(r) => {
                let answer = spec_median(subs);
                let data = RoundData {
                    started_at: r.started_at,
                    answer,
                    updated_at: now,
                    answered_in_round: round,
                };
                let s1 = self.put_round(feed, round, data.spec_into_round());
                let cfg1 = FeedConfigView {
                    latest_round: round,
                    first_valid_round: if cfg.first_valid_round is None {
                        Some(round)
                    } else {
                        cfg.first_valid_round
                    },
                    ..cfg
                };
                let prev = sat_sub_u32(round, 1);
                let s2 = if prev > 0 {
                    s1.remove_details(feed, prev)
                } else {
                    s1
                };
                let (s3, cfg3, _) = s2.prune_oldest(feed, cfg1);
                Ok(
                    (
                        s3.deposit(Event::AnswerUpdated(feed, round, answer, now)),
                        cfg3,
                        sorted_values(subs),
                    ),
                )
            },
        }
    }

    /// Pay the oracle for its submission (or track the debt when the payment
    /// could not be reserved), keep the round details while the round still
    /// accepts submissions, and store the feed configuration.
    pub open spec fn settle_submission(
        self,
        feed: FeedId,
        cfg: FeedConfigView,
        oracle: AccountId,
        round: RoundId,
        d: RoundDetailsView,
        reserve_ok: bool,
    ) -> Result<PalletView, Error> {
        let payment = d.payment;
        let new_debt = cfg.debt + payment;
        if !reserve_ok && new_debt > u64::MAX {
            Err(Error::Overflow)
        } else if !reserve_ok && match cfg.max_debt {
            Some(m) => new_debt >= m,
            None => true,
        } {
            Err(Error::MaxDebtReached)
        } else {
            let cfg1 = if reserve_ok {
                cfg
            } else {
                FeedConfigView { debt: new_debt as u64, ..cfg }
            };
            match self.oracle(oracle) {
                None => Err(Error::OracleNotFound),
                Some(meta) => if meta.withdrawable + payment > u64::MAX {
                    Err(Error::Overflow)
                } else {
                    let s1 = self.put_oracle(
                        oracle,
                        OracleMeta { withdrawable: (meta.withdrawable + payment) as u64, ..meta },
                    );
                    let s2 = if d.submissions.len() < d.submission_count_bounds.1 {
                        s1.put_details(feed, round, d)
                    } else {
                        s1
                    };
                    Ok(s2.put_feed(feed, cfg1))
                },
            }
        }
    }

    /// Record the submission of `oracle` (whose status was `st`) for `round`.
    pub open spec fn record_submission(
        self,
        feed: FeedId,
        cfg: FeedConfigView,
        oracle: AccountId,
        st: OracleStatus,
        round: RoundId,
        submission: Value,
        now: BlockNumber,
        reserve_ok: bool,
    ) -> Result<PalletView, Error> {
        match self.details(feed, round) {
            None => Err(Error::NotAcceptingSubmissions),
            Some(d) => {
                let subs = d.submissions.push(submission);
                let st1 = OracleStatus {
                    last_reported_round: Some(round),
                    latest_submission: Some(submission),
                    ..st
                };
                let s2 = self.remove_details(feed, round).put_status(feed, oracle, st1).deposit(
                    Event::SubmissionReceived(feed, round, submission, oracle),
                );
                let answered = if subs.len() >= d.submission_count_bounds.0 {
                    s2.answer_round(feed, cfg, round, subs, now)
                } else {
                    Ok((s2, cfg, subs))
                };
                match answered {
                    Err(e) => Err(e),
                    Ok((s3, cfg3, subs3)) => s3.settle_submission(
                        feed,
                        cfg3,
                        oracle,
                        round,
                        RoundDetailsView { submissions: subs3, ..d },
                        reserve_ok,
                    ),
                }
            },
        }
    }

    /// The state in which a submission is recorded: the storage (with the new
    /// round started, if the submission starts one), the feed configuration,
    /// the oracle and its status; or the error that refuses the submission
    /// before it is recorded.
    pub open spec fn prepare_submission(
        self,
        origin: Origin,
        feed: FeedId,
        round: RoundId,
        submission: Value,
        now: BlockNumber,
    ) -> Result<(PalletView, FeedConfigView, AccountId, OracleStatus), Error> {
        match spec_ensure_signed(origin) {
            Err(e) => Err(e),
            Ok(oracle) => match self.feed_config(feed) {
                None => Err(Error::FeedNotFound),
                Some(cfg) => match self.oracle_status(feed, oracle) {
                    None => Err(Error::NotOracle),
                    Some(st) => match self.check_valid_round(feed, cfg, oracle, round, now) {
                        Err(e) => Err(e),
                        Ok(_) => {
                            let base: int = match st.last_started_round {
                                Some(l) => l as int,
                                None => 0,
                            };
                            let new_round = if cfg.reporting_round == u32::MAX {
                                u32::MAX
                            } else {
                                (cfg.reporting_round + 1) as u32
                            };
                            if submission < cfg.submission_value_bounds.0 {
                                Err(Error::SubmissionBelowMinimum)
                            } else if submission > cfg.submission_value_bounds.1 {
                                Err(Error::SubmissionAboveMaximum)
                            } else if base + cfg.restart_delay + 1 > u32::MAX {
                                Err(Error::Overflow)
                            } else {
                                let next_eligible = base + cfg.restart_delay + 1;
                                let eligible = round >= next_eligible
                                    || st.last_started_round is None;
                                if round == new_round && eligible {
                                    match self.initialize_round(feed, cfg, new_round, now) {
                                        Err(e) => Err(e),
                                        Ok((s1, cfg1)) => Ok(
                                            (
                                                s1.deposit(Event::NewRound(feed, new_round, oracle, now)),
                                                cfg1,
                                                oracle,
                                                OracleStatus { last_started_round: Some(new_round), ..st },
                                            ),
                                        ),
                                    }
                                } else {
                                    Ok((self, cfg, oracle, st))
                                }
                            }
                        },
                    },
                },
            },
        }
    }

    /// Submit a value to a feed round. `reserve_ok` tells whether reserving the
    /// round payment from the pallet fund succeeded.
    pub open spec fn submit(
        self,
        origin: Origin,
        feed: FeedId,
        round: RoundId,
        submission: Value,
        now: BlockNumber,
        reserve_ok: bool,
    ) -> Result<PalletView, Error> {
        match self.prepare_submission(origin, feed, round, submission, now) {
            Err(e) => Err(e),
            Ok((s, cfg, oracle, st)) => s.record_submission(
                feed,
                cfg,
                oracle,
                st,
                round,
                submission,
                now,
                reserve_ok,
            ),
        }
    }

    /// The data of the round that a submission answers, handed to the answer
    /// handler; `None` when the submission does not answer its round.
    pub open spec fn submission_answer(
        self,
        origin: Origin,
        feed: FeedId,
        round: RoundId,
        submission: Value,
        now: BlockNumber,
    ) -> Option<RoundData> {
        match self.prepare_submission(origin, feed, round, submission, now) {
            Err(_) => None,
            Ok((s, _, _, _)) => s.recorded_answer(feed, round, submission, now),
        }
    }

    /// The data of `round` that recording `submission` answers it with, if the
    /// round then has enough submissions.
    pub open spec fn recorded_answer(self, feed: FeedId, round: RoundId, submission: Value, now: BlockNumber) -> Option<
        RoundData,
    > {
        match self.details(feed, round) {
            None => None,
            Some(d) => {
                let subs = d.submissions.push(submission);
                if subs.len() >= d.submission_count_bounds.0 {
                    self.answer_data(feed, round, subs, now)
                } else {
                    None
                }
            },
        }
    }

    /// The data that answering `round` with the submissions `subs` records:
    /// their median, given at `now`.
    pub open spec fn answer_data(self, feed: FeedId, round: RoundId, subs: Seq<Value>, now: BlockNumber) -> Option<
        RoundData,
    > {
        match self.round(feed, round) {
            None => None,
            Some(r) => Some(
                RoundData {
                    started_at: r.started_at,
                    answer: spec_median(subs),
                    updated_at: now,
                    answered_in_round: round,
                },
            ),
        }
    }

    /// Create a new oracle feed.
    pub open spec fn create_feed(
        self,
        origin: Origin,
        payment: Balance,
        timeout: BlockNumber,
        submission_value_bounds: (Value, Value),
        min_submissions: u32,
        decimals: u8,
        description: Seq<u8>,
        restart_delay: RoundId,
        oracles: Seq<(AccountId, AccountId)>,
        pruning_window: Option<RoundId>,
        max_debt: Option<Balance>,
        now: BlockNumber,
    ) -> Result<PalletView, Error> {
        match spec_ensure_signed(origin) {
            Err(e) => Err(e),
            Ok(owner) => {
                let window = match pruning_window {
                    Some(w) => w,
                    None => u32::MAX,
                };
                let id = self.feed_counter;
                let submission_count_bounds = (min_submissions, oracles.len() as u32);
                if !self.feed_creators.contains(owner) {
                    Err(Error::NotFeedCreator)
                } else if description.len() as u32 > self.limits.string_limit {
                    Err(Error::DescriptionTooLong)
                } else if window == 0 {
                    Err(Error::CannotPruneRoundZero)
                } else if id >= self.limits.feed_limit {
                    Err(Error::FeedLimitReached)
                } else if id == u32::MAX {
                    Err(Error::Overflow)
                } else {
                    let cfg = FeedConfigView {
                        owner,
                        pending_owner: None,
                        submission_value_bounds,
                        submission_count_bounds,
                        payment,
                        timeout,
                        decimals,
                        description,
                        restart_delay,
                        reporting_round: 0,
                        latest_round: 0,
                        first_valid_round: None,
                        oracle_count: 0,
                        pruning_window: window,
                        next_round_to_prune: 1,
                        debt: 0,
                        max_debt,
                    };
                    let s1 = PalletView { feed_counter: (id + 1) as u32, ..self }.put_round(
                        id,
                        0,
                        Round {
                            started_at: now,
                            answer: Some(0),
                            updated_at: Some(now),
                            answered_in_round: Some(0),
                        },
                    );
                    match s1.add_oracles(id, cfg, oracles) {
                        Err(e) => Err(e),
                        Ok((s2, cfg2)) => match s2.update_future_rounds(
                            id,
                            cfg2,
                            payment,
                            submission_count_bounds,
                            restart_delay,
                            timeout,
                        ) {
                            Err(e) => Err(e),
                            Ok((s3, cfg3)) => Ok(
                                s3.deposit(Event::FeedCreated(id, owner)).put_feed(id, cfg3),
                            ),
                        },
                    }
                }
            },
        }
    }

    /// Initiate the transfer of a feed to `new_owner`.
    pub open spec fn transfer_ownership(self, origin: Origin, feed: FeedId, new_owner: AccountId) -> Result<
        PalletView,
        Error,
    > {
        match spec_ensure_signed(origin) {
            Err(e) => Err(e),
            Ok(old_owner) => match self.feed_config(feed) {
                None => Err(Error::FeedNotFound),
                Some(cfg) => if cfg.owner != old_owner {
                    Err(Error::NotFeedOwner)
                } else {
                    Ok(
                        self.put_feed(
                            feed,
                            FeedConfigView { pending_owner: Some(new_owner), ..cfg },
                        ).deposit(Event::OwnerUpdateRequested(feed, old_owner, new_owner)),
                    )
                },
            },
        }
    }

    /// Accept the transfer of feed ownership.
    pub open spec fn accept_ownership(self, origin: Origin, feed: FeedId) -> Result<PalletView, Error> {
        match spec_ensure_signed(origin) {
            Err(e) => Err(e),
            Ok(new_owner) => match self.feed_config(feed) {
                None => Err(Error::FeedNotFound),
                Some(cfg) => if cfg.pending_owner != Some(new_owner) {
                    Err(Error::NotPendingOwner)
                } else {
                    Ok(
                        self.put_feed(
                            feed,
                            FeedConfigView { pending_owner: None, owner: new_owner, ..cfg },
                        ).deposit(Event::OwnerUpdated(feed, new_owner)),
                    )
                },
            },
        }
    }

    /// Prune rounds of a feed until the oldest kept round lies inside the window.
    pub open spec fn prune_all(self, feed: FeedId, cfg: FeedConfigView) -> (PalletView, FeedConfigView)
        decreases cfg.latest_round - cfg.next_round_to_prune,
    {
        if cfg.pruning_window > 0 && sat_sub_u32(cfg.latest_round, cfg.next_round_to_prune)
            >= cfg.pruning_window {
            let (s1, cfg1, _) = self.prune_oldest(feed, cfg);
            s1.prune_all(feed, cfg1)
        } else {
            (self, cfg)
        }
    }

    /// Update the pruning window of a feed and prune the rounds outside it.
    pub open spec fn set_pruning_window(self, origin: Origin, feed: FeedId, window: RoundId) -> Result<
        PalletView,
        Error,
    > {
        match spec_ensure_signed(origin) {
            Err(e) => Err(e),
            Ok(owner) => if window == 0 {
                Err(Error::CannotPruneRoundZero)
            } else {
                match self.feed_config(feed) {
                    None => Err(Error::FeedNotFound),
                    Some(cfg) => if cfg.owner != owner {
                        Err(Error::NotFeedOwner)
                    } else {
                        let (s1, cfg1) = self.prune_all(
                            feed,
                            FeedConfigView { pruning_window: window, ..cfg },
                        );
                        Ok(s1.put_feed(feed, cfg1))
                    },
                }
            },
        }
    }

    /// Disable and add oracles of a feed.
    pub open spec fn change_oracles(
        self,
        origin: Origin,
        feed: FeedId,
        to_disable: Seq<AccountId>,
        to_add: Seq<(AccountId, AccountId)>,
    ) -> Result<PalletView, Error> {
        match spec_ensure_signed(origin) {
            Err(e) => Err(e),
            Ok(owner) => match self.feed_config(feed) {
                None => Err(Error::FeedNotFound),
                Some(cfg) => if cfg.owner != owner {
                    Err(Error::NotFeedOwner)
                } else {
                    match self.disable_oracles(feed, cfg, to_disable) {
                        Err(e) => Err(e),
                        Ok((s1, cfg1)) => match s1.add_oracles(feed, cfg1, to_add) {
                            Err(e) => Err(e),
                            Ok((s2, cfg2)) => Ok(s2.put_feed(feed, cfg2)),
                        },
                    }
                },
            },
        }
    }

    /// Update the configuration for future oracle rounds of a feed.
    pub open spec fn update_future_rounds_call(
        self,
        origin: Origin,
        feed: FeedId,
        payment: Balance,
        submission_count_bounds: (u32, u32),
        restart_delay: RoundId,
        timeout: BlockNumber,
    ) -> Result<PalletView, Error> {
        match spec_ensure_signed(origin) {
            Err(e) => Err(e),
            Ok(owner) => match self.feed_config(feed) {
                None => Err(Error::FeedNotFound),
                Some(cfg) => if cfg.owner != owner {
                    Err(Error::NotFeedOwner)
                } else {
                    match self.update_future_rounds(
                        feed,
                        cfg,
                        payment,
                        submission_count_bounds,
                        restart_delay,
                        timeout,
                    ) {
                        Err(e) => Err(e),
                        Ok((s1, cfg1)) => Ok(s1.put_feed(feed, cfg1)),
                    }
                },
            },
        }
    }

    /// Set requester permissions for `requester`, keeping its last started round.
    pub open spec fn set_requester(
        self,
        origin: Origin,
        feed: FeedId,
        requester: AccountId,
        delay: RoundId,
    ) -> Result<PalletView, Error> {
        match spec_ensure_signed(origin) {
            Err(e) => Err(e),
            Ok(owner) => match self.feed_config(feed) {
                None => Err(Error::FeedNotFound),
                Some(cfg) => if cfg.owner != owner {
                    Err(Error::NotFeedOwner)
                } else {
                    let last = match self.requester(feed, requester) {
                        Some(r) => r.last_started_round,
                        None => None,
                    };
                    Ok(
                        self.put_requester(
                            feed,
                            requester,
                            crate::chainlink_feed::types::Requester {
                                delay,
                                last_started_round: last,
                            },
                        ).deposit(Event::RequesterPermissionsSet(feed, requester, true, delay)),
                    )
                },
            },
        }
    }

    /// Remove requester permissions for `requester`.
    pub open spec fn remove_requester_call(
        self,
        origin: Origin,
        feed: FeedId,
        requester: AccountId,
    ) -> Result<PalletView, Error> {
        match spec_ensure_signed(origin) {
            Err(e) => Err(e),
            Ok(owner) => match self.feed_config(feed) {
                None => Err(Error::FeedNotFound),
                Some(cfg) => if cfg.owner != owner {
                    Err(Error::NotFeedOwner)
                } else {
                    match self.requester(feed, requester) {
                        None => Err(Error::RequesterNotFound),
                        Some(r) => Ok(
                            self.remove_requester(feed, requester).deposit(
                                Event::RequesterPermissionsSet(feed, requester, false, r.delay),
                            ),
                        ),
                    }
                },
            },
        }
    }

    /// Request the start of a new oracle round.
    pub open spec fn request_new_round(self, origin: Origin, feed: FeedId, now: BlockNumber) -> Result<
        PalletView,
        Error,
    > {
        match spec_ensure_signed(origin) {
            Err(e) => Err(e),
            Ok(sender) => match self.requester(feed, sender) {
                None => Err(Error::NotAuthorizedRequester),
                Some(req) => match self.feed_config(feed) {
                    None => Err(Error::FeedNotFound),
                    Some(cfg) => {
                        let last: int = match req.last_started_round {
                            Some(l) => l as int,
                            None => 0,
                        };
                        if cfg.reporting_round == u32::MAX {
                            Err(Error::Overflow)
                        } else if last + req.delay > u32::MAX {
                            Err(Error::Overflow)
                        } else if !(req.last_started_round is None || cfg.reporting_round + 1 > last
                            + req.delay) {
                            Err(Error::CannotRequestRoundYet)
                        } else {
                            let new_round = (cfg.reporting_round + 1) as u32;
                            let s1 = self.put_requester(
                                feed,
                                sender,
                                crate::chainlink_feed::types::Requester {
                                    last_started_round: Some(new_round),
                                    ..req
                                },
                            );
                            match s1.feed_request_new_round(feed, cfg, sender, now) {
                                Err(e) => Err(e),
                                Ok((s2, cfg2)) => Ok(s2.put_feed(feed, cfg2)),
                            }
                        }
                    },
                },
            },
        }
    }

    /// Withdraw `amount` of the payment of an oracle; `transfer_ok` tells whether
    /// the currency transfer from the pallet fund succeeded.
    pub open spec fn withdraw_payment(
        self,
        origin: Origin,
        oracle: AccountId,
        amount: Balance,
        transfer_ok: bool,
    ) -> Result<PalletView, Error> {
        match spec_ensure_signed(origin) {
            Err(e) => Err(e),
            Ok(admin) => match self.oracle(oracle) {
                None => Err(Error::OracleNotFound),
                Some(meta) => if meta.admin != admin {
                    Err(Error::NotAdmin)
                } else if meta.withdrawable < amount {
                    Err(Error::InsufficientFunds)
                } else if !transfer_ok {
                    Err(Error::Currency)
                } else {
                    Ok(
                        self.put_oracle(
                            oracle,
                            OracleMeta { withdrawable: (meta.withdrawable - amount) as u64, ..meta },
                        ),
                    )
                },
            },
        }
    }

    /// Initiate an admin transfer for an oracle.
    pub open spec fn transfer_admin(self, origin: Origin, oracle: AccountId, new_admin: AccountId) -> Result<
        PalletView,
        Error,
    > {
        match spec_ensure_signed(origin) {
            Err(e) => Err(e),
            Ok(old_admin) => match self.oracle(oracle) {
                None => Err(Error::OracleNotFound),
                Some(meta) => if meta.admin != old_admin {
                    Err(Error::NotAdmin)
                } else {
                    Ok(
                        self.put_oracle(oracle, OracleMeta { pending_admin: Some(new_admin), ..meta }).deposit(
                            Event::OracleAdminUpdateRequested(oracle, old_admin, new_admin),
                        ),
                    )
                },
            },
        }
    }

    /// Complete an admin transfer for an oracle.
    pub open spec fn accept_admin(self, origin: Origin, oracle: AccountId) -> Result<PalletView, Error> {
        match spec_ensure_signed(origin) {
            Err(e) => Err(e),
            Ok(new_admin) => match self.oracle(oracle) {
                None => Err(Error::OracleNotFound),
                Some(meta) => if meta.pending_admin != Some(new_admin) {
                    Err(Error::NotPendingAdmin)
                } else {
                    Ok(
                        self.put_oracle(
                            oracle,
                            OracleMeta { pending_admin: None, admin: new_admin, ..meta },
                        ).deposit(Event::OracleAdminUpdated(oracle, new_admin)),
                    )
                },
            },
        }
    }

    /// Withdraw `amount` from the pallet fund, whose free balance is `fund_free`;
    /// `transfer_ok` tells whether the currency transfer succeeded.
    pub open spec fn withdraw_funds(
        self,
        origin: Origin,
        amount: Balance,
        fund_free: Balance,
        transfer_ok: bool,
    ) -> Result<(), Error> {
        match spec_ensure_signed(origin) {
            Err(e) => Err(e),
            Ok(sender) => if sender != self.pallet_admin {
                Err(Error::NotPalletAdmin)
            } else if fund_free < amount {
                Err(Error::InsufficientFunds)
            } else if fund_free - amount < self.limits.minimum_reserve {
                Err(Error::InsufficientReserve)
            } else if !transfer_ok {
                Err(Error::Currency)
            } else {
                Ok(())
            },
        }
    }

    /// The amount `reduce_debt` reserves from the pallet fund: the smaller of
    /// `amount` and the debt of the feed.
    pub open spec fn debt_to_reserve(self, feed: FeedId, amount: Balance) -> Balance {
        match self.feed_config(feed) {
            Some(cfg) => if amount < cfg.debt { amount } else { cfg.debt },
            None => 0,
        }
    }

    /// Reduce the debt of a feed by `amount` (saturating at zero); `reserve_ok`
    /// tells whether reserving `debt_to_reserve` from the pallet fund succeeded.
    pub open spec fn reduce_debt(
        self,
        origin: Origin,
        feed: FeedId,
        amount: Balance,
        reserve_ok: bool,
    ) -> Result<PalletView, Error> {
        match spec_ensure_signed(origin) {
            Err(e) => Err(e),
            Ok(_) => match self.feed_config(feed) {
                None => Err(Error::FeedNotFound),
                Some(cfg) => if !reserve_ok {
                    Err(Error::Currency)
                } else {
                    Ok(self.put_feed(feed, FeedConfigView { debt: sat_sub_u64(cfg.debt, amount), ..cfg }))
                },
            },
        }
    }

    /// Initiate an admin transfer for the pallet.
    pub open spec fn transfer_pallet_admin(self, origin: Origin, new_admin: AccountId) -> Result<
        PalletView,
        Error,
    > {
        match spec_ensure_signed(origin) {
            Err(e) => Err(e),
            Ok(old_admin) => if self.pallet_admin != old_admin {
                Err(Error::NotPalletAdmin)
            } else {
                Ok(
                    PalletView { pending_pallet_admin: Some(new_admin), ..self }.deposit(
                        Event::PalletAdminUpdateRequested(old_admin, new_admin),
                    ),
                )
            },
        }
    }

    /// Complete an admin transfer for the pallet.
    pub open spec fn accept_pallet_admin(self, origin: Origin) -> Result<PalletView, Error> {
        match spec_ensure_signed(origin) {
            Err(e) => Err(e),
            Ok(new_admin) => if self.pending_pallet_admin != Some(new_admin) {
                Err(Error::NotPendingPalletAdmin)
            } else {
                Ok(
                    PalletView {
                        pending_pallet_admin: None,
                        pallet_admin: new_admin,
                        ..self
                    }.deposit(Event::PalletAdminUpdated(new_admin)),
                )
            },
        }
    }

    /// Allow an account to create feeds.
    pub open spec fn set_feed_creator(self, origin: Origin, creator: AccountId) -> Result<PalletView, Error> {
        match spec_ensure_signed(origin) {
            Err(e) => Err(e),
            Ok(admin) => if self.pallet_admin != admin {
                Err(Error::NotPalletAdmin)
            } else {
                Ok(
                    PalletView { feed_creators: self.feed_creators.insert(creator), ..self }.deposit(
                        Event::FeedCreator(creator),
                    ),
                )
            },
        }
    }

    /// Disallow an account to create feeds.
    pub open spec fn remove_feed_creator(self, origin: Origin, creator: AccountId) -> Result<
        PalletView,
        Error,
    > {
        match spec_ensure_signed(origin) {
            Err(e) => Err(e),
            Ok(admin) => if self.pallet_admin != admin {
                Err(Error::NotPalletAdmin)
            } else {
                Ok(
                    PalletView { feed_creators: self.feed_creators.remove(creator), ..self }.deposit(
                        Event::FeedCreatorRemoved(creator),
                    ),
                )
            },
        }
    }
}

impl Pallet {
    /// Record the answer of a round whose submissions are `subs`.
    fn answer_round<H: OnAnswerHandler>(
        &mut self,
        feed: FeedId,
        cfg: &mut FeedConfig,
        round: RoundId,
        subs: &mut Vec<Value>,
        now: BlockNumber,
    ) -> (r: Result<(), Error>)
        requires
            old(subs)@.len() > 0,
            old(cfg).pruning_window > 0,
        ensures
            final(cfg).pruning_window == old(cfg).pruning_window,
            match old(self)@.answer_round(feed, old(cfg)@, round, old(subs)@, now) {
                Ok((s, c, v)) => r is Ok && final(self)@ == s && final(cfg)@ == c
                    && final(subs)@ == v,
                Err(e) => r == Err::<(), Error>(e),
            },
            r is Ok ==> (old(self)@.answer_data(feed, round, old(subs)@, now) matches Some(data) && call_ensures(
                H::on_answer,
                (feed, data),
                (),
            )),
    {
        let new_answer = median(subs);
        let r = match self.get_round(feed, round) {
            Some(r) => r,
            None => return Err(Error::RoundNotFound),
        };
        let data = RoundData {
            started_at: r.started_at,
            answer: new_answer,
            updated_at: now,
            answered_in_round: round,
        };
        self.insert_round(feed, round, data.into_round());
        cfg.latest_round = round;
        if cfg.first_valid_round.is_none() {
            cfg.first_valid_round = Some(round);
        }
        let prev = round.saturating_sub(1);
        if prev > 0 {
            self.delete_details(feed, prev);
        }
        self.prune_oldest(feed, cfg);
        H::on_answer(feed, data);
        self.deposit_event(Event::AnswerUpdated(feed, round, new_answer, now));
        Ok(())
    }

    /// Pay the oracle and keep the round details and the feed configuration.
    fn settle_submission(
        &mut self,
        feed: FeedId,
        mut cfg: FeedConfig,
        oracle: AccountId,
        round: RoundId,
        d: RoundDetails,
        reserve_ok: bool,
    ) -> (r: Result<(), Error>)
        requires
            old(self)@.well_formed(),
            cfg.pruning_window > 0,
        ensures
            match old(self)@.settle_submission(feed, cfg@, oracle, round, d@, reserve_ok) {
                Ok(s) => r is Ok && final(self)@ == s,
                Err(e) => r == Err::<(), Error>(e),
            },
            final(self)@.well_formed(),
    {
        let payment = d.payment;
        if !reserve_ok {
            let new_debt = match cfg.debt.checked_add(payment) {
                Some(v) => v,
                None => return Err(Error::Overflow),
            };
            match cfg.max_debt {
                Some(m) => if new_debt >= m {
                    return Err(Error::MaxDebtReached);
                },
                None => return Err(Error::MaxDebtReached),
            }
            cfg.debt = new_debt;
        }
        let meta = match self.get_oracle(oracle) {
            Some(m) => m,
            None => return Err(Error::OracleNotFound),
        };
        let withdrawable = match meta.withdrawable.checked_add(payment) {
            Some(v) => v,
            None => return Err(Error::Overflow),
        };
        self.insert_oracle(
            oracle,
            OracleMeta { withdrawable, admin: meta.admin, pending_admin: meta.pending_admin },
        );
        if d.submissions.len() < d.submission_count_bounds.1 as usize {
            self.insert_details(feed, round, d);
        }
        self.store_feed(feed, cfg);
        Ok(())
    }

    /// Record a submission of `oracle`, whose status was `st`.
    fn record_submission<H: OnAnswerHandler>(
        &mut self,
        feed: FeedId,
        mut cfg: FeedConfig,
        oracle: AccountId,
        st: OracleStatus,
        round: RoundId,
        submission: Value,
        now: BlockNumber,
        reserve_ok: bool,
    ) -> (r: Result<(), Error>)
        requires
            old(self)@.well_formed(),
            cfg.pruning_window > 0,
        ensures
            match old(self)@.record_submission(
                feed,
                cfg@,
                oracle,
                st,
                round,
                submission,
                now,
                reserve_ok,
            ) {
                Ok(s) => r is Ok && final(self)@ == s,
                Err(e) => r == Err::<(), Error>(e),
            },
            r is Ok ==> final(self)@.well_formed(),
            r is Ok ==> (old(self)@.recorded_answer(feed, round, submission, now) matches Some(data) ==> call_ensures(
                H::on_answer,
                (feed, data),
                (),
            )),
    {
        let ghost s0 = self@;
        let mut details = match self.take_details(feed, round) {
            Some(d) => d,
            None => return Err(Error::NotAcceptingSubmissions),
        };
        let ghost d0 = details@;
        details.submissions.push(submission);
        let new_status = OracleStatus {
            starting_round: st.starting_round,
            ending_round: st.ending_round,
            last_reported_round: Some(round),
            last_started_round: st.last_started_round,
            latest_submission: Some(submission),
        };
        self.insert_status(feed, oracle, new_status);
        self.deposit_event(Event::SubmissionReceived(feed, round, submission, oracle));
        let (min_count, max_count) = details.submission_count_bounds;
        if details.submissions.len() >= min_count as usize {
            let mut subs = Vec::new();
            std::mem::swap(&mut subs, &mut details.submissions);
            let answered = self.answer_round::<H>(feed, &mut cfg, round, &mut subs, now);
            details.submissions = subs;
            if answered.is_err() {
                return answered;
            }
        }
        proof {
            assert(details@ == RoundDetailsView { submissions: details@.submissions, ..d0 });
        }
        self.settle_submission(feed, cfg, oracle, round, details, reserve_ok)
    }

    /// Submit a new value to the given feed and round.
    ///
    /// - Will start a new round if there is no round for the id, yet, and a round
    ///   can be started (at this time by this oracle).
    /// - Will update the round answer if minimum number of submissions has been reached,
    ///   and hand the new round data to the answer handler `H`.
    /// - Records the rewards incurred by the oracle.
    /// - Removes the details for the previous round if it was superseded.
    ///
    /// `now` is the current block number and `reserve_ok` whether reserving the
    /// payment of the round from the pallet fund succeeded. Limited to the
    /// oracles of a feed.
    pub fn submit<H: OnAnswerHandler>(
        &mut self,
        origin: Origin,
        feed_id: FeedId,
        round_id: RoundId,
        submission: Value,
        now: BlockNumber,
        reserve_ok: bool,
    ) -> (r: Result<(), Error>)
        requires
            old(self)@.well_formed(),
        ensures
            final(self)@.well_formed(),
            match old(self)@.submit(origin, feed_id, round_id, submission, now, reserve_ok) {
                Ok(s) => r is Ok && final(self)@ == s,
                Err(e) => r == Err::<(), Error>(e) && final(self)@ == old(self)@,
            },
            r is Ok ==> (old(self)@.submission_answer(origin, feed_id, round_id, submission, now) matches Some(
                data,
            ) ==> call_ensures(H::on_answer, (feed_id, data), ())),
    {
        let checkpoint = self.checkpoint();
        let r = self.submit_inner::<H>(origin, feed_id, round_id, submission, now, reserve_ok);
        if r.is_err() {
            *self = checkpoint;
        }
        r
    }

    fn submit_inner<H: OnAnswerHandler>(
        &mut self,
        origin: Origin,
        feed_id: FeedId,
        round_id: RoundId,
        submission: Value,
        now: BlockNumber,
        reserve_ok: bool,
    ) -> (r: Result<(), Error>)
        requires
            old(self)@.well_formed(),
        ensures
            match old(self)@.submit(origin, feed_id, round_id, submission, now, reserve_ok) {
                Ok(s) => r is Ok && final(self)@ == s,
                Err(e) => r == Err::<(), Error>(e),
            },
            r is Ok ==> final(self)@.well_formed(),
            r is Ok ==> (old(self)@.submission_answer(origin, feed_id, round_id, submission, now) matches Some(
                data,
            ) ==> call_ensures(H::on_answer, (feed_id, data), ())),
    {
        let oracle = ensure_signed(origin)?;
        let mut cfg = match self.get_feed_config(feed_id) {
            Some(c) => c,
            None => return Err(Error::FeedNotFound),
        };
        let mut oracle_status = match self.get_oracle_status(feed_id, oracle) {
            Some(s) => s,
            None => return Err(Error::NotOracle),
        };
        self.ensure_valid_round(feed_id, &cfg, oracle, round_id, now)?;
        let (min_val, max_val) = cfg.submission_value_bounds;
        if submission < min_val {
            return Err(Error::SubmissionBelowMinimum);
        }
        if submission > max_val {
            return Err(Error::SubmissionAboveMaximum);
        }
        let new_round_id = cfg.reporting_round.saturating_add(1);
        let base = match oracle_status.last_started_round {
            Some(l) => l,
            None => 0,
        };
        let next_eligible_round = match base.checked_add(cfg.restart_delay) {
            Some(v) => match v.checked_add(1) {
                Some(w) => w,
                None => return Err(Error::Overflow),
            },
            None => return Err(Error::Overflow),
        };
        let eligible_to_start = round_id >= next_eligible_round
            || oracle_status.last_started_round.is_none();
        if round_id == new_round_id && eligible_to_start {
            let started_at = self.initialize_round(feed_id, &mut cfg, new_round_id, now)?;
            self.deposit_event(Event::NewRound(feed_id, new_round_id, oracle, started_at));
            oracle_status.last_started_round = Some(new_round_id);
        }
        self.record_submission::<H>(
            feed_id,
            cfg,
            oracle,
            oracle_status,
            round_id,
            submission,
            now,
            reserve_ok,
        )
    }

    /// Create a new oracle feed with the given config values, starting at block
    /// `now`. Limited to feed creator accounts.
    pub fn create_feed(
        &mut self,
        origin: Origin,
        payment: Balance,
        timeout: BlockNumber,
        submission_value_bounds: (Value, Value),
        min_submissions: u32,
        decimals: u8,
        description: Vec<u8>,
        restart_delay: RoundId,
        oracles: Vec<(AccountId, AccountId)>,
        pruning_window: Option<RoundId>,
        max_debt: Option<Balance>,
        now: BlockNumber,
    ) -> (r: Result<(), Error>)
        requires
            old(self)@.well_formed(),
        ensures
            final(self)@.well_formed(),
            match old(self)@.create_feed(
                origin,
                payment,
                timeout,
                submission_value_bounds,
                min_submissions,
                decimals,
                description@,
                restart_delay,
                oracles@,
                pruning_window,
                max_debt,
                now,
            ) {
                Ok(s) => r is Ok && final(self)@ == s,
                Err(e) => r == Err::<(), Error>(e) && final(self)@ == old(self)@,
            },
    {
        let checkpoint = self.checkpoint();
        let r = self.create_feed_inner(
            origin,
            payment,
            timeout,
            submission_value_bounds,
            min_submissions,
            decimals,
            description,
            restart_delay,
            oracles,
            pruning_window,
            max_debt,
            now,
        );
        if r.is_err() {
            *self = checkpoint;
        }
        r
    }

    fn create_feed_inner(
        &mut self,
        origin: Origin,
        payment: Balance,
        timeout: BlockNumber,
        submission_value_bounds: (Value, Value),
        min_submissions: u32,
        decimals: u8,
        description: Vec<u8>,
        restart_delay: RoundId,
        oracles: Vec<(AccountId, AccountId)>,
        pruning_window: Option<RoundId>,
        max_debt: Option<Balance>,
        now: BlockNumber,
    ) -> (r: Result<(), Error>)
        requires
            old(self)@.well_formed(),
        ensures
            match old(self)@.create_feed(
                origin,
                payment,
                timeout,
                submission_value_bounds,
                min_submissions,
                decimals,
                description@,
                restart_delay,
                oracles@,
                pruning_window,
                max_debt,
                now,
            ) {
                Ok(s) => r is Ok && final(self)@ == s,
                Err(e) => r == Err::<(), Error>(e),
            },
            r is Ok ==> final(self)@.well_formed(),
    {
        let owner = ensure_signed(origin)?;
        if !self.feed_creators.contains(&owner) {
            return Err(Error::NotFeedCreator);
        }
        #[verifier::truncate]
        let description_len = description.len() as u32;
        if description_len > self.limits.string_limit {
            return Err(Error::DescriptionTooLong);
        }
        let window = match pruning_window {
            Some(w) => w,
            None => u32::MAX,
        };
        if window == 0 {
            return Err(Error::CannotPruneRoundZero);
        }
        #[verifier::truncate]
        let oracle_count = oracles.len() as u32;
        let submission_count_bounds = (min_submissions, oracle_count);
        let id = self.feed_counter;
        if id >= self.limits.feed_limit {
            return Err(Error::FeedLimitReached);
        }
        if id == u32::MAX {
            return Err(Error::Overflow);
        }
        self.feed_counter = id + 1;
        let mut cfg = FeedConfig {
            owner,
            pending_owner: None,
            submission_value_bounds,
            submission_count_bounds,
            payment,
            timeout,
            decimals,
            description,
            restart_delay,
            reporting_round: 0,
            latest_round: 0,
            first_valid_round: None,
            oracle_count: 0,
            pruning_window: window,
            next_round_to_prune: 1,
            debt: 0,
            max_debt,
        };
        self.insert_round(
            id,
            0,
            Round { started_at: now, answer: Some(0), updated_at: Some(now), answered_in_round: Some(0) },
        );
        self.add_oracles(id, &mut cfg, &oracles)?;
        self.update_future_rounds_of(
            id,
            &mut cfg,
            payment,
            submission_count_bounds,
            restart_delay,
            timeout,
        )?;
        self.deposit_event(Event::FeedCreated(id, owner));
        self.store_feed(id, cfg);
        Ok(())
    }

    /// Initiate the transfer of the feed to `new_owner`.
    pub fn transfer_ownership(&mut self, origin: Origin, feed_id: FeedId, new_owner: AccountId) -> (r:
        Result<(), Error>)
        requires
            old(self)@.well_formed(),
        ensures
            final(self)@.well_formed(),
            match old(self)@.transfer_ownership(origin, feed_id, new_owner) {
                Ok(s) => r is Ok && final(self)@ == s,
                Err(e) => r == Err::<(), Error>(e) && final(self)@ == old(self)@,
            },
    {
        let old_owner = ensure_signed(origin)?;
        let mut cfg = match self.get_feed_config(feed_id) {
            Some(c) => c,
            None => return Err(Error::FeedNotFound),
        };
        if cfg.owner != old_owner {
            return Err(Error::NotFeedOwner);
        }
        cfg.pending_owner = Some(new_owner);
        self.store_feed(feed_id, cfg);
        self.deposit_event(Event::OwnerUpdateRequested(feed_id, old_owner, new_owner));
        Ok(())
    }

    /// Accept the transfer of feed ownership.
    pub fn accept_ownership(&mut self, origin: Origin, feed_id: FeedId) -> (r: Result<(), Error>)
        requires
            old(self)@.well_formed(),
        ensures
            final(self)@.well_formed(),
            match old(self)@.accept_ownership(origin, feed_id) {
                Ok(s) => r is Ok && final(self)@ == s,
                Err(e) => r == Err::<(), Error>(e) && final(self)@ == old(self)@,
            },
    {
        let new_owner = ensure_signed(origin)?;
        let mut cfg = match self.get_feed_config(feed_id) {
            Some(c) => c,
            None => return Err(Error::FeedNotFound),
        };
        if cfg.pending_owner != Some(new_owner) {
            return Err(Error::NotPendingOwner);
        }
        cfg.pending_owner = None;
        cfg.owner = new_owner;
        self.store_feed(feed_id, cfg);
        self.deposit_event(Event::OwnerUpdated(feed_id, new_owner));
        Ok(())
    }

    /// Updates the pruning window of an existing feed; prunes the rounds that
    /// fall outside the window.
    pub fn set_pruning_window(&mut self, origin: Origin, feed_id: FeedId, pruning_window: RoundId) -> (r:
        Result<(), Error>)
        requires
            old(self)@.well_formed(),
        ensures
            final(self)@.well_formed(),
            match old(self)@.set_pruning_window(origin, feed_id, pruning_window) {
                Ok(s) => r is Ok && final(self)@ == s,
                Err(e) => r == Err::<(), Error>(e) && final(self)@ == old(self)@,
            },
    {
        let owner = ensure_signed(origin)?;
        if pruning_window == 0 {
            return Err(Error::CannotPruneRoundZero);
        }
        let mut cfg = match self.get_feed_config(feed_id) {
            Some(c) => c,
            None => return Err(Error::FeedNotFound),
        };
        if cfg.owner != owner {
            return Err(Error::NotFeedOwner);
        }
        cfg.pruning_window = pruning_window;
        let ghost s0 = self@;
        let ghost c0 = cfg@;
        loop
            invariant
                cfg.pruning_window == pruning_window,
                pruning_window > 0,
                s0.prune_all(feed_id, c0) == self@.prune_all(feed_id, cfg@),
                self@.feeds == s0.feeds,
                s0 == old(self)@,
            ensures
                cfg.pruning_window == pruning_window,
                s0.prune_all(feed_id, c0) == (self@, cfg@),
                s0 == old(self)@,
            decreases cfg.latest_round - cfg.next_round_to_prune,
        {
            let ghost before = self@;
            let ghost cb = cfg@;
            if !self.prune_oldest(feed_id, &mut cfg) {
                proof {
                    assert(before.prune_all(feed_id, cb) == (before, cb));
                }
                break;
            }
            proof {
                assert(before.prune_all(feed_id, cb) == self@.prune_all(feed_id, cfg@));
            }
        }
        self.store_feed(feed_id, cfg);
        Ok(())
    }

    /// Disable and add oracles for the given feed. Limited to the owner of a feed.
    pub fn change_oracles(
        &mut self,
        origin: Origin,
        feed_id: FeedId,
        to_disable: Vec<AccountId>,
        to_add: Vec<(AccountId, AccountId)>,
    ) -> (r: Result<(), Error>)
        requires
            old(self)@.well_formed(),
        ensures
            final(self)@.well_formed(),
            match old(self)@.change_oracles(origin, feed_id, to_disable@, to_add@) {
                Ok(s) => r is Ok && final(self)@ == s,
                Err(e) => r == Err::<(), Error>(e) && final(self)@ == old(self)@,
            },
    {
        let owner = ensure_signed(origin)?;
        let checkpoint = self.checkpoint();
        let r = self.change_oracles_inner(owner, feed_id, &to_disable, &to_add);
        if r.is_err() {
            *self = checkpoint;
        }
        r
    }

    fn change_oracles_inner(
        &mut self,
        owner: AccountId,
        feed_id: FeedId,
        to_disable: &Vec<AccountId>,
        to_add: &Vec<(AccountId, AccountId)>,
    ) -> (r: Result<(), Error>)
        requires
            old(self)@.well_formed(),
        ensures
            match old(self)@.change_oracles(Origin::Signed(owner), feed_id, to_disable@, to_add@) {
                Ok(s) => r is Ok && final(self)@ == s,
                Err(e) => r == Err::<(), Error>(e),
            },
            r is Ok ==> final(self)@.well_formed(),
    {
        let mut cfg = match self.get_feed_config(feed_id) {
            Some(c) => c,
            None => return Err(Error::FeedNotFound),
        };
        if cfg.owner != owner {
            return Err(Error::NotFeedOwner);
        }
        self.disable_oracles(feed_id, &mut cfg, to_disable)?;
        self.add_oracles(feed_id, &mut cfg, to_add)?;
        self.store_feed(feed_id, cfg);
        Ok(())
    }

    /// Update the configuration for future oracle rounds. Limited to the owner of a feed.
    pub fn update_future_rounds(
        &mut self,
        origin: Origin,
        feed_id: FeedId,
        payment: Balance,
        submission_count_bounds: (u32, u32),
        restart_delay: RoundId,
        timeout: BlockNumber,
    ) -> (r: Result<(), Error>)
        requires
            old(self)@.well_formed(),
        ensures
            final(self)@.well_formed(),
            match old(self)@.update_future_rounds_call(
                origin,
                feed_id,
                payment,
                submission_count_bounds,
                restart_delay,
                timeout,
            ) {
                Ok(s) => r is Ok && final(self)@ == s,
                Err(e) => r == Err::<(), Error>(e) && final(self)@ == old(self)@,
            },
    {
        let owner = ensure_signed(origin)?;
        let mut cfg = match self.get_feed_config(feed_id) {
            Some(c) => c,
            None => return Err(Error::FeedNotFound),
        };
        if cfg.owner != owner {
            return Err(Error::NotFeedOwner);
        }
        self.update_future_rounds_of(
            feed_id,
            &mut cfg,
            payment,
            submission_count_bounds,
            restart_delay,
            timeout,
        )?;
        self.store_feed(feed_id, cfg);
        Ok(())
    }

    /// Set requester permissions for `requester`. Limited to the feed owner.
    pub fn set_requester(&mut self, origin: Origin, feed_id: FeedId, requester: AccountId, delay: RoundId) -> (r:
        Result<(), Error>)
        requires
            old(self)@.well_formed(),
        ensures
            final(self)@.well_formed(),
            match old(self)@.set_requester(origin, feed_id, requester, delay) {
                Ok(s) => r is Ok && final(self)@ == s,
                Err(e) => r == Err::<(), Error>(e) && final(self)@ == old(self)@,
            },
    {
        let owner = ensure_signed(origin)?;
        let cfg = match self.get_feed_config(feed_id) {
            Some(c) => c,
            None => return Err(Error::FeedNotFound),
        };
        if cfg.owner != owner {
            return Err(Error::NotFeedOwner);
        }
        let last = match self.get_requester(feed_id, requester) {
            Some(r) => r.last_started_round,
            None => None,
        };
        self.insert_requester(
            feed_id,
            requester,
            crate::chainlink_feed::types::Requester { delay, last_started_round: last },
        );
        self.deposit_event(Event::RequesterPermissionsSet(feed_id, requester, true, delay));
        Ok(())
    }

    /// Remove requester permissions for `requester`. Limited to the feed owner.
    pub fn remove_requester(&mut self, origin: Origin, feed_id: FeedId, requester: AccountId) -> (r:
        Result<(), Error>)
        requires
            old(self)@.well_formed(),
        ensures
            final(self)@.well_formed(),
            match old(self)@.remove_requester_call(origin, feed_id, requester) {
                Ok(s) => r is Ok && final(self)@ == s,
                Err(e) => r == Err::<(), Error>(e) && final(self)@ == old(self)@,
            },
    {
        let owner = ensure_signed(origin)?;
        let cfg = match self.get_feed_config(feed_id) {
            Some(c) => c,
            None => return Err(Error::FeedNotFound),
        };
        if cfg.owner != owner {
            return Err(Error::NotFeedOwner);
        }
        let meta = match self.get_requester(feed_id, requester) {
            Some(r) => r,
            None => return Err(Error::RequesterNotFound),
        };
        self.take_requester(feed_id, requester);
        self.deposit_event(Event::RequesterPermissionsSet(feed_id, requester, false, meta.delay));
        Ok(())
    }

    /// Request the start of a new oracle round at block `now`. Limited to
    /// accounts with requester permission.
    pub fn request_new_round(&mut self, origin: Origin, feed_id: FeedId, now: BlockNumber) -> (r: Result<
        (),
        Error,
    >)
        requires
            old(self)@.well_formed(),
        ensures
            final(self)@.well_formed(),
            match old(self)@.request_new_round(origin, feed_id, now) {
                Ok(s) => r is Ok && final(self)@ == s,
                Err(e) => r == Err::<(), Error>(e) && final(self)@ == old(self)@,
            },
    {
        let sender = ensure_signed(origin)?;
        let checkpoint = self.checkpoint();
        let r = self.request_new_round_inner(sender, feed_id, now);
        if r.is_err() {
            *self = checkpoint;
        }
        r
    }

    fn request_new_round_inner(&mut self, sender: AccountId, feed_id: FeedId, now: BlockNumber) -> (r:
        Result<(), Error>)
        requires
            old(self)@.well_formed(),
        ensures
            match old(self)@.request_new_round(Origin::Signed(sender), feed_id, now) {
                Ok(s) => r is Ok && final(self)@ == s,
                Err(e) => r == Err::<(), Error>(e),
            },
            r is Ok ==> final(self)@.well_formed(),
    {
        let requester = match self.get_requester(feed_id, sender) {
            Some(r) => r,
            None => return Err(Error::NotAuthorizedRequester),
        };
        let mut cfg = match self.get_feed_config(feed_id) {
            Some(c) => c,
            None => return Err(Error::FeedNotFound),
        };
        let new_round = match cfg.reporting_round.checked_add(1) {
            Some(v) => v,
            None => return Err(Error::Overflow),
        };
        let last_started = match requester.last_started_round {
            Some(l) => l,
            None => 0,
        };
        let next_allowed_round = match last_started.checked_add(requester.delay) {
            Some(v) => v,
            None => return Err(Error::Overflow),
        };
        if !(requester.last_started_round.is_none() || new_round > next_allowed_round) {
            return Err(Error::CannotRequestRoundYet);
        }
        self.insert_requester(
            feed_id,
            sender,
            crate::chainlink_feed::types::Requester {
                delay: requester.delay,
                last_started_round: Some(new_round),
            },
        );
        self.feed_request_new_round(feed_id, &mut cfg, sender, now)?;
        self.store_feed(feed_id, cfg);
        Ok(())
    }

    /// Withdraw `amount` payment of the given oracle to `recipient`; `transfer_ok`
    /// tells whether the currency transfer from the pallet fund to `recipient`
    /// succeeded. Limited to the oracle admin.
    pub fn withdraw_payment(
        &mut self,
        origin: Origin,
        oracle: AccountId,
        recipient: AccountId,
        amount: Balance,
        transfer_ok: bool,
    ) -> (r: Result<(), Error>)
        requires
            old(self)@.well_formed(),
        ensures
            final(self)@.well_formed(),
            match old(self)@.withdraw_payment(origin, oracle, amount, transfer_ok) {
                Ok(s) => r is Ok && final(self)@ == s,
                Err(e) => r == Err::<(), Error>(e) && final(self)@ == old(self)@,
            },
    {
        let admin = ensure_signed(origin)?;
        let meta = match self.get_oracle(oracle) {
            Some(m) => m,
            None => return Err(Error::OracleNotFound),
        };
        if meta.admin != admin {
            return Err(Error::NotAdmin);
        }
        let withdrawable = match meta.withdrawable.checked_sub(amount) {
            Some(v) => v,
            None => return Err(Error::InsufficientFunds),
        };
        if !transfer_ok {
            return Err(Error::Currency);
        }
        self.insert_oracle(
            oracle,
            OracleMeta { withdrawable, admin: meta.admin, pending_admin: meta.pending_admin },
        );
        Ok(())
    }

    /// Initiate an admin transfer for the given oracle. Limited to the oracle admin.
    pub fn transfer_admin(&mut self, origin: Origin, oracle: AccountId, new_admin: AccountId) -> (r:
        Result<(), Error>)
        requires
            old(self)@.well_formed(),
        ensures
            final(self)@.well_formed(),
            match old(self)@.transfer_admin(origin, oracle, new_admin) {
                Ok(s) => r is Ok && final(self)@ == s,
                Err(e) => r == Err::<(), Error>(e) && final(self)@ == old(self)@,
            },
    {
        let old_admin = ensure_signed(origin)?;
        let meta = match self.get_oracle(oracle) {
            Some(m) => m,
            None => return Err(Error::OracleNotFound),
        };
        if meta.admin != old_admin {
            return Err(Error::NotAdmin);
        }
        self.insert_oracle(
            oracle,
            OracleMeta {
                withdrawable: meta.withdrawable,
                admin: meta.admin,
                pending_admin: Some(new_admin),
            },
        );
        self.deposit_event(Event::OracleAdminUpdateRequested(oracle, old_admin, new_admin));
        Ok(())
    }

    /// Complete an admin transfer for the given oracle. Limited to the pending
    /// oracle admin.
    pub fn accept_admin(&mut self, origin: Origin, oracle: AccountId) -> (r: Result<(), Error>)
        requires
            old(self)@.well_formed(),
        ensures
            final(self)@.well_formed(),
            match old(self)@.accept_admin(origin, oracle) {
                Ok(s) => r is Ok && final(self)@ == s,
                Err(e) => r == Err::<(), Error>(e) && final(self)@ == old(self)@,
            },
    {
        let new_admin = ensure_signed(origin)?;
        let meta = match self.get_oracle(oracle) {
            Some(m) => m,
            None => return Err(Error::OracleNotFound),
        };
        if meta.pending_admin != Some(new_admin) {
            return Err(Error::NotPendingAdmin);
        }
        self.insert_oracle(
            oracle,
            OracleMeta { withdrawable: meta.withdrawable, admin: new_admin, pending_admin: None },
        );
        self.deposit_event(Event::OracleAdminUpdated(oracle, new_admin));
        Ok(())
    }

    /// Withdraw `amount` funds to `recipient`, given the free balance of the
    /// pallet fund and whether the currency transfer succeeded. Limited to the
    /// pallet admin.
    pub fn withdraw_funds(
        &self,
        origin: Origin,
        recipient: AccountId,
        amount: Balance,
        fund_free: Balance,
        transfer_ok: bool,
    ) -> (r: Result<(), Error>)
        ensures
            r == self@.withdraw_funds(origin, amount, fund_free, transfer_ok),
    {
        let sender = ensure_signed(origin)?;
        if sender != self.pallet_admin {
            return Err(Error::NotPalletAdmin);
        }
        let new_reserve = match fund_free.checked_sub(amount) {
            Some(v) => v,
            None => return Err(Error::InsufficientFunds),
        };
        if new_reserve < self.limits.minimum_reserve {
            return Err(Error::InsufficientReserve);
        }
        if !transfer_ok {
            return Err(Error::Currency);
        }
        Ok(())
    }

    /// The amount `reduce_debt` reserves from the pallet fund.
    pub fn debt_to_reserve(&self, feed_id: FeedId, amount: Balance) -> (r: Balance)
        requires
            self@.well_formed(),
        ensures
            r == self@.debt_to_reserve(feed_id, amount),
    {
        match self.get_feed_config(feed_id) {
            Some(cfg) => if amount < cfg.debt {
                amount
            } else {
                cfg.debt
            },
            None => 0,
        }
    }

    /// Reduce the debt of a feed by moving funds from the free balance of the
    /// pallet fund to the reserved one; `reserve_ok` tells whether reserving
    /// `debt_to_reserve(feed_id, amount)` succeeded.
    pub fn reduce_debt(&mut self, origin: Origin, feed_id: FeedId, amount: Balance, reserve_ok: bool) -> (r:
        Result<(), Error>)
        requires
            old(self)@.well_formed(),
        ensures
            final(self)@.well_formed(),
            match old(self)@.reduce_debt(origin, feed_id, amount, reserve_ok) {
                Ok(s) => r is Ok && final(self)@ == s,
                Err(e) => r == Err::<(), Error>(e) && final(self)@ == old(self)@,
            },
    {
        let _sender = ensure_signed(origin)?;
        let mut cfg = match self.get_feed_config(feed_id) {
            Some(c) => c,
            None => return Err(Error::FeedNotFound),
        };
        if !reserve_ok {
            return Err(Error::Currency);
        }
        cfg.debt = cfg.debt.saturating_sub(amount);
        self.store_feed(feed_id, cfg);
        Ok(())
    }

    /// Initiate an admin transfer for the pallet. Limited to the pallet admin.
    pub fn transfer_pallet_admin(&mut self, origin: Origin, new_pallet_admin: AccountId) -> (r: Result<
        (),
        Error,
    >)
        requires
            old(self)@.well_formed(),
        ensures
            final(self)@.well_formed(),
            match old(self)@.transfer_pallet_admin(origin, new_pallet_admin) {
                Ok(s) => r is Ok && final(self)@ == s,
                Err(e) => r == Err::<(), Error>(e) && final(self)@ == old(self)@,
            },
    {
        let old_admin = ensure_signed(origin)?;
        if self.pallet_admin != old_admin {
            return Err(Error::NotPalletAdmin);
        }
        self.pending_pallet_admin = Some(new_pallet_admin);
        self.deposit_event(Event::PalletAdminUpdateRequested(old_admin, new_pallet_admin));
        Ok(())
    }

    /// Complete an admin transfer for the pallet. Limited to the pending pallet admin.
    pub fn accept_pallet_admin(&mut self, origin: Origin) -> (r: Result<(), Error>)
        requires
            old(self)@.well_formed(),
        ensures
            final(self)@.well_formed(),
            match old(self)@.accept_pallet_admin(origin) {
                Ok(s) => r is Ok && final(self)@ == s,
                Err(e) => r == Err::<(), Error>(e) && final(self)@ == old(self)@,
            },
    {
        let new_pallet_admin = ensure_signed(origin)?;
        if self.pending_pallet_admin != Some(new_pallet_admin) {
            return Err(Error::NotPendingPalletAdmin);
        }
        self.pending_pallet_admin = None;
        self.pallet_admin = new_pallet_admin;
        self.deposit_event(Event::PalletAdminUpdated(new_pallet_admin));
        Ok(())
    }

    /// Allow the given account to create oracle feeds. Limited to the pallet admin.
    pub fn set_feed_creator(&mut self, origin: Origin, new_creator: AccountId) -> (r: Result<(), Error>)
        requires
            old(self)@.well_formed(),
        ensures
            final(self)@.well_formed(),
            match old(self)@.set_feed_creator(origin, new_creator) {
                Ok(s) => r is Ok && final(self)@ == s,
                Err(e) => r == Err::<(), Error>(e) && final(self)@ == old(self)@,
            },
    {
        let admin = ensure_signed(origin)?;
        if self.pallet_admin != admin {
            return Err(Error::NotPalletAdmin);
        }
        self.feed_creators.insert(new_creator);
        proof {
            assert(self.feed_creators@ =~= old(self).feed_creators@.insert(new_creator));
        }
        self.deposit_event(Event::FeedCreator(new_creator));
        Ok(())
    }

    /// Disallow the given account to create oracle feeds. Limited to the pallet admin.
    pub fn remove_feed_creator(&mut self, origin: Origin, creator: AccountId) -> (r: Result<(), Error>)
        requires
            old(self)@.well_formed(),
        ensures
            final(self)@.well_formed(),
            match old(self)@.remove_feed_creator(origin, creator) {
                Ok(s) => r is Ok && final(self)@ == s,
                Err(e) => r == Err::<(), Error>(e) && final(self)@ == old(self)@,
            },
    {
        let admin = ensure_signed(origin)?;
        if self.pallet_admin != admin {
            return Err(Error::NotPalletAdmin);
        }
        self.feed_creators.remove(&creator);
        proof {
            assert(self.feed_creators@ =~= old(self).feed_creators@.remove(creator));
        }
        self.deposit_event(Event::FeedCreatorRemoved(creator));
        Ok(())
    }
}

} // verus!
