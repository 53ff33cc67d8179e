//! Data kept by the feed pallet.
use vstd::prelude::*;

verus! {

/// Identifier of an oracle round.
pub type RoundId = u32;

/// Identifier of a feed.
pub type FeedId = u32;

/// Accounts are identified by integers.
pub type AccountId = u64;

/// Balances of the pallet's currency.
pub type Balance = u64;

/// Block numbers.
pub type BlockNumber = u64;

/// Oracle values.
pub type Value = u64;

pub use crate::origin::Origin;

/// The configuration for an oracle feed.
#[derive(Debug, PartialEq, Eq)]
pub struct FeedConfig {
    /// Owner of this feed
    pub owner: AccountId,
    /// The pending owner of this feed
    pub pending_owner: Option<AccountId>,
    /// Value bounds of oracle submissions
    pub submission_value_bounds: (Value, Value),
    /// Count bounds of oracle submissions
    pub submission_count_bounds: (u32, u32),
    /// Payment of oracle rounds
    pub payment: Balance,
    /// Timeout of rounds
    pub timeout: BlockNumber,
    /// Represents the number of decimals with which the feed is configured
    pub decimals: u8,
    /// The description of this feed
    pub description: Vec<u8>,
    /// The round initiation delay
    pub restart_delay: RoundId,
    /// The round oracles are currently reporting data for.
    pub reporting_round: RoundId,
    /// The id of the latest round
    pub latest_round: RoundId,
    /// The id of the first round that contains non-default data
    pub first_valid_round: Option<RoundId>,
    /// The amount of the oracles in this feed
    pub oracle_count: u32,
    /// Number of rounds to keep in storage for this feed.
    pub pruning_window: RoundId,
    /// Keeps track of the round that should be pruned next.
    pub next_round_to_prune: RoundId,
    /// Tracks the amount of debt accumulated by the feed towards the oracles.
    pub debt: Balance,
    /// The maximum allowed debt a feed can accumulate; with `None` the feed is
    /// not allowed to accumulate any debt.
    pub max_debt: Option<Balance>,
}

/// A feed configuration as a mathematical value.
pub struct FeedConfigView {
    pub owner: AccountId,
    pub pending_owner: Option<AccountId>,
    pub submission_value_bounds: (Value, Value),
    pub submission_count_bounds: (u32, u32),
    pub payment: Balance,
    pub timeout: BlockNumber,
    pub decimals: u8,
    pub description: Seq<u8>,
    pub restart_delay: RoundId,
    pub reporting_round: RoundId,
    pub latest_round: RoundId,
    pub first_valid_round: Option<RoundId>,
    pub oracle_count: u32,
    pub pruning_window: RoundId,
    pub next_round_to_prune: RoundId,
    pub debt: Balance,
    pub max_debt: Option<Balance>,
}

impl View for FeedConfig {
    type V = FeedConfigView;

    open spec fn view(&self) -> FeedConfigView {
        FeedConfigView {
            owner: self.owner,
            pending_owner: self.pending_owner,
            submission_value_bounds: self.submission_value_bounds,
            submission_count_bounds: self.submission_count_bounds,
            payment: self.payment,
            timeout: self.timeout,
            decimals: self.decimals,
            description: self.description@,
            restart_delay: self.restart_delay,
            reporting_round: self.reporting_round,
            latest_round: self.latest_round,
            first_valid_round: self.first_valid_round,
            oracle_count: self.oracle_count,
            pruning_window: self.pruning_window,
            next_round_to_prune: self.next_round_to_prune,
            debt: self.debt,
            max_debt: self.max_debt,
        }
    }
}

impl Clone for FeedConfig {
    fn clone(&self) -> (r: FeedConfig)
        ensures
            r@ == self@,
    {
        FeedConfig {
            owner: self.owner,
            pending_owner: self.pending_owner,
            submission_value_bounds: self.submission_value_bounds,
            submission_count_bounds: self.submission_count_bounds,
            payment: self.payment,
            timeout: self.timeout,
            decimals: self.decimals,
            description: self.description.clone(),
            restart_delay: self.restart_delay,
            reporting_round: self.reporting_round,
            latest_round: self.latest_round,
            first_valid_round: self.first_valid_round,
            oracle_count: self.oracle_count,
            pruning_window: self.pruning_window,
            next_round_to_prune: self.next_round_to_prune,
            debt: self.debt,
            max_debt: self.max_debt,
        }
    }
}

/// A copy of a byte string.
pub fn copy_bytes(v: &Vec<u8>) -> (r: Vec<u8>)
    ensures
        r@ == v@,
{
    let mut r: Vec<u8> = Vec::new();
    let mut i: usize = 0;
    while i < v.len()
        invariant
            i <= v.len(),
            r@ == v@.take(i as int),
        decreases v.len() - i,
    {
        r.push(v[i]);
        i = i + 1;
        proof {
            assert(r@ =~= v@.take(i as int));
        }
    }
    proof {
        assert(v@.take(v.len() as int) =~= v@);
    }
    r
}

impl FeedConfig {
    /// A copy of this configuration.
    pub fn duplicate(&self) -> (r: FeedConfig)
        ensures
            r@ == self@,
            r.pruning_window == self.pruning_window,
    {
        FeedConfig {
            owner: self.owner,
            pending_owner: self.pending_owner,
            submission_value_bounds: self.submission_value_bounds,
            submission_count_bounds: self.submission_count_bounds,
            payment: self.payment,
            timeout: self.timeout,
            decimals: self.decimals,
            description: copy_bytes(&self.description),
            restart_delay: self.restart_delay,
            reporting_round: self.reporting_round,
            latest_round: self.latest_round,
            first_valid_round: self.first_valid_round,
            oracle_count: self.oracle_count,
            pruning_window: self.pruning_window,
            next_round_to_prune: self.next_round_to_prune,
            debt: self.debt,
            max_debt: self.max_debt,
        }
    }
}

/// Round data relevant to consumers.
#[derive(Clone, Copy, Debug, PartialEq, Eq, Structural)]
pub struct Round {
    pub started_at: BlockNumber,
    pub answer: Option<Value>,
    pub updated_at: Option<BlockNumber>,
    pub answered_in_round: Option<RoundId>,
}

impl Round {
    /// A new round started at the given block.
    pub open spec fn spec_new(started_at: BlockNumber) -> Round {
        Round { started_at, answer: None, updated_at: None, answered_in_round: None }
    }

    /// Create a new round with the given starting block.
    pub fn new(started_at: BlockNumber) -> (r: Round)
        ensures
            r == Round::spec_new(started_at),
    {
        Round { started_at, answer: None, updated_at: None, answered_in_round: None }
    }
}

/// Round data relevant to oracles.
#[derive(Debug, PartialEq, Eq)]
pub struct RoundDetails {
    pub submissions: Vec<Value>,
    pub submission_count_bounds: (u32, u32),
    pub payment: Balance,
    pub timeout: BlockNumber,
}

/// Round details as a mathematical value.
pub struct RoundDetailsView {
    pub submissions: Seq<Value>,
    pub submission_count_bounds: (u32, u32),
    pub payment: Balance,
    pub timeout: BlockNumber,
}

impl View for RoundDetails {
    type V = RoundDetailsView;

    open spec fn view(&self) -> RoundDetailsView {
        RoundDetailsView {
            submissions: self.submissions@,
            submission_count_bounds: self.submission_count_bounds,
            payment: self.payment,
            timeout: self.timeout,
        }
    }
}

impl Clone for RoundDetails {
    fn clone(&self) -> (r: RoundDetails)
        ensures
            r@ == self@,
    {
        RoundDetails {
            submissions: self.submissions.clone(),
            submission_count_bounds: self.submission_count_bounds,
            payment: self.payment,
            timeout: self.timeout,
        }
    }
}

/// Meta data tracking withdrawable rewards and admin for an oracle.
#[derive(Clone, Copy, Debug, PartialEq, Eq, Structural)]
pub struct OracleMeta {
    pub withdrawable: Balance,
    pub admin: AccountId,
    pub pending_admin: Option<AccountId>,
}

/// Meta data tracking the oracle status for a feed.
#[derive(Clone, Copy, Debug, PartialEq, Eq, Structural)]
pub struct OracleStatus {
    pub starting_round: RoundId,
    pub ending_round: Option<RoundId>,
    pub last_reported_round: Option<RoundId>,
    pub last_started_round: Option<RoundId>,
    pub latest_submission: Option<Value>,
}

impl OracleStatus {
    pub open spec fn spec_new(starting_round: RoundId) -> OracleStatus {
        OracleStatus {
            starting_round,
            ending_round: None,
            last_reported_round: None,
            last_started_round: None,
            latest_submission: None,
        }
    }
}

/// Used to store round requester permissions for accounts.
#[derive(Clone, Copy, Debug, PartialEq, Eq, Structural)]
pub struct Requester {
    pub delay: RoundId,
    pub last_started_round: Option<RoundId>,
}

/// Round data as served by the feed interface.
#[derive(Clone, Copy, Debug, PartialEq, Eq, Structural)]
pub struct RoundData {
    pub started_at: BlockNumber,
    pub answer: Value,
    pub updated_at: BlockNumber,
    pub answered_in_round: RoundId,
}

/// Possible error when converting from `Round` to `RoundData`.
#[derive(Clone, Copy, Debug, PartialEq, Eq, Structural)]
pub enum RoundConversionError {
    MissingField,
}

impl RoundData {
    /// The answered data of a round; `MissingField` when the round is unanswered.
    pub open spec fn spec_try_from(r: Round) -> Result<RoundData, RoundConversionError> {
        if r.answered_in_round is None || r.answer is None || r.updated_at is None {
            Err(RoundConversionError::MissingField)
        } else {
            Ok(
                RoundData {
                    started_at: r.started_at,
                    answer: r.answer->0,
                    updated_at: r.updated_at->0,
                    answered_in_round: r.answered_in_round->0,
                },
            )
        }
    }

    /// Convert an answered round into round data.
    pub fn try_from(r: Round) -> (res: Result<RoundData, RoundConversionError>)
        ensures
            res == RoundData::spec_try_from(r),
    {
        match (r.answered_in_round, r.answer, r.updated_at) {
            (Some(answered_in_round), Some(answer), Some(updated_at)) => Ok(
                RoundData { started_at: r.started_at, answer, updated_at, answered_in_round },
            ),
            _ => Err(RoundConversionError::MissingField),
        }
    }

    pub open spec fn spec_into_round(self) -> Round {
        Round {
            started_at: self.started_at,
            answer: Some(self.answer),
            updated_at: Some(self.updated_at),
            answered_in_round: Some(self.answered_in_round),
        }
    }

    /// The round holding this data as its answer.
    pub fn into_round(self) -> (r: Round)
        ensures
            r == self.spec_into_round(),
    {
        Round {
            started_at: self.started_at,
            answer: Some(self.answer),
            updated_at: Some(self.updated_at),
            answered_in_round: Some(self.answered_in_round),
        }
    }
}

/// Events of the feed pallet.
#[derive(Clone, Copy, Debug, PartialEq, Eq)]
pub enum Event {
    /// A new oracle feed was created. \[feed_id, creator\]
    FeedCreated(FeedId, AccountId),
    /// A new round was started. \[new_round_id, initiator, started_at\]
    NewRound(FeedId, RoundId, AccountId, BlockNumber),
    /// A submission was recorded. \[feed_id, round_id, submission, oracle\]
    SubmissionReceived(FeedId, RoundId, Value, AccountId),
    /// The answer for the round was updated. \[feed_id, round_id, new_answer, updated_at_block\]
    AnswerUpdated(FeedId, RoundId, Value, BlockNumber),
    /// The round details were updated. \[feed_id, payment, submission_count_bounds, restart_delay, timeout\]
    RoundDetailsUpdated(FeedId, Balance, (u32, u32), RoundId, BlockNumber),
    /// An admin change was requested for the given oracle. \[oracle, admin, pending_admin\]
    OracleAdminUpdateRequested(AccountId, AccountId, AccountId),
    /// The admin change was executed. \[oracle, new_admin\]
    OracleAdminUpdated(AccountId, AccountId),
    /// The submission permissions for the given feed and oracle have been updated. \[feed, oracle, enabled\]
    OraclePermissionsUpdated(FeedId, AccountId, bool),
    /// The requester permissions have been updated (set or removed). \[feed, requester, authorized, delays\]
    RequesterPermissionsSet(FeedId, AccountId, bool, RoundId),
    /// An owner change was requested for the given feed. \[feed, old_owner, new_owner\]
    OwnerUpdateRequested(FeedId, AccountId, AccountId),
    /// The owner change was executed. \[feed, new_owner\]
    OwnerUpdated(FeedId, AccountId),
    /// A pallet admin change was requested. \[old_pallet_admin, new_pallet_admin\]
    PalletAdminUpdateRequested(AccountId, AccountId),
    /// The pallet admin change was executed. \[new_admin\]
    PalletAdminUpdated(AccountId),
    /// The account is allowed to create feeds. \[new_creator\]
    FeedCreator(AccountId),
    /// The account is no longer allowed to create feeds. \[previously_creator\]
    FeedCreatorRemoved(AccountId),
}

/// Errors of the feed pallet.
#[derive(Clone, Copy, Debug, PartialEq, Eq, Structural)]
pub enum Error {
    /// The call does not come from a signed origin.
    BadOrigin,
    /// The currency refused to reserve or transfer funds.
    Currency,
    /// A math operation lead to an overflow.
    Overflow,
    /// Given account id is not an oracle
    NotOracle,
    /// The oracle cannot submit as it is not enabled yet.
    OracleNotEnabled,
    /// The oracle has an ending round lower than the current round.
    OracleDisabled,
    /// More oracles were passed for disabling than are present.
    NotEnoughOracles,
    /// The oracle cannot report for past rounds.
    ReportingOrder,
    /// Requested feed not present.
    FeedNotFound,
    /// Requested round not present.
    RoundNotFound,
    /// The specified account does not have requester permissions stored.
    RequesterNotFound,
    /// New round cannot be requested to supersede current round.
    RoundNotSupersedable,
    /// No oracle meta data found for the given account.
    OracleNotFound,
    /// Submissions are not accepted for the specified round.
    NotAcceptingSubmissions,
    /// Oracle submission is below the minimum value.
    SubmissionBelowMinimum,
    /// Oracle submission is above the maximum value.
    SubmissionAboveMaximum,
    /// The description string is too long.
    DescriptionTooLong,
    /// Tried to add too many oracles.
    OraclesLimitExceeded,
    /// The oracle was already enabled.
    AlreadyEnabled,
    /// The oracle address cannot change its associated admin.
    OwnerCannotChangeAdmin,
    /// Only the owner of a feed can change the configuration.
    NotFeedOwner,
    /// Only the pending owner of a feed can accept the transfer invitation.
    NotPendingOwner,
    /// The specified min/max pair was invalid.
    WrongBounds,
    /// The maximum number of oracles cannot exceed the amount of available oracles.
    MaxExceededTotal,
    /// The round initiation delay cannot be equal to or greater than the number of oracles.
    DelayNotBelowCount,
    /// Sender is not admin. Admin privilege can only be transferred by the admin.
    NotAdmin,
    /// Only the pending admin can accept the transfer.
    NotPendingAdmin,
    /// The requester cannot request a new round, yet.
    CannotRequestRoundYet,
    /// No requester permissions associated with the given account.
    NotAuthorizedRequester,
    /// Cannot withdraw funds.
    InsufficientFunds,
    /// Funds cannot be withdrawn as the reserve would be critically low.
    InsufficientReserve,
    /// Only the pallet admin account can call this extrinsic.
    NotPalletAdmin,
    /// Only the pending admin can accept the transfer.
    NotPendingPalletAdmin,
    /// Round zero is not allowed to be pruned.
    CannotPruneRoundZero,
    /// The maximum number of feeds was reached.
    FeedLimitReached,
    /// The round cannot be superseded by a new round.
    NotSupersedable,
    /// The round cannot be started because it is not a valid new round.
    InvalidRound,
    /// The calling account is not allowed to create feeds.
    NotFeedCreator,
    /// The maximum debt of feeds was reached.
    MaxDebtReached,
}

/// The account that signed `origin`, or `BadOrigin`.
pub open spec fn spec_ensure_signed(origin: Origin) -> Result<AccountId, Error> {
    match origin {
        Origin::Signed(who) => Ok(who),
        _ => Err(Error::BadOrigin),
    }
}

/// The account that signed `origin`, or `BadOrigin`.
pub fn ensure_signed(origin: Origin) -> (r: Result<AccountId, Error>)
    ensures
        r == spec_ensure_signed(origin),
{
    match origin {
        Origin::Signed(who) => Ok(who),
        _ => Err(Error::BadOrigin),
    }
}

/// Storage key of the per-round data of a feed.
pub open spec fn round_key(feed: FeedId, round: RoundId) -> u64 {
    (feed as int * 0x1_0000_0000 + round as int) as u64
}

/// Storage key of per-account data of a feed.
pub open spec fn account_key(feed: FeedId, account: AccountId) -> u128 {
    (feed as int * 0x1_0000_0000_0000_0000 + account as int) as u128
}

pub fn round_key_of(feed: FeedId, round: RoundId) -> (k: u64)
    ensures
        k == round_key(feed, round),
{
    (feed as u64) * 0x1_0000_0000u64 + (round as u64)
}

pub fn account_key_of(feed: FeedId, account: AccountId) -> (k: u128)
    ensures
        k == account_key(feed, account),
{
    (feed as u128) * 0x1_0000_0000_0000_0000u128 + (account as u128)
}

/// Distinct feeds and accounts have distinct account keys.
pub proof fn lemma_account_key_injective(f1: FeedId, a1: AccountId, f2: FeedId, a2: AccountId)
    ensures
        account_key(f1, a1) == account_key(f2, a2) <==> (f1 == f2 && a1 == a2),
{
}

} // verus!
