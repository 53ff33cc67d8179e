//! Types of the multi-currency token ledger.
use vstd::prelude::*;

verus! {

/// Accounts.
pub type AccountId = u64;

/// Currencies.
pub type CurrencyId = u32;

/// Balances.
pub type Balance = u64;

/// Signed balance changes.
pub type Amount = i64;

/// Identifier of a lock (eight bytes, read as a little-endian integer).
pub type LockIdentifier = u64;

/// A single lock on a balance. There can be many of these on an account and
/// they "overlap", so the same balance is frozen by multiple locks.
#[derive(Clone, Copy, Debug, PartialEq, Eq, Structural)]
pub struct BalanceLock {
    /// An identifier for this lock. Only one lock may be in existence for
    /// each identifier.
    pub id: LockIdentifier,
    /// The amount which the free balance may not drop below when this lock
    /// is in effect.
    pub amount: Balance,
}

/// Balance information for an account.
#[derive(Clone, Copy, Debug, PartialEq, Eq, Structural)]
pub struct AccountData {
    /// Non-reserved part of the balance. There may still be restrictions on
    /// this, but it is the total pool what may in principle be transferred,
    /// reserved.
    pub free: Balance,
    /// Balance which is reserved and may not be used at all.
    pub reserved: Balance,
    /// The amount that `free` may not drop below when withdrawing.
    pub frozen: Balance,
}

/// The empty account.
pub open spec fn zero_account() -> AccountData {
    AccountData { free: 0, reserved: 0, frozen: 0 }
}

/// Free and reserved balance together, saturating.
pub open spec fn spec_total(a: AccountData) -> Balance {
    if a.free + a.reserved > Balance::MAX {
        Balance::MAX
    } else {
        (a.free + a.reserved) as Balance
    }
}

impl AccountData {
    /// The empty account.
    pub fn zero() -> (r: AccountData)
        ensures
            r == zero_account(),
    {
        AccountData { free: 0, reserved: 0, frozen: 0 }
    }

    /// The frozen balance.
    pub fn frozen(&self) -> (r: Balance)
        ensures
            r == self.frozen,
    {
        self.frozen
    }

    /// Free and reserved balance together, saturating.
    pub fn total(&self) -> (r: Balance)
        ensures
            r == spec_total(*self),
    {
        self.free.saturating_add(self.reserved)
    }
}

/// Events of the ledger.
#[derive(Clone, Copy, Debug, PartialEq, Eq, Structural)]
pub enum Event {
    /// An account was created with some free balance. \[currency_id, account, free_balance\]
    Endowed(CurrencyId, AccountId, Balance),
    /// An account was removed whose balance was non-zero but below
    /// ExistentialDeposit, resulting in an outright loss. \[currency_id, account, balance\]
    DustLost(CurrencyId, AccountId, Balance),
    /// Transfer succeeded. \[currency_id, from, to, value\]
    Transfer(CurrencyId, AccountId, AccountId, Balance),
    /// Some balance was reserved (moved from free to reserved). \[currency_id, who, value\]
    Reserved(CurrencyId, AccountId, Balance),
    /// Some balance was unreserved (moved from reserved to free). \[currency_id, who, value\]
    Unreserved(CurrencyId, AccountId, Balance),
}

/// Errors of the ledger.
#[derive(Clone, Copy, Debug, PartialEq, Eq, Structural)]
pub enum Error {
    /// The call does not come from a signed origin.
    BadOrigin,
    /// The balance is too low
    BalanceTooLow,
    /// Cannot convert Amount into Balance type
    AmountIntoBalanceFailed,
    /// Failed because liquidity restrictions due to locking
    LiquidityRestrictions,
    /// Failed because the maximum locks was exceeded
    MaxLocksExceeded,
    /// Transfer/payment would kill account
    KeepAlive,
    /// Value too low to create account due to existential deposit
    ExistentialDeposit,
    /// An arithmetic overflow.
    Overflow,
    /// An arithmetic underflow.
    Underflow,
    /// Funds are unavailable.
    NoFunds,
    /// The account would be reduced below the minimum balance and could not die.
    WouldDie,
    /// The account cannot be created with less than the minimum balance.
    BelowMinimum,
    /// The funds are frozen.
    Frozen,
}

/// Whether a transfer may kill its source account.
#[derive(Clone, Copy, Debug, PartialEq, Eq, Structural)]
pub enum ExistenceRequirement {
    /// Operation must not result in the account going out of existence.
    KeepAlive,
    /// Operation may result in account going out of existence.
    AllowDeath,
}

/// Where reserved balance goes when it is moved to another account.
#[derive(Clone, Copy, Debug, PartialEq, Eq, Structural)]
pub enum BalanceStatus {
    /// Funds are free, as corresponding to `free` item in Balances.
    Free,
    /// Funds are reserved, as corresponding to `reserved` item in Balances.
    Reserved,
}

/// What happens to the dust of an account that drops below the existential
/// deposit.
#[derive(Clone, Copy, Debug, PartialEq, Eq, Structural)]
pub enum DustHandler {
    /// The dust is transferred to the given (module) account.
    TransferTo(AccountId),
    /// The dust is burnt.
    Burn,
    /// The dust stays where it is.
    Keep,
}

/// The outcome of a prospective deposit.
#[derive(Clone, Copy, Debug, PartialEq, Eq, Structural)]
pub enum DepositConsequence {
    /// Deposit couldn't happen due to the amount being too low.
    BelowMinimum,
    /// An overflow would occur.
    Overflow,
    /// Account continued in existence.
    Success,
}

/// The outcome of a prospective withdrawal.
#[derive(Clone, Copy, Debug, PartialEq, Eq, Structural)]
pub enum WithdrawConsequence {
    /// There has been an underflow in the system.
    Underflow,
    /// Account balance would reduce to zero, potentially destroying it.
    NoFunds,
    /// The account would be reduced below the minimum balance and could not die.
    WouldDie,
    /// Account balance would reduce to zero but the rest of the balance is frozen.
    Frozen,
    /// Account continued in existence, but the remaining balance (the contained
    /// value) is dust and will be reaped.
    ReducedToZero(Balance),
    /// Account continued in existence.
    Success,
}

/// The storage key of an account's data in a currency.
pub open spec fn account_key(who: AccountId, currency_id: CurrencyId) -> u128 {
    (who as int * 0x1_0000_0000 + currency_id as int) as u128
}

pub fn account_key_of(who: AccountId, currency_id: CurrencyId) -> (k: u128)
    ensures
        k == account_key(who, currency_id),
{
    (who as u128) * 0x1_0000_0000u128 + (currency_id as u128)
}

/// Distinct accounts or currencies have distinct keys.
pub proof fn lemma_account_key_injective(w1: AccountId, c1: CurrencyId, w2: AccountId, c2: CurrencyId)
    ensures
        account_key(w1, c1) == account_key(w2, c2) <==> (w1 == w2 && c1 == c2),
{
}

} // verus!
