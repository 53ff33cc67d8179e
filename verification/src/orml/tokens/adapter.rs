//! One currency of the ledger seen as a single-currency balance pallet, with
//! imbalances for the funds it creates and destroys.
use crate::orml::tokens::imbalances::{NegativeImbalance, PositiveImbalance, SignedImbalance};
use crate::orml::tokens::state::{Tokens, TokensView};
use crate::orml::tokens::types::{
    spec_total, AccountData, AccountId, Balance, BalanceStatus, CurrencyId, Error, ExistenceRequirement,
    LockIdentifier,
};
use vstd::prelude::*;

verus! {

impl TokensView {
    /// Destroy `amount` of the issuance (at most all of it); returns the state
    /// and the amount destroyed.
    pub open spec fn burn_issuance(self, currency_id: CurrencyId, amount: Balance) -> (TokensView, Balance) {
        if amount == 0 {
            (self, 0)
        } else if self.issuance(currency_id) < amount {
            (self.set_issuance(currency_id, 0), self.issuance(currency_id))
        } else {
            (self.set_issuance(currency_id, (self.issuance(currency_id) - amount) as Balance), amount)
        }
    }

    /// Create `amount` of issuance (at most up to the largest value); returns
    /// the state and the amount created.
    pub open spec fn issue(self, currency_id: CurrencyId, amount: Balance) -> (TokensView, Balance) {
        if amount == 0 {
            (self, 0)
        } else if self.issuance(currency_id) + amount > Balance::MAX {
            (self.set_issuance(currency_id, Balance::MAX), (Balance::MAX - self.issuance(currency_id)) as Balance)
        } else {
            (self.set_issuance(currency_id, (self.issuance(currency_id) + amount) as Balance), amount)
        }
    }

    /// Slash `value` from free then reserved balance, leaving the issuance to
    /// the imbalance; returns the state, the amount slashed and the rest.
    pub open spec fn slash_balance(self, currency_id: CurrencyId, who: AccountId, value: Balance) -> (
        TokensView,
        Balance,
        Balance,
    ) {
        if value == 0 {
            (self, 0, value)
        } else {
            let a = self.account(who, currency_id);
            let free_slashed = if a.free < value { a.free } else { value };
            let remaining = (value - free_slashed) as Balance;
            let s1 = if free_slashed != 0 {
                self.set_free_balance(currency_id, who, (a.free - free_slashed) as Balance)
            } else {
                self
            };
            if remaining != 0 {
                let reserved_slashed = if a.reserved < remaining { a.reserved } else { remaining };
                (
                    s1.set_reserved_balance(currency_id, who, (a.reserved - reserved_slashed) as Balance),
                    (free_slashed + reserved_slashed) as Balance,
                    (remaining - reserved_slashed) as Balance,
                )
            } else {
                (s1, value, remaining)
            }
        }
    }

    /// Add `value` to the free balance of `who`, leaving the issuance to the imbalance.
    pub open spec fn deposit_into_existing(self, currency_id: CurrencyId, who: AccountId, value: Balance) -> Result<
        TokensView,
        Error,
    > {
        if value == 0 {
            Ok(self)
        } else if self.account(who, currency_id).free + value > Balance::MAX {
            Err(Error::Overflow)
        } else {
            Ok(self.set_free_balance(currency_id, who, (self.account(who, currency_id).free + value) as Balance))
        }
    }

    /// Take `value` from the free balance of `who`, leaving the issuance to
    /// the imbalance; with `KeepAlive` the account must stay above the minimum balance.
    pub open spec fn withdraw_balance(
        self,
        currency_id: CurrencyId,
        who: AccountId,
        value: Balance,
        liveness: ExistenceRequirement,
    ) -> Result<TokensView, Error> {
        if value == 0 {
            Ok(self)
        } else {
            let a = self.account(who, currency_id);
            if a.free < value {
                Err(Error::BalanceTooLow)
            } else {
                match self.ensure_can_withdraw(currency_id, who, value) {
                    Err(e) => Err(e),
                    Ok(_) => {
                        let a1 = AccountData { free: (a.free - value) as Balance, ..a };
                        let allow_death = liveness == ExistenceRequirement::AllowDeath && !self.is_provider_required(
                            who,
                        );
                        if !(allow_death || spec_total(a1) >= self.ed(currency_id)) {
                            Err(Error::KeepAlive)
                        } else {
                            Ok(self.mutate_account(who, currency_id, a1))
                        }
                    },
                }
            }
        }
    }

    /// Make the free balance of `who` be `value`, unless that would create an
    /// account below the minimum balance; returns the state and the signed
    /// difference (positive when the balance grew).
    pub open spec fn make_free_balance_be(self, currency_id: CurrencyId, who: AccountId, value: Balance) -> (
        TokensView,
        bool,
        Balance,
    ) {
        let a = self.account(who, currency_id);
        let with_reserved: int = if value + a.reserved > Balance::MAX { Balance::MAX as int } else { value + a.reserved };
        if !(with_reserved >= self.ed(currency_id) || self.has_account(who, currency_id)) {
            (self, true, 0)
        } else if a.free <= value {
            (self.mutate_account(who, currency_id, AccountData { free: value, ..a }), true, (value - a.free) as Balance)
        } else {
            (self.mutate_account(who, currency_id, AccountData { free: value, ..a }), false, (a.free - value) as Balance)
        }
    }
}

/// One currency of the ledger as a single-currency balance pallet.
#[derive(Clone, Copy, Debug, PartialEq, Eq, Structural)]
pub struct CurrencyAdapter {
    pub currency_id: CurrencyId,
}

impl CurrencyAdapter {
    pub fn total_balance(&self, tokens: &Tokens, who: AccountId) -> (r: Balance)
        ensures
            r == spec_total(tokens@.account(who, self.currency_id)),
    {
        tokens.total_balance(self.currency_id, who)
    }

    pub fn can_slash(&self, tokens: &Tokens, who: AccountId, value: Balance) -> (r: bool)
        ensures
            r == (value == 0 || tokens@.account(who, self.currency_id).free >= value),
    {
        tokens.can_slash(self.currency_id, who, value)
    }

    pub fn total_issuance(&self, tokens: &Tokens) -> (r: Balance)
        ensures
            r == tokens@.issuance(self.currency_id),
    {
        tokens.total_issuance(self.currency_id)
    }

    pub fn minimum_balance(&self, tokens: &Tokens) -> (r: Balance)
        ensures
            r == tokens@.ed(self.currency_id),
    {
        tokens.ed(self.currency_id)
    }

    pub fn free_balance(&self, tokens: &Tokens, who: AccountId) -> (r: Balance)
        ensures
            r == tokens@.account(who, self.currency_id).free,
    {
        tokens.free_balance(self.currency_id, who)
    }

    pub fn reserved_balance(&self, tokens: &Tokens, who: AccountId) -> (r: Balance)
        ensures
            r == tokens@.account(who, self.currency_id).reserved,
    {
        tokens.reserved_balance(self.currency_id, who)
    }

    /// Destroy up to `amount` of the issuance; the positive imbalance returned
    /// puts it back when settled.
    pub fn burn(&self, tokens: &mut Tokens, amount: Balance) -> (r: PositiveImbalance)
        ensures
            (final(tokens)@, r.amount) == old(tokens)@.burn_issuance(self.currency_id, amount),
            r.currency_id == self.currency_id,
    {
        if amount == 0 {
            return PositiveImbalance::zero(self.currency_id);
        }
        let issued = tokens.total_issuance(self.currency_id);
        let burnt = if issued < amount {
            tokens.set_issuance(self.currency_id, 0);
            issued
        } else {
            tokens.set_issuance(self.currency_id, issued - amount);
            amount
        };
        PositiveImbalance::new(self.currency_id, burnt)
    }

    /// Create up to `amount` of issuance; the negative imbalance returned
    /// takes it back when settled.
    pub fn issue(&self, tokens: &mut Tokens, amount: Balance) -> (r: NegativeImbalance)
        ensures
            (final(tokens)@, r.amount) == old(tokens)@.issue(self.currency_id, amount),
            r.currency_id == self.currency_id,
    {
        if amount == 0 {
            return NegativeImbalance::zero(self.currency_id);
        }
        let issued = tokens.total_issuance(self.currency_id);
        let created = match issued.checked_add(amount) {
            Some(v) => {
                tokens.set_issuance(self.currency_id, v);
                amount
            },
            None => {
                tokens.set_issuance(self.currency_id, Balance::MAX);
                Balance::MAX - issued
            },
        };
        NegativeImbalance::new(self.currency_id, created)
    }

    pub fn ensure_can_withdraw(&self, tokens: &Tokens, who: AccountId, amount: Balance) -> (r: Result<(), Error>)
        ensures
            r == tokens@.ensure_can_withdraw(self.currency_id, who, amount),
    {
        tokens.ensure_can_withdraw(self.currency_id, who, amount)
    }

    /// Transfer `value` of free balance from `source` to `dest`.
    pub fn transfer(
        &self,
        tokens: &mut Tokens,
        source: AccountId,
        dest: AccountId,
        value: Balance,
        existence: ExistenceRequirement,
    ) -> (r: Result<(), Error>)
        ensures
            match old(tokens)@.transfer_core(self.currency_id, source, dest, value, existence, true) {
                Ok(s) => r is Ok && final(tokens)@ == s,
                Err(e) => r == Err::<(), Error>(e) && final(tokens)@ == old(tokens)@,
            },
    {
        tokens.transfer_core(self.currency_id, source, dest, value, existence, true)
    }

    /// Slash `value` from free then reserved balance; the negative imbalance
    /// returned holds what was slashed, with the part that could not be.
    pub fn slash(&self, tokens: &mut Tokens, who: AccountId, value: Balance) -> (r: (NegativeImbalance, Balance))
        ensures
            (final(tokens)@, r.0.amount, r.1) == old(tokens)@.slash_balance(self.currency_id, who, value),
            r.0.currency_id == self.currency_id,
    {
        if value == 0 {
            return (NegativeImbalance::zero(self.currency_id), value);
        }
        let currency_id = self.currency_id;
        let a = tokens.accounts(who, currency_id);
        let free_slashed = if a.free < value { a.free } else { value };
        let mut remaining = value - free_slashed;
        if free_slashed != 0 {
            tokens.set_free_balance(currency_id, who, a.free - free_slashed);
        }
        if remaining != 0 {
            let reserved_slashed = if a.reserved < remaining { a.reserved } else { remaining };
            remaining = remaining - reserved_slashed;
            tokens.set_reserved_balance(currency_id, who, a.reserved - reserved_slashed);
            (NegativeImbalance::new(currency_id, free_slashed + reserved_slashed), remaining)
        } else {
            (NegativeImbalance::new(currency_id, value), remaining)
        }
    }

    /// Add `value` to the free balance of `who`; the positive imbalance
    /// returned adds it to the issuance when settled.
    pub fn deposit_into_existing(&self, tokens: &mut Tokens, who: AccountId, value: Balance) -> (r: Result<
        PositiveImbalance,
        Error,
    >)
        ensures
            match old(tokens)@.deposit_into_existing(self.currency_id, who, value) {
                Ok(s) => r == Ok::<PositiveImbalance, Error>(PositiveImbalance { currency_id: self.currency_id, amount: value })
                    && final(tokens)@ == s,
                Err(e) => r == Err::<PositiveImbalance, Error>(e) && final(tokens)@ == old(tokens)@,
            },
    {
        if value == 0 {
            return Ok(PositiveImbalance::zero(self.currency_id));
        }
        let new_total = match tokens.free_balance(self.currency_id, who).checked_add(value) {
            Some(v) => v,
            None => return Err(Error::Overflow),
        };
        tokens.set_free_balance(self.currency_id, who, new_total);
        Ok(PositiveImbalance::new(self.currency_id, value))
    }

    /// Add `value` to the free balance of `who`, or nothing when it does not fit.
    pub fn deposit_creating(&self, tokens: &mut Tokens, who: AccountId, value: Balance) -> (r: PositiveImbalance)
        ensures
            r.currency_id == self.currency_id,
            match old(tokens)@.deposit_into_existing(self.currency_id, who, value) {
                Ok(s) => r.amount == value && final(tokens)@ == s,
                Err(_) => r.amount == 0 && final(tokens)@ == old(tokens)@,
            },
    {
        match self.deposit_into_existing(tokens, who, value) {
            Ok(i) => i,
            Err(_) => PositiveImbalance::zero(self.currency_id),
        }
    }

    /// Take `value` from the free balance of `who`; the negative imbalance
    /// returned takes it from the issuance when settled.
    pub fn withdraw(&self, tokens: &mut Tokens, who: AccountId, value: Balance, liveness: ExistenceRequirement) -> (r:
        Result<NegativeImbalance, Error>)
        ensures
            match old(tokens)@.withdraw_balance(self.currency_id, who, value, liveness) {
                Ok(s) => r == Ok::<NegativeImbalance, Error>(NegativeImbalance { currency_id: self.currency_id, amount: value })
                    && final(tokens)@ == s,
                Err(e) => r == Err::<NegativeImbalance, Error>(e) && final(tokens)@ == old(tokens)@,
            },
    {
        if value == 0 {
            return Ok(NegativeImbalance::zero(self.currency_id));
        }
        let currency_id = self.currency_id;
        let a = tokens.accounts(who, currency_id);
        if a.free < value {
            return Err(Error::BalanceTooLow);
        }
        tokens.ensure_can_withdraw(currency_id, who, value)?;
        let a1 = AccountData { free: a.free - value, ..a };
        let ed = tokens.ed(currency_id);
        let allow_death = liveness == ExistenceRequirement::AllowDeath && !tokens.is_provider_required(who);
        if !(allow_death || a1.total() >= ed) {
            return Err(Error::KeepAlive);
        }
        tokens.mutate_account(who, currency_id, a1);
        Ok(NegativeImbalance::new(currency_id, value))
    }

    /// Make the free balance of `who` be `value`, unless that would create an
    /// account below the minimum balance; returns the imbalance.
    pub fn make_free_balance_be(&self, tokens: &mut Tokens, who: AccountId, value: Balance) -> (r: SignedImbalance)
        ensures
            ({
                let (s, positive, amount) = old(tokens)@.make_free_balance_be(self.currency_id, who, value);
                &&& final(tokens)@ == s
                &&& r == if positive {
                    SignedImbalance::Positive(PositiveImbalance { currency_id: self.currency_id, amount })
                } else {
                    SignedImbalance::Negative(NegativeImbalance { currency_id: self.currency_id, amount })
                }
            }),
    {
        let currency_id = self.currency_id;
        let a = tokens.accounts(who, currency_id);
        let existed = tokens.has_account(who, currency_id);
        let ed = tokens.ed(currency_id);
        if !(value.saturating_add(a.reserved) >= ed || existed) {
            return SignedImbalance::Positive(PositiveImbalance::zero(currency_id));
        }
        let imbalance = if a.free <= value {
            SignedImbalance::Positive(PositiveImbalance::new(currency_id, value - a.free))
        } else {
            SignedImbalance::Negative(NegativeImbalance::new(currency_id, a.free - value))
        };
        tokens.mutate_account(who, currency_id, AccountData { free: value, ..a });
        imbalance
    }

    pub fn can_reserve(&self, tokens: &Tokens, who: AccountId, value: Balance) -> (r: bool)
        ensures
            r == (value == 0 || tokens@.ensure_can_withdraw(self.currency_id, who, value) is Ok),
    {
        tokens.can_reserve(self.currency_id, who, value)
    }

    /// Slash up to `value` of reserved balance, taking it from the issuance;
    /// returns an empty imbalance and the part that could not be slashed.
    pub fn slash_reserved(&self, tokens: &mut Tokens, who: AccountId, value: Balance) -> (r: (NegativeImbalance, Balance))
        requires
            value != 0 ==> old(tokens)@.reserved_slash_amount(self.currency_id, who, value) <= old(
                tokens,
            )@.set_reserved_balance(
                self.currency_id,
                who,
                (old(tokens)@.account(who, self.currency_id).reserved - old(tokens)@.reserved_slash_amount(
                    self.currency_id,
                    who,
                    value,
                )) as Balance,
            ).issuance(self.currency_id),
        ensures
            r.0 == (NegativeImbalance { currency_id: self.currency_id, amount: 0 }),
            (final(tokens)@, r.1) == old(tokens)@.slash_reserved(self.currency_id, who, value),
    {
        let rest = tokens.slash_reserved(self.currency_id, who, value);
        (NegativeImbalance::zero(self.currency_id), rest)
    }

    pub fn reserve(&self, tokens: &mut Tokens, who: AccountId, value: Balance) -> (r: Result<(), Error>)
        requires
            value != 0 && old(tokens)@.ensure_can_withdraw(self.currency_id, who, value) is Ok ==> old(
                tokens,
            )@.account(who, self.currency_id).reserved + value <= Balance::MAX,
        ensures
            match old(tokens)@.reserve(self.currency_id, who, value) {
                Ok(s) => r is Ok && final(tokens)@ == s,
                Err(e) => r == Err::<(), Error>(e) && final(tokens)@ == old(tokens)@,
            },
    {
        tokens.reserve(self.currency_id, who, value)
    }

    pub fn unreserve(&self, tokens: &mut Tokens, who: AccountId, value: Balance) -> (r: Balance)
        requires
            value != 0 ==> old(tokens)@.account(who, self.currency_id).free + (if old(tokens)@.account(
                who,
                self.currency_id,
            ).reserved < value {
                old(tokens)@.account(who, self.currency_id).reserved
            } else {
                value
            }) <= Balance::MAX,
        ensures
            (final(tokens)@, r) == old(tokens)@.unreserve(self.currency_id, who, value),
    {
        tokens.unreserve(self.currency_id, who, value)
    }

    pub fn repatriate_reserved(
        &self,
        tokens: &mut Tokens,
        slashed: AccountId,
        beneficiary: AccountId,
        value: Balance,
        status: BalanceStatus,
    ) -> (r: Result<Balance, Error>)
        requires
            value != 0 ==> ({
                let from = old(tokens)@.account(slashed, self.currency_id);
                let to = old(tokens)@.account(beneficiary, self.currency_id);
                let actual: int = if from.reserved < value { from.reserved as int } else { value as int };
                if slashed == beneficiary {
                    status == BalanceStatus::Free ==> from.free + actual <= Balance::MAX
                } else {
                    match status {
                        BalanceStatus::Free => to.free + actual <= Balance::MAX,
                        BalanceStatus::Reserved => to.reserved + actual <= Balance::MAX,
                    }
                }
            }),
        ensures
            r is Ok,
            (final(tokens)@, r->Ok_0) == old(tokens)@.repatriate_reserved(
                self.currency_id,
                slashed,
                beneficiary,
                value,
                status,
            ),
    {
        tokens.repatriate_reserved(self.currency_id, slashed, beneficiary, value, status)
    }

    /// Set a lock; its failure is ignored.
    pub fn set_lock(&self, tokens: &mut Tokens, id: LockIdentifier, who: AccountId, amount: Balance)
        ensures
            final(tokens)@ == old(tokens)@.set_lock(id, self.currency_id, who, amount, false).0,
    {
        let _ = tokens.set_lock(id, self.currency_id, who, amount);
    }

    /// Extend a lock; its failure is ignored.
    pub fn extend_lock(&self, tokens: &mut Tokens, id: LockIdentifier, who: AccountId, amount: Balance)
        ensures
            final(tokens)@ == old(tokens)@.set_lock(id, self.currency_id, who, amount, true).0,
    {
        let _ = tokens.extend_lock(id, self.currency_id, who, amount);
    }

    /// Remove a lock; its failure is ignored.
    pub fn remove_lock(&self, tokens: &mut Tokens, id: LockIdentifier, who: AccountId)
        ensures
            final(tokens)@ == old(tokens)@.remove_lock(id, self.currency_id, who).0,
    {
        let _ = tokens.remove_lock(id, self.currency_id, who);
    }
}

} // verus!
