//! The ledger's operations on balances: transfers, deposits and withdrawals,
//! slashing, reserves and locks, and the genesis balances.
use crate::orml::tokens::state::{lookup_ed, Tokens, TokensConfig, TokensView};
use crate::orml::tokens::types::{
    account_key, account_key_of, spec_total, AccountData, AccountId, Amount, Balance, BalanceLock,
    BalanceStatus, CurrencyId, Error, Event, ExistenceRequirement, LockIdentifier,
};
use crate::origin::Origin;
use vstd::prelude::*;

verus! {

broadcast use vstd::std_specs::hash::group_hash_axioms;

/// The largest lock amount (zero without locks).
pub open spec fn max_lock(locks: Seq<BalanceLock>) -> Balance
    decreases locks.len(),
{
    if locks.len() == 0 {
        0
    } else {
        let m = max_lock(locks.drop_last());
        if locks.last().amount > m {
            locks.last().amount
        } else {
            m
        }
    }
}

/// The locks after the first lock with `id` (left to right) is replaced by
/// what `replace` makes of it and `pending`; later locks with `id` are
/// dropped. Returns the locks and whether `pending` is still unused.
pub open spec fn replace_lock(locks: Seq<BalanceLock>, id: LockIdentifier, pending: Balance, extend: bool) -> (
    Seq<BalanceLock>,
    bool,
)
    decreases locks.len(),
{
    if locks.len() == 0 {
        (Seq::empty(), true)
    } else {
        let (kept, unused) = replace_lock(locks.drop_last(), id, pending, extend);
        let l = locks.last();
        if l.id == id {
            if unused {
                let amount = if extend && l.amount > pending {
                    l.amount
                } else {
                    pending
                };
                (kept.push(BalanceLock { id: l.id, amount }), false)
            } else {
                (kept, false)
            }
        } else {
            (kept.push(l), unused)
        }
    }
}

/// The locks after setting (or, with `extend`, extending) the lock `id` to `amount`.
pub open spec fn locks_with(locks: Seq<BalanceLock>, id: LockIdentifier, amount: Balance, extend: bool) -> Seq<
    BalanceLock,
> {
    let (kept, unused) = replace_lock(locks, id, amount, extend);
    if unused {
        kept.push(BalanceLock { id, amount })
    } else {
        kept
    }
}

/// The locks without those of identifier `id`.
pub open spec fn locks_without(locks: Seq<BalanceLock>, id: LockIdentifier) -> Seq<BalanceLock> {
    locks.filter(|l: BalanceLock| l.id != id)
}

impl TokensView {
    pub open spec fn set_free_balance(self, currency_id: CurrencyId, who: AccountId, v: Balance) -> TokensView {
        self.mutate_account(who, currency_id, AccountData { free: v, ..self.account(who, currency_id) })
    }

    pub open spec fn set_reserved_balance(self, currency_id: CurrencyId, who: AccountId, v: Balance) -> TokensView {
        self.mutate_account(who, currency_id, AccountData { reserved: v, ..self.account(who, currency_id) })
    }

    /// Transfer `amount` of free balance, allowing the source to be reaped.
    pub open spec fn transfer(self, currency_id: CurrencyId, from: AccountId, to: AccountId, amount: Balance) -> Result<
        TokensView,
        Error,
    > {
        self.transfer_core(currency_id, from, to, amount, ExistenceRequirement::AllowDeath, true)
    }

    /// Add `amount` to the free balance of `who`, and to the issuance.
    pub open spec fn deposit_into(self, currency_id: CurrencyId, who: AccountId, amount: Balance) -> Result<
        TokensView,
        Error,
    > {
        if amount == 0 {
            Ok(self)
        } else if self.issuance(currency_id) + amount > Balance::MAX {
            Err(Error::Overflow)
        } else {
            Ok(
                self.set_free_balance(
                    currency_id,
                    who,
                    (self.account(who, currency_id).free + amount) as Balance,
                ).set_issuance(currency_id, (self.issuance(currency_id) + amount) as Balance),
            )
        }
    }

    /// Remove `amount` from the free balance of `who`, and from the issuance.
    pub open spec fn withdraw_from(self, currency_id: CurrencyId, who: AccountId, amount: Balance) -> Result<
        TokensView,
        Error,
    > {
        if amount == 0 {
            Ok(self)
        } else {
            match self.ensure_can_withdraw(currency_id, who, amount) {
                Err(e) => Err(e),
                Ok(_) => Ok(
                    self.set_issuance(
                        currency_id,
                        (self.issuance(currency_id) - amount) as Balance,
                    ).set_free_balance(currency_id, who, (self.account(who, currency_id).free - amount) as Balance),
                ),
            }
        }
    }

    /// Slash `amount` from free then reserved balance, before the issuance is
    /// updated; returns the state and the part that could not be slashed.
    pub open spec fn slash_accounts(self, currency_id: CurrencyId, who: AccountId, amount: Balance) -> (
        TokensView,
        Balance,
    ) {
        let a = self.account(who, currency_id);
        let free_slashed = if a.free < amount { a.free } else { amount };
        let remaining = (amount - free_slashed) as Balance;
        let s1 = if free_slashed != 0 {
            self.set_free_balance(currency_id, who, (a.free - free_slashed) as Balance)
        } else {
            self
        };
        let reserved_slashed = if a.reserved < remaining { a.reserved } else { remaining };
        if remaining != 0 {
            (
                s1.set_reserved_balance(currency_id, who, (a.reserved - reserved_slashed) as Balance),
                (remaining - reserved_slashed) as Balance,
            )
        } else {
            (s1, remaining)
        }
    }

    /// Slash `amount` from free then reserved balance; returns the state and
    /// the part that could not be slashed.
    pub open spec fn slash(self, currency_id: CurrencyId, who: AccountId, amount: Balance) -> (TokensView, Balance) {
        if amount == 0 {
            (self, 0)
        } else {
            let (s2, rest) = self.slash_accounts(currency_id, who, amount);
            (s2.set_issuance(currency_id, (s2.issuance(currency_id) - (amount - rest)) as Balance), rest)
        }
    }

    /// Move `value` from free to reserved balance.
    pub open spec fn reserve(self, currency_id: CurrencyId, who: AccountId, value: Balance) -> Result<
        TokensView,
        Error,
    > {
        if value == 0 {
            Ok(self)
        } else {
            match self.ensure_can_withdraw(currency_id, who, value) {
                Err(e) => Err(e),
                Ok(_) => {
                    let a = self.account(who, currency_id);
                    Ok(
                        self.set_free_balance(currency_id, who, (a.free - value) as Balance).set_reserved_balance(
                            currency_id,
                            who,
                            (a.reserved + value) as Balance,
                        ).deposit(Event::Reserved(currency_id, who, value)),
                    )
                },
            }
        }
    }

    /// Move up to `value` from reserved to free balance; returns the state and
    /// the part that could not be moved.
    pub open spec fn unreserve(self, currency_id: CurrencyId, who: AccountId, value: Balance) -> (TokensView, Balance) {
        if value == 0 {
            (self, 0)
        } else {
            let a = self.account(who, currency_id);
            let actual = if a.reserved < value { a.reserved } else { value };
            (
                self.set_reserved_balance(currency_id, who, (a.reserved - actual) as Balance).set_free_balance(
                    currency_id,
                    who,
                    (a.free + actual) as Balance,
                ).deposit(Event::Unreserved(currency_id, who, actual)),
                (value - actual) as Balance,
            )
        }
    }

    /// How much of `value` the reserved balance covers.
    pub open spec fn reserved_slash_amount(self, currency_id: CurrencyId, who: AccountId, value: Balance) -> Balance {
        let reserved = self.account(who, currency_id).reserved;
        if reserved < value {
            reserved
        } else {
            value
        }
    }

    /// Slash up to `value` of reserved balance; returns the state and the part
    /// that could not be slashed.
    pub open spec fn slash_reserved(self, currency_id: CurrencyId, who: AccountId, value: Balance) -> (
        TokensView,
        Balance,
    ) {
        if value == 0 {
            (self, 0)
        } else {
            let actual = self.reserved_slash_amount(currency_id, who, value);
            let s1 = self.set_reserved_balance(
                currency_id,
                who,
                (self.account(who, currency_id).reserved - actual) as Balance,
            );
            (s1.set_issuance(currency_id, (s1.issuance(currency_id) - actual) as Balance), (value - actual) as Balance)
        }
    }

    /// Move up to `value` of reserved balance of `slashed` to `beneficiary`,
    /// free or reserved; returns the state and the part that could not be moved.
    pub open spec fn repatriate_reserved(
        self,
        currency_id: CurrencyId,
        slashed: AccountId,
        beneficiary: AccountId,
        value: Balance,
        status: BalanceStatus,
    ) -> (TokensView, Balance) {
        if value == 0 {
            (self, 0)
        } else if slashed == beneficiary {
            match status {
                BalanceStatus::Free => self.unreserve(currency_id, slashed, value),
                BalanceStatus::Reserved => {
                    let reserved = self.account(slashed, currency_id).reserved;
                    (self, if value > reserved { (value - reserved) as Balance } else { 0 })
                },
            }
        } else {
            let from = self.account(slashed, currency_id);
            let to = self.account(beneficiary, currency_id);
            let actual = if from.reserved < value { from.reserved } else { value };
            let s1 = match status {
                BalanceStatus::Free => self.set_free_balance(currency_id, beneficiary, (to.free + actual) as Balance),
                BalanceStatus::Reserved => self.set_reserved_balance(
                    currency_id,
                    beneficiary,
                    (to.reserved + actual) as Balance,
                ),
            };
            (s1.set_reserved_balance(currency_id, slashed, (from.reserved - actual) as Balance), (value - actual) as Balance)
        }
    }

    /// Replace the locks of an account: the frozen balance becomes the largest
    /// lock, then the locks are stored (or removed when there are none) and
    /// the consumer reference follows. Too many locks fail after the frozen
    /// balance was updated.
    pub open spec fn update_locks(self, currency_id: CurrencyId, who: AccountId, locks: Seq<BalanceLock>) -> (
        TokensView,
        Result<(), Error>,
    ) {
        let s1 = self.mutate_account(
            who,
            currency_id,
            AccountData { frozen: max_lock(locks), ..self.account(who, currency_id) },
        );
        let k = account_key(who, currency_id);
        let existed = s1.locks.contains_key(k);
        if locks.len() == 0 {
            let s2 = TokensView { locks: s1.locks.remove(k), ..s1 };
            (if existed { s2.dec_consumers(who) } else { s2 }, Ok(()))
        } else if locks.len() > s1.config.max_locks {
            (s1, Err(Error::MaxLocksExceeded))
        } else {
            let s2 = TokensView { locks: s1.locks.insert(k, locks), ..s1 };
            (if !existed { s2.inc_consumers(who) } else { s2 }, Ok(()))
        }
    }

    /// Set (or, with `extend`, extend) a lock; a lock of zero changes nothing.
    pub open spec fn set_lock(
        self,
        lock_id: LockIdentifier,
        currency_id: CurrencyId,
        who: AccountId,
        amount: Balance,
        extend: bool,
    ) -> (TokensView, Result<(), Error>) {
        if amount == 0 {
            (self, Ok(()))
        } else {
            self.update_locks(currency_id, who, locks_with(self.lock_list(who, currency_id), lock_id, amount, extend))
        }
    }

    /// Remove the lock `lock_id`.
    pub open spec fn remove_lock(self, lock_id: LockIdentifier, currency_id: CurrencyId, who: AccountId) -> (
        TokensView,
        Result<(), Error>,
    ) {
        self.update_locks(currency_id, who, locks_without(self.lock_list(who, currency_id), lock_id))
    }
}

/// Whether the signed origin of a call, or the error.
pub fn ensure_signed(origin: Origin) -> (r: Result<AccountId, Error>)
    ensures
        match origin {
            Origin::Signed(a) => r == Ok::<AccountId, Error>(a),
            _ => r == Err::<AccountId, Error>(Error::BadOrigin),
        },
{
    match origin {
        Origin::Signed(a) => Ok(a),
        _ => Err(Error::BadOrigin),
    }
}

fn copy_locks(v: &Vec<BalanceLock>) -> (r: Vec<BalanceLock>)
    ensures
        r@ == v@,
{
    let mut r: Vec<BalanceLock> = Vec::new();
    let mut i: usize = 0;
    while i < v.len()
        invariant
            i <= v.len(),
            r@ == v@.take(i as int),
        decreases v.len() - i,
    {
        r.push(v[i]);
        i = i + 1;
        proof {
            assert(r@ =~= v@.take(i as int));
        }
    }
    proof {
        assert(v@.take(v.len() as int) =~= v@);
    }
    r
}

impl Tokens {
    /// The minimum balance of a currency.
    pub fn minimum_balance(&self, currency_id: CurrencyId) -> (r: Balance)
        ensures
            r == self@.ed(currency_id),
    {
        self.ed(currency_id)
    }

    /// Free and reserved balance of an account.
    pub fn total_balance(&self, currency_id: CurrencyId, who: AccountId) -> (r: Balance)
        ensures
            r == spec_total(self@.account(who, currency_id)),
    {
        self.accounts(who, currency_id).total()
    }

    /// The free balance of an account.
    pub fn free_balance(&self, currency_id: CurrencyId, who: AccountId) -> (r: Balance)
        ensures
            r == self@.account(who, currency_id).free,
    {
        self.accounts(who, currency_id).free
    }

    /// The reserved balance of an account.
    pub fn reserved_balance(&self, currency_id: CurrencyId, who: AccountId) -> (r: Balance)
        ensures
            r == self@.account(who, currency_id).reserved,
    {
        self.accounts(who, currency_id).reserved
    }

    /// The locks of an account.
    pub fn locks(&self, who: AccountId, currency_id: CurrencyId) -> (r: Vec<BalanceLock>)
        ensures
            r@ == self@.lock_list(who, currency_id),
    {
        match self.locks.get(&account_key_of(who, currency_id)) {
            Some(l) => copy_locks(l),
            None => Vec::new(),
        }
    }

    /// Set the free balance of an account through the bookkeeping.
    pub fn set_free_balance(&mut self, currency_id: CurrencyId, who: AccountId, amount: Balance)
        ensures
            final(self)@ == old(self)@.set_free_balance(currency_id, who, amount),
    {
        let a = self.accounts(who, currency_id);
        self.mutate_account(who, currency_id, AccountData { free: amount, ..a });
    }

    /// Set the reserved balance of an account through the bookkeeping.
    pub fn set_reserved_balance(&mut self, currency_id: CurrencyId, who: AccountId, amount: Balance)
        ensures
            final(self)@ == old(self)@.set_reserved_balance(currency_id, who, amount),
    {
        let a = self.accounts(who, currency_id);
        self.mutate_account(who, currency_id, AccountData { reserved: amount, ..a });
    }

    /// Transfer some free balance from `from` to `to`; nothing changes on error.
    pub fn transfer(&mut self, currency_id: CurrencyId, from: AccountId, to: AccountId, amount: Balance) -> (r:
        Result<(), Error>)
        ensures
            match old(self)@.transfer(currency_id, from, to, amount) {
                Ok(s) => r is Ok && final(self)@ == s,
                Err(e) => r == Err::<(), Error>(e) && final(self)@ == old(self)@,
            },
    {
        self.transfer_core(currency_id, from, to, amount, ExistenceRequirement::AllowDeath, true)
    }

    /// Transfer some free balance, as the call signed by the sender: the
    /// transfer is announced.
    pub fn transfer_call(&mut self, origin: Origin, dest: AccountId, currency_id: CurrencyId, amount: Balance) -> (r:
        Result<(), Error>)
        ensures
            match origin {
                Origin::Signed(from) => match old(self)@.transfer(currency_id, from, dest, amount) {
                    Ok(s) => r is Ok && final(self)@ == s.deposit(Event::Transfer(currency_id, from, dest, amount)),
                    Err(e) => r == Err::<(), Error>(e) && final(self)@ == old(self)@,
                },
                _ => r == Err::<(), Error>(Error::BadOrigin) && final(self)@ == old(self)@,
            },
    {
        let from = ensure_signed(origin)?;
        self.transfer(currency_id, from, dest, amount)?;
        self.deposit_event(Event::Transfer(currency_id, from, dest, amount));
        Ok(())
    }

    /// Transfer all the free balance of the sender in a currency.
    pub fn transfer_all_call(&mut self, origin: Origin, dest: AccountId, currency_id: CurrencyId) -> (r: Result<
        (),
        Error,
    >)
        ensures
            match origin {
                Origin::Signed(from) => {
                    let balance = old(self)@.account(from, currency_id).free;
                    match old(self)@.transfer(currency_id, from, dest, balance) {
                        Ok(s) => r is Ok && final(self)@ == s.deposit(
                            Event::Transfer(currency_id, from, dest, balance),
                        ),
                        Err(e) => r == Err::<(), Error>(e) && final(self)@ == old(self)@,
                    }
                },
                _ => r == Err::<(), Error>(Error::BadOrigin) && final(self)@ == old(self)@,
            },
    {
        let from = ensure_signed(origin)?;
        let balance = self.free_balance(currency_id, from);
        self.transfer(currency_id, from, dest, balance)?;
        self.deposit_event(Event::Transfer(currency_id, from, dest, balance));
        Ok(())
    }

    /// Add `amount` to the free balance of `who`, and to the total issuance.
    pub fn deposit(&mut self, currency_id: CurrencyId, who: AccountId, amount: Balance) -> (r: Result<(), Error>)
        requires
            old(self)@.issuance(currency_id) + amount <= Balance::MAX ==> old(self)@.account(who, currency_id).free
                + amount <= Balance::MAX,
        ensures
            match old(self)@.deposit_into(currency_id, who, amount) {
                Ok(s) => r is Ok && final(self)@ == s,
                Err(e) => r == Err::<(), Error>(e) && final(self)@ == old(self)@,
            },
    {
        if amount == 0 {
            return Ok(());
        }
        let issuance = self.total_issuance(currency_id);
        let new_issuance = match issuance.checked_add(amount) {
            Some(v) => v,
            None => return Err(Error::Overflow),
        };
        let free = self.free_balance(currency_id, who);
        self.set_free_balance(currency_id, who, free + amount);
        self.set_issuance(currency_id, new_issuance);
        Ok(())
    }

    /// Remove `amount` from the free balance of `who`, and from the total issuance.
    pub fn withdraw(&mut self, currency_id: CurrencyId, who: AccountId, amount: Balance) -> (r: Result<(), Error>)
        requires
            old(self)@.ensure_can_withdraw(currency_id, who, amount) is Ok ==> amount <= old(self)@.issuance(
                currency_id,
            ),
        ensures
            match old(self)@.withdraw_from(currency_id, who, amount) {
                Ok(s) => r is Ok && final(self)@ == s,
                Err(e) => r == Err::<(), Error>(e) && final(self)@ == old(self)@,
            },
    {
        if amount == 0 {
            return Ok(());
        }
        self.ensure_can_withdraw(currency_id, who, amount)?;
        let issuance = self.total_issuance(currency_id);
        self.set_issuance(currency_id, issuance - amount);
        let free = self.free_balance(currency_id, who);
        self.set_free_balance(currency_id, who, free - amount);
        Ok(())
    }

    /// Whether `value` of free balance can be slashed from `who`.
    pub fn can_slash(&self, currency_id: CurrencyId, who: AccountId, value: Balance) -> (r: bool)
        ensures
            r == (value == 0 || self@.account(who, currency_id).free >= value),
    {
        if value == 0 {
            return true;
        }
        self.free_balance(currency_id, who) >= value
    }

    /// Slash `amount` from the free balance, then from the reserved balance;
    /// returns the part that could not be slashed.
    pub fn slash(&mut self, currency_id: CurrencyId, who: AccountId, amount: Balance) -> (r: Balance)
        requires
            amount != 0 ==> amount - old(self)@.slash_accounts(currency_id, who, amount).1 <= old(
                self,
            )@.slash_accounts(currency_id, who, amount).0.issuance(currency_id),
        ensures
            (final(self)@, r) == old(self)@.slash(currency_id, who, amount),
    {
        if amount == 0 {
            return 0;
        }
        let a = self.accounts(who, currency_id);
        let free_slashed = if a.free < amount { a.free } else { amount };
        let mut remaining = amount - free_slashed;
        if free_slashed != 0 {
            self.set_free_balance(currency_id, who, a.free - free_slashed);
        }
        if remaining != 0 {
            let reserved_slashed = if a.reserved < remaining { a.reserved } else { remaining };
            remaining = remaining - reserved_slashed;
            self.set_reserved_balance(currency_id, who, a.reserved - reserved_slashed);
        }
        let issuance = self.total_issuance(currency_id);
        self.set_issuance(currency_id, issuance - (amount - remaining));
        remaining
    }

    /// Add a signed amount to the free balance: a deposit when positive, a
    /// withdrawal of its absolute value (saturating) when negative.
    pub fn update_balance(&mut self, currency_id: CurrencyId, who: AccountId, by_amount: Amount) -> (r: Result<
        (),
        Error,
    >)
        requires
            by_amount > 0 ==> (old(self)@.issuance(currency_id) + by_amount <= Balance::MAX ==> old(
                self,
            )@.account(who, currency_id).free + by_amount <= Balance::MAX),
            by_amount < 0 ==> (old(self)@.ensure_can_withdraw(
                currency_id,
                who,
                (if by_amount == Amount::MIN { Amount::MAX as int } else { -by_amount }) as Balance,
            ) is Ok ==> (if by_amount == Amount::MIN { Amount::MAX as int } else { -by_amount }) <= old(
                self,
            )@.issuance(currency_id)),
        ensures
            by_amount == 0 ==> r is Ok && final(self)@ == old(self)@,
            by_amount > 0 ==> match old(self)@.deposit_into(currency_id, who, by_amount as Balance) {
                Ok(s) => r is Ok && final(self)@ == s,
                Err(e) => r == Err::<(), Error>(e) && final(self)@ == old(self)@,
            },
            by_amount < 0 ==> match old(self)@.withdraw_from(
                currency_id,
                who,
                (if by_amount == Amount::MIN { Amount::MAX as int } else { -by_amount }) as Balance,
            ) {
                Ok(s) => r is Ok && final(self)@ == s,
                Err(e) => r == Err::<(), Error>(e) && final(self)@ == old(self)@,
            },
    {
        if by_amount == 0 {
            return Ok(());
        }
        let by_amount_abs: Amount = if by_amount == Amount::MIN {
            Amount::MAX
        } else if by_amount < 0 {
            -by_amount
        } else {
            by_amount
        };
        let by_balance = by_amount_abs as Balance;
        if by_amount > 0 {
            self.deposit(currency_id, who, by_balance)
        } else {
            self.withdraw(currency_id, who, by_balance)
        }
    }

    /// Whether `value` can be reserved.
    pub fn can_reserve(&self, currency_id: CurrencyId, who: AccountId, value: Balance) -> (r: bool)
        ensures
            r == (value == 0 || self@.ensure_can_withdraw(currency_id, who, value) is Ok),
    {
        if value == 0 {
            return true;
        }
        self.ensure_can_withdraw(currency_id, who, value).is_ok()
    }

    /// Move `value` from free to reserved balance.
    pub fn reserve(&mut self, currency_id: CurrencyId, who: AccountId, value: Balance) -> (r: Result<(), Error>)
        requires
            value != 0 && old(self)@.ensure_can_withdraw(currency_id, who, value) is Ok ==> old(self)@.account(
                who,
                currency_id,
            ).reserved + value <= Balance::MAX,
        ensures
            match old(self)@.reserve(currency_id, who, value) {
                Ok(s) => r is Ok && final(self)@ == s,
                Err(e) => r == Err::<(), Error>(e) && final(self)@ == old(self)@,
            },
    {
        if value == 0 {
            return Ok(());
        }
        self.ensure_can_withdraw(currency_id, who, value)?;
        let a = self.accounts(who, currency_id);
        self.set_free_balance(currency_id, who, a.free - value);
        self.set_reserved_balance(currency_id, who, a.reserved + value);
        self.deposit_event(Event::Reserved(currency_id, who, value));
        Ok(())
    }

    /// Move up to `value` from reserved to free balance; returns the part that
    /// could not be moved.
    pub fn unreserve(&mut self, currency_id: CurrencyId, who: AccountId, value: Balance) -> (r: Balance)
        requires
            value != 0 ==> old(self)@.account(who, currency_id).free + (if old(self)@.account(
                who,
                currency_id,
            ).reserved < value {
                old(self)@.account(who, currency_id).reserved
            } else {
                value
            }) <= Balance::MAX,
        ensures
            (final(self)@, r) == old(self)@.unreserve(currency_id, who, value),
    {
        if value == 0 {
            return 0;
        }
        let a = self.accounts(who, currency_id);
        let actual = if a.reserved < value { a.reserved } else { value };
        self.set_reserved_balance(currency_id, who, a.reserved - actual);
        self.set_free_balance(currency_id, who, a.free + actual);
        self.deposit_event(Event::Unreserved(currency_id, who, actual));
        value - actual
    }

    /// Slash up to `value` of reserved balance; returns the part that could
    /// not be slashed.
    pub fn slash_reserved(&mut self, currency_id: CurrencyId, who: AccountId, value: Balance) -> (r: Balance)
        requires
            value != 0 ==> old(self)@.reserved_slash_amount(currency_id, who, value) <= old(
                self,
            )@.set_reserved_balance(
                currency_id,
                who,
                (old(self)@.account(who, currency_id).reserved - old(self)@.reserved_slash_amount(
                    currency_id,
                    who,
                    value,
                )) as Balance,
            ).issuance(currency_id),
        ensures
            (final(self)@, r) == old(self)@.slash_reserved(currency_id, who, value),
    {
        if value == 0 {
            return 0;
        }
        let reserved = self.reserved_balance(currency_id, who);
        let actual = if reserved < value { reserved } else { value };
        self.set_reserved_balance(currency_id, who, reserved - actual);
        let issuance = self.total_issuance(currency_id);
        self.set_issuance(currency_id, issuance - actual);
        value - actual
    }

    /// Move up to `value` of the reserved balance of `slashed` to
    /// `beneficiary`, into its free or reserved balance; returns the part
    /// that could not be moved.
    pub fn repatriate_reserved(
        &mut self,
        currency_id: CurrencyId,
        slashed: AccountId,
        beneficiary: AccountId,
        value: Balance,
        status: BalanceStatus,
    ) -> (r: Result<Balance, Error>)
        requires
            value != 0 ==> ({
                let from = old(self)@.account(slashed, currency_id);
                let to = old(self)@.account(beneficiary, currency_id);
                let actual: int = if from.reserved < value { from.reserved as int } else { value as int };
                if slashed == beneficiary {
                    status == BalanceStatus::Free ==> from.free + actual <= Balance::MAX
                } else {
                    match status {
                        BalanceStatus::Free => to.free + actual <= Balance::MAX,
                        BalanceStatus::Reserved => to.reserved + actual <= Balance::MAX,
                    }
                }
            }),
        ensures
            r is Ok,
            (final(self)@, r->Ok_0) == old(self)@.repatriate_reserved(currency_id, slashed, beneficiary, value, status),
    {
        if value == 0 {
            return Ok(0);
        }
        if slashed == beneficiary {
            return match status {
                BalanceStatus::Free => Ok(self.unreserve(currency_id, slashed, value)),
                BalanceStatus::Reserved => Ok(value.saturating_sub(self.reserved_balance(currency_id, slashed))),
            };
        }
        let from = self.accounts(slashed, currency_id);
        let to = self.accounts(beneficiary, currency_id);
        let actual = if from.reserved < value { from.reserved } else { value };
        match status {
            BalanceStatus::Free => {
                self.set_free_balance(currency_id, beneficiary, to.free + actual);
            },
            BalanceStatus::Reserved => {
                self.set_reserved_balance(currency_id, beneficiary, to.reserved + actual);
            },
        }
        self.set_reserved_balance(currency_id, slashed, from.reserved - actual);
        Ok(value - actual)
    }
}

/// The ledger after the genesis balances are endowed in turn: each sets the
/// free balance of its account and adds to the issuance of its currency.
pub open spec fn genesis_from(s: TokensView, balances: Seq<(AccountId, CurrencyId, Balance)>) -> TokensView
    decreases balances.len(),
{
    if balances.len() == 0 {
        s
    } else {
        let prev = genesis_from(s, balances.drop_last());
        let (who, currency_id, amount) = balances.last();
        let endowed = prev.mutate_account(who, currency_id, AccountData { free: amount, ..prev.account(who, currency_id) });
        endowed.set_issuance(currency_id, (endowed.issuance(currency_id) + amount) as Balance)
    }
}

/// Whether the issuance of no currency overflows while the genesis balances
/// are endowed.
pub open spec fn genesis_fits(s: TokensView, balances: Seq<(AccountId, CurrencyId, Balance)>) -> bool
    decreases balances.len(),
{
    if balances.len() == 0 {
        true
    } else {
        let prev = genesis_from(s, balances.drop_last());
        let (who, currency_id, amount) = balances.last();
        genesis_fits(s, balances.drop_last()) && prev.mutate_account(
            who,
            currency_id,
            AccountData { free: amount, ..prev.account(who, currency_id) },
        ).issuance(currency_id) + amount <= Balance::MAX
    }
}

/// The ledger after transferring all free balance of `source` to `dest`, in
/// each of the given currencies in turn; the first failure fails all.
pub open spec fn transfer_all_in(
    s: TokensView,
    source: AccountId,
    dest: AccountId,
    currencies: Seq<CurrencyId>,
) -> Result<TokensView, Error>
    decreases currencies.len(),
{
    if currencies.len() == 0 {
        Ok(s)
    } else {
        match transfer_all_in(s, source, dest, currencies.drop_last()) {
            Err(e) => Err(e),
            Ok(prev) => {
                let c = currencies.last();
                prev.transfer(c, source, dest, prev.account(source, c).free)
            },
        }
    }
}

impl Tokens {
    /// Replace the locks of an account (see `TokensView::update_locks`).
    fn update_locks(&mut self, currency_id: CurrencyId, who: AccountId, locks: Vec<BalanceLock>) -> (r: Result<
        (),
        Error,
    >)
        ensures
            (final(self)@, r) == old(self)@.update_locks(currency_id, who, locks@),
    {
        let mut frozen: Balance = 0;
        let mut i: usize = 0;
        while i < locks.len()
            invariant
                i <= locks.len(),
                frozen == max_lock(locks@.take(i as int)),
            decreases locks.len() - i,
        {
            proof {
                assert(locks@.take(i + 1).drop_last() =~= locks@.take(i as int));
            }
            if locks[i].amount > frozen {
                frozen = locks[i].amount;
            }
            i = i + 1;
        }
        proof {
            assert(locks@.take(locks.len() as int) =~= locks@);
        }
        let a = self.accounts(who, currency_id);
        self.mutate_account(who, currency_id, AccountData { frozen, ..a });
        let k = account_key_of(who, currency_id);
        let existed = self.locks.contains_key(&k);
        let ghost s1 = self@;
        if locks.len() == 0 {
            self.locks.remove(&k);
            proof {
                assert(self@.locks =~= s1.locks.remove(k));
            }
            if existed {
                self.dec_consumers(who);
            }
            Ok(())
        } else if locks.len() > self.config.max_locks as usize {
            Err(Error::MaxLocksExceeded)
        } else {
            let ghost lv = locks@;
            self.locks.insert(k, locks);
            proof {
                assert(self@.locks =~= s1.locks.insert(k, lv));
            }
            if !existed {
                self.inc_consumers(who);
            }
            Ok(())
        }
    }

    fn locks_with(&self, currency_id: CurrencyId, who: AccountId, lock_id: LockIdentifier, amount: Balance, extend: bool) -> (r:
        Vec<BalanceLock>)
        ensures
            r@ == locks_with(self@.lock_list(who, currency_id), lock_id, amount, extend),
    {
        let current = self.locks(who, currency_id);
        let mut kept: Vec<BalanceLock> = Vec::new();
        let mut unused = true;
        let mut i: usize = 0;
        while i < current.len()
            invariant
                i <= current.len(),
                (kept@, unused) == replace_lock(current@.take(i as int), lock_id, amount, extend),
            decreases current.len() - i,
        {
            proof {
                assert(current@.take(i + 1).drop_last() =~= current@.take(i as int));
            }
            let l = current[i];
            if l.id == lock_id {
                if unused {
                    let new_amount = if extend && l.amount > amount { l.amount } else { amount };
                    kept.push(BalanceLock { id: l.id, amount: new_amount });
                    unused = false;
                } else {
                    unused = false;
                }
            } else {
                kept.push(l);
            }
            i = i + 1;
        }
        proof {
            assert(current@.take(current.len() as int) =~= current@);
        }
        if unused {
            kept.push(BalanceLock { id: lock_id, amount });
        }
        kept
    }

    /// Set a lock on the balance of `who`: the lock `lock_id` is replaced, or
    /// added. A lock of zero changes nothing.
    pub fn set_lock(&mut self, lock_id: LockIdentifier, currency_id: CurrencyId, who: AccountId, amount: Balance) -> (r:
        Result<(), Error>)
        ensures
            (final(self)@, r) == old(self)@.set_lock(lock_id, currency_id, who, amount, false),
    {
        if amount == 0 {
            return Ok(());
        }
        let locks = self.locks_with(currency_id, who, lock_id, amount, false);
        self.update_locks(currency_id, who, locks)
    }

    /// Extend a lock on the balance of `who`: the lock `lock_id` keeps the
    /// larger of its amount and `amount`, or is added. A lock of zero changes
    /// nothing.
    pub fn extend_lock(&mut self, lock_id: LockIdentifier, currency_id: CurrencyId, who: AccountId, amount: Balance) -> (r:
        Result<(), Error>)
        ensures
            (final(self)@, r) == old(self)@.set_lock(lock_id, currency_id, who, amount, true),
    {
        if amount == 0 {
            return Ok(());
        }
        let locks = self.locks_with(currency_id, who, lock_id, amount, true);
        self.update_locks(currency_id, who, locks)
    }

    /// Remove the lock `lock_id` from the balance of `who`.
    pub fn remove_lock(&mut self, lock_id: LockIdentifier, currency_id: CurrencyId, who: AccountId) -> (r: Result<
        (),
        Error,
    >)
        ensures
            (final(self)@, r) == old(self)@.remove_lock(lock_id, currency_id, who),
    {
        let current = self.locks(who, currency_id);
        let mut kept: Vec<BalanceLock> = Vec::new();
        let mut i: usize = 0;
        while i < current.len()
            invariant
                i <= current.len(),
                kept@ == locks_without(current@.take(i as int), lock_id),
            decreases current.len() - i,
        {
            proof {
                reveal_with_fuel(Seq::filter, 1);
                assert(current@.take(i + 1).drop_last() =~= current@.take(i as int));
            }
            if current[i].id != lock_id {
                kept.push(current[i]);
            }
            i = i + 1;
        }
        proof {
            assert(current@.take(current.len() as int) =~= current@);
        }
        self.update_locks(currency_id, who, kept)
    }

    /// The ledger with the given configuration and genesis balances. Events
    /// of the genesis block are not kept.
    pub fn build_genesis(config: TokensConfig, balances: &Vec<(AccountId, CurrencyId, Balance)>) -> (t: Tokens)
        requires
            forall|i: int, j: int|
                0 <= i < j < balances@.len() ==> (balances@[i].0, balances@[i].1) != (
                    balances@[j].0,
                    balances@[j].1,
                ),
            forall|i: int|
                0 <= i < balances@.len() ==> #[trigger] balances@[i].2 >= lookup_ed(
                    config@.existential_deposits,
                    balances@[i].1,
                ),
            genesis_fits(Tokens::spec_new(config@), balances@),
        ensures
            t@ == (TokensView { events: Seq::empty(), ..genesis_from(Tokens::spec_new(config@), balances@) }),
    {
        let ghost c = config@;
        let mut t = Tokens::new(config);
        proof {
            assert(t@ == Tokens::spec_new(c));
            assert(balances@.take(0) =~= Seq::<(AccountId, CurrencyId, Balance)>::empty());
        }
        let mut i: usize = 0;
        while i < balances.len()
            invariant
                i <= balances.len(),
                genesis_fits(Tokens::spec_new(c), balances@),
                t@ == genesis_from(Tokens::spec_new(c), balances@.take(i as int)),
            decreases balances.len() - i,
        {
            let (who, currency_id, amount) = balances[i];
            proof {
                assert(balances@.take(i + 1).drop_last() =~= balances@.take(i as int));
                lemma_genesis_fits_prefix(Tokens::spec_new(c), balances@, i + 1);
            }
            let a = t.accounts(who, currency_id);
            t.mutate_account(who, currency_id, AccountData { free: amount, ..a });
            let issuance = t.total_issuance(currency_id);
            t.set_issuance(currency_id, issuance + amount);
            i = i + 1;
        }
        proof {
            assert(balances@.take(balances.len() as int) =~= balances@);
        }
        t.events = Vec::new();
        t
    }

    /// Transfer all free balance of `source` to `dest` in each of the given
    /// currencies, in turn; if one transfer fails, nothing changes. The
    /// currencies are those in which `source` holds an account (any others
    /// transfer nothing).
    pub fn transfer_all(&mut self, source: AccountId, dest: AccountId, currencies: &Vec<CurrencyId>) -> (r: Result<
        (),
        Error,
    >)
        ensures
            match transfer_all_in(old(self)@, source, dest, currencies@) {
                Ok(s) => r is Ok && final(self)@ == s,
                Err(e) => r == Err::<(), Error>(e) && final(self)@ == old(self)@,
            },
    {
        let checkpoint = self.checkpoint();
        let mut i: usize = 0;
        proof {
            assert(currencies@.take(0) =~= Seq::<CurrencyId>::empty());
        }
        while i < currencies.len()
            invariant
                i <= currencies.len(),
                checkpoint@ == old(self)@,
                transfer_all_in(old(self)@, source, dest, currencies@.take(i as int)) == Ok::<TokensView, Error>(self@),
            decreases currencies.len() - i,
        {
            let c = currencies[i];
            proof {
                assert(currencies@.take(i + 1).drop_last() =~= currencies@.take(i as int));
            }
            let free = self.free_balance(c, source);
            match self.transfer(c, source, dest, free) {
                Ok(_) => {},
                Err(e) => {
                    proof {
                        lemma_transfer_all_stops(old(self)@, source, dest, currencies@, i as int);
                    }
                    *self = checkpoint;
                    return Err(e);
                },
            }
            i = i + 1;
        }
        proof {
            assert(currencies@.take(currencies.len() as int) =~= currencies@);
        }
        Ok(())
    }
}

proof fn lemma_genesis_fits_prefix(s: TokensView, b: Seq<(AccountId, CurrencyId, Balance)>, n: int)
    requires
        0 <= n <= b.len(),
        genesis_fits(s, b),
    ensures
        genesis_fits(s, b.take(n)),
    decreases b.len(),
{
    if n < b.len() {
        assert(b.drop_last().take(n) =~= b.take(n));
        lemma_genesis_fits_prefix(s, b.drop_last(), n);
    } else {
        assert(b.take(n) =~= b);
    }
}

/// Once a transfer of the sequence fails, the whole sequence fails with it.
proof fn lemma_transfer_all_stops(s: TokensView, source: AccountId, dest: AccountId, cs: Seq<CurrencyId>, i: int)
    requires
        0 <= i < cs.len(),
        transfer_all_in(s, source, dest, cs.take(i + 1)) is Err,
    ensures
        transfer_all_in(s, source, dest, cs) == transfer_all_in(s, source, dest, cs.take(i + 1)),
    decreases cs.len(),
{
    if i + 1 < cs.len() {
        assert(cs.drop_last().take(i + 1) =~= cs.take(i + 1));
        lemma_transfer_all_stops(s, source, dest, cs.drop_last(), i);
    } else {
        assert(cs.take(i + 1) =~= cs);
    }
}

} // verus!
