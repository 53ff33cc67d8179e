//! The ledger seen as a set of fungible assets: inspection, minting and
//! burning, transfers that may keep the source alive, and balances on hold.
use crate::orml::tokens::state::{lemma_settle_frame, lemma_transfer_core_frame, Tokens, TokensView};
use crate::orml::tokens::types::{
    spec_total, AccountData, AccountId, Balance, BalanceStatus, CurrencyId, DepositConsequence, Error,
    ExistenceRequirement, WithdrawConsequence,
};
use vstd::prelude::*;

verus! {

/// A deposit consequence as a result.
pub open spec fn deposit_result(c: DepositConsequence) -> Result<(), Error> {
    match c {
        DepositConsequence::BelowMinimum => Err(Error::BelowMinimum),
        DepositConsequence::Overflow => Err(Error::Overflow),
        DepositConsequence::Success => Ok(()),
    }
}

/// A withdrawal consequence as a result: the dust that goes with it, if any.
pub open spec fn withdraw_result(c: WithdrawConsequence) -> Result<Balance, Error> {
    match c {
        WithdrawConsequence::Underflow => Err(Error::Underflow),
        WithdrawConsequence::NoFunds => Err(Error::NoFunds),
        WithdrawConsequence::WouldDie => Err(Error::WouldDie),
        WithdrawConsequence::Frozen => Err(Error::Frozen),
        WithdrawConsequence::ReducedToZero(r) => Ok(r),
        WithdrawConsequence::Success => Ok(0),
    }
}

impl DepositConsequence {
    /// The consequence as a result.
    pub fn into_result(self) -> (r: Result<(), Error>)
        ensures
            r == deposit_result(self),
    {
        match self {
            DepositConsequence::BelowMinimum => Err(Error::BelowMinimum),
            DepositConsequence::Overflow => Err(Error::Overflow),
            DepositConsequence::Success => Ok(()),
        }
    }
}

impl WithdrawConsequence {
    /// The consequence as a result.
    pub fn into_result(self) -> (r: Result<Balance, Error>)
        ensures
            r == withdraw_result(self),
    {
        match self {
            WithdrawConsequence::Underflow => Err(Error::Underflow),
            WithdrawConsequence::NoFunds => Err(Error::NoFunds),
            WithdrawConsequence::WouldDie => Err(Error::WouldDie),
            WithdrawConsequence::Frozen => Err(Error::Frozen),
            WithdrawConsequence::ReducedToZero(r) => Ok(r),
            WithdrawConsequence::Success => Ok(0),
        }
    }
}

impl TokensView {
    /// Whether `amount` could be deposited into an account holding `a`.
    pub open spec fn deposit_consequence(self, currency_id: CurrencyId, amount: Balance, a: AccountData) -> DepositConsequence {
        if amount == 0 {
            DepositConsequence::Success
        } else if self.issuance(currency_id) + amount > Balance::MAX {
            DepositConsequence::Overflow
        } else if spec_total(a) + amount > Balance::MAX {
            DepositConsequence::Overflow
        } else if spec_total(a) + amount < self.ed(currency_id) {
            DepositConsequence::BelowMinimum
        } else {
            DepositConsequence::Success
        }
    }

    /// Whether `amount` could be withdrawn from an account of `who` holding `a`.
    pub open spec fn withdraw_consequence(
        self,
        who: AccountId,
        currency_id: CurrencyId,
        amount: Balance,
        a: AccountData,
    ) -> WithdrawConsequence {
        if amount == 0 {
            WithdrawConsequence::Success
        } else if self.issuance(currency_id) < amount {
            WithdrawConsequence::Underflow
        } else if spec_total(a) < amount {
            WithdrawConsequence::NoFunds
        } else {
            let new_total = (spec_total(a) - amount) as Balance;
            if new_total < self.ed(currency_id) && !self.can_dec_provider(who) {
                WithdrawConsequence::WouldDie
            } else if a.free < amount {
                WithdrawConsequence::NoFunds
            } else if a.free - amount < a.frozen {
                WithdrawConsequence::Frozen
            } else if new_total < self.ed(currency_id) {
                WithdrawConsequence::ReducedToZero(new_total)
            } else {
                WithdrawConsequence::Success
            }
        }
    }

    /// The balance that can be withdrawn: what is neither reserved nor frozen,
    /// less what must remain for the account to exist when it must not die.
    pub open spec fn reducible_balance(self, currency_id: CurrencyId, who: AccountId, keep_alive: bool) -> Balance {
        let a = self.account(who, currency_id);
        let liquid: Balance = if a.free > a.frozen { (a.free - a.frozen) as Balance } else { 0 };
        if self.can_dec_provider(who) && !keep_alive {
            liquid
        } else {
            let locked = spec_total(a) - liquid;
            let must_remain: int = if self.ed(currency_id) > locked { self.ed(currency_id) - locked } else { 0 };
            if liquid > must_remain {
                (liquid - must_remain) as Balance
            } else {
                0
            }
        }
    }

    /// Mint `amount` into the free balance of `who`.
    pub open spec fn mint_into(self, currency_id: CurrencyId, who: AccountId, amount: Balance) -> Result<
        TokensView,
        Error,
    > {
        if amount == 0 {
            Ok(self)
        } else {
            let a = self.account(who, currency_id);
            match deposit_result(self.deposit_consequence(currency_id, amount, a)) {
                Err(e) => Err(e),
                Ok(_) => {
                    let s1 = self.mutate_account(who, currency_id, AccountData { free: (a.free + amount) as Balance, ..a });
                    Ok(s1.set_issuance(currency_id, (s1.issuance(currency_id) + amount) as Balance))
                },
            }
        }
    }

    /// What `burn_from` takes from the free balance: `amount` and the dust
    /// left behind.
    pub open spec fn burn_amount(self, currency_id: CurrencyId, who: AccountId, amount: Balance) -> Result<Balance, Error> {
        match withdraw_result(self.withdraw_consequence(who, currency_id, amount, self.account(who, currency_id))) {
            Err(e) => Err(e),
            Ok(extra) => Ok((amount + extra) as Balance),
        }
    }

    /// Burn `amount` from the free balance of `who`, with the dust it leaves;
    /// returns the state and what was burnt.
    pub open spec fn burn_from(self, currency_id: CurrencyId, who: AccountId, amount: Balance) -> Result<
        (TokensView, Balance),
        Error,
    > {
        if amount == 0 {
            Ok((self, 0))
        } else {
            match self.burn_amount(currency_id, who, amount) {
                Err(e) => Err(e),
                Ok(actual) => {
                    let a = self.account(who, currency_id);
                    let s1 = self.mutate_account(who, currency_id, AccountData { free: (a.free - actual) as Balance, ..a });
                    Ok((s1.set_issuance(currency_id, (s1.issuance(currency_id) - actual) as Balance), actual))
                },
            }
        }
    }

    /// Whether `amount` could be put on hold: the free balance must keep the
    /// larger of the minimum balance and the frozen balance besides it.
    pub open spec fn can_hold(self, currency_id: CurrencyId, who: AccountId, amount: Balance) -> bool {
        let a = self.account(who, currency_id);
        let min_balance = if self.ed(currency_id) > a.frozen { self.ed(currency_id) } else { a.frozen };
        a.reserved + amount <= Balance::MAX && min_balance + amount <= Balance::MAX && a.free >= min_balance + amount
    }

    /// Put `amount` on hold (reserve it).
    pub open spec fn hold(self, currency_id: CurrencyId, who: AccountId, amount: Balance) -> Result<TokensView, Error> {
        if amount == 0 {
            Ok(self)
        } else if !(self.ensure_can_withdraw(currency_id, who, amount) is Ok) {
            Err(Error::BalanceTooLow)
        } else {
            let a = self.account(who, currency_id);
            Ok(
                self.mutate_account(
                    who,
                    currency_id,
                    AccountData { free: (a.free - amount) as Balance, reserved: (a.reserved + amount) as Balance, ..a },
                ),
            )
        }
    }

    /// Release up to `amount` from hold; unless `best_effort`, all of it must
    /// be on hold. Returns the state and what was released.
    pub open spec fn release(self, currency_id: CurrencyId, who: AccountId, amount: Balance, best_effort: bool) -> Result<
        (TokensView, Balance),
        Error,
    > {
        if amount == 0 {
            Ok((self, 0))
        } else {
            let a = self.account(who, currency_id);
            let wanted = if amount < a.reserved { amount } else { a.reserved };
            let new_free: Balance = if a.free + wanted > Balance::MAX { Balance::MAX } else { (a.free + wanted) as Balance };
            let actual = (new_free - a.free) as Balance;
            if !(best_effort || actual == amount) {
                Err(Error::BalanceTooLow)
            } else {
                Ok(
                    (
                        self.mutate_account(
                            who,
                            currency_id,
                            AccountData { free: new_free, reserved: (a.reserved - actual) as Balance, ..a },
                        ),
                        actual,
                    ),
                )
            }
        }
    }
}

impl Tokens {
    /// Whether `amount` could be deposited into an account holding `a`.
    pub fn deposit_consequence(&self, currency_id: CurrencyId, amount: Balance, a: &AccountData) -> (r: DepositConsequence)
        ensures
            r == self@.deposit_consequence(currency_id, amount, *a),
    {
        if amount == 0 {
            return DepositConsequence::Success;
        }
        if self.total_issuance(currency_id).checked_add(amount).is_none() {
            return DepositConsequence::Overflow;
        }
        let new_total = match a.total().checked_add(amount) {
            Some(x) => x,
            None => return DepositConsequence::Overflow,
        };
        if new_total < self.ed(currency_id) {
            return DepositConsequence::BelowMinimum;
        }
        DepositConsequence::Success
    }

    /// Whether `amount` could be withdrawn from an account of `who` holding `a`.
    pub fn withdraw_consequence(&self, who: AccountId, currency_id: CurrencyId, amount: Balance, a: &AccountData) -> (r:
        WithdrawConsequence)
        ensures
            r == self@.withdraw_consequence(who, currency_id, amount, *a),
    {
        if amount == 0 {
            return WithdrawConsequence::Success;
        }
        if self.total_issuance(currency_id) < amount {
            return WithdrawConsequence::Underflow;
        }
        let new_total = match a.total().checked_sub(amount) {
            Some(x) => x,
            None => return WithdrawConsequence::NoFunds,
        };
        let ed = self.ed(currency_id);
        let success = if new_total < ed {
            if self.can_dec_provider(who) {
                WithdrawConsequence::ReducedToZero(new_total)
            } else {
                return WithdrawConsequence::WouldDie;
            }
        } else {
            WithdrawConsequence::Success
        };
        let new_free = match a.free.checked_sub(amount) {
            Some(b) => b,
            None => return WithdrawConsequence::NoFunds,
        };
        if new_free < a.frozen() {
            return WithdrawConsequence::Frozen;
        }
        success
    }

    /// The balance of `who` that can be withdrawn (see `TokensView::reducible_balance`).
    pub fn reducible_balance(&self, currency_id: CurrencyId, who: AccountId, keep_alive: bool) -> (r: Balance)
        ensures
            r == self@.reducible_balance(currency_id, who, keep_alive),
    {
        let a = self.accounts(who, currency_id);
        let liquid = a.free.saturating_sub(a.frozen);
        if self.can_dec_provider(who) && !keep_alive {
            liquid
        } else {
            let must_remain_to_exist = self.ed(currency_id).saturating_sub(a.total() - liquid);
            liquid.saturating_sub(must_remain_to_exist)
        }
    }

    /// Whether `amount` could be deposited into the account of `who`.
    pub fn can_deposit(&self, currency_id: CurrencyId, who: AccountId, amount: Balance) -> (r: DepositConsequence)
        ensures
            r == self@.deposit_consequence(currency_id, amount, self@.account(who, currency_id)),
    {
        let a = self.accounts(who, currency_id);
        self.deposit_consequence(currency_id, amount, &a)
    }

    /// Whether `amount` could be withdrawn from the account of `who`.
    pub fn can_withdraw(&self, currency_id: CurrencyId, who: AccountId, amount: Balance) -> (r: WithdrawConsequence)
        ensures
            r == self@.withdraw_consequence(who, currency_id, amount, self@.account(who, currency_id)),
    {
        let a = self.accounts(who, currency_id);
        self.withdraw_consequence(who, currency_id, amount, &a)
    }

    /// Mint `amount` into the free balance of `who`.
    pub fn mint_into(&mut self, currency_id: CurrencyId, who: AccountId, amount: Balance) -> (r: Result<(), Error>)
        ensures
            match old(self)@.mint_into(currency_id, who, amount) {
                Ok(s) => r is Ok && final(self)@ == s,
                Err(e) => r == Err::<(), Error>(e) && final(self)@ == old(self)@,
            },
    {
        if amount == 0 {
            return Ok(());
        }
        let a = self.accounts(who, currency_id);
        self.deposit_consequence(currency_id, amount, &a).into_result()?;
        let existed = self.has_account(who, currency_id);
        proof {
            lemma_settle_frame(self@, who, currency_id, existed, AccountData { free: (a.free + amount) as Balance, ..a }, true);
        }
        self.settle(who, currency_id, existed, AccountData { free: a.free + amount, ..a }, true);
        let issuance = self.total_issuance(currency_id);
        self.set_issuance(currency_id, issuance + amount);
        Ok(())
    }

    /// Burn `amount` from the free balance of `who`, with the dust it leaves;
    /// returns what was burnt.
    pub fn burn_from(&mut self, currency_id: CurrencyId, who: AccountId, amount: Balance) -> (r: Result<Balance, Error>)
        requires
            amount != 0 ==> (old(self)@.burn_amount(currency_id, who, amount) matches Ok(actual) ==> actual <= old(
                self,
            )@.account(who, currency_id).free && actual <= old(self)@.issuance(currency_id)),
        ensures
            match old(self)@.burn_from(currency_id, who, amount) {
                Ok((s, actual)) => r == Ok::<Balance, Error>(actual) && final(self)@ == s,
                Err(e) => r == Err::<Balance, Error>(e) && final(self)@ == old(self)@,
            },
    {
        if amount == 0 {
            return Ok(0);
        }
        let a = self.accounts(who, currency_id);
        let extra = self.withdraw_consequence(who, currency_id, amount, &a).into_result()?;
        proof {
            assert(old(self)@.burn_amount(currency_id, who, amount) == Ok::<Balance, Error>((amount + extra) as Balance));
        }
        let actual = amount + extra;
        let existed = self.has_account(who, currency_id);
        proof {
            lemma_settle_frame(self@, who, currency_id, existed, AccountData { free: (a.free - actual) as Balance, ..a }, true);
        }
        self.settle(who, currency_id, existed, AccountData { free: a.free - actual, ..a }, true);
        let issuance = self.total_issuance(currency_id);
        self.set_issuance(currency_id, issuance - actual);
        Ok(actual)
    }

    /// Transfer `amount` of free balance; with `keep_alive` the source must
    /// stay above the minimum balance. Returns the amount.
    pub fn transfer_keep_alive(
        &mut self,
        currency_id: CurrencyId,
        source: AccountId,
        dest: AccountId,
        amount: Balance,
        keep_alive: bool,
    ) -> (r: Result<Balance, Error>)
        ensures
            match old(self)@.transfer_core(
                currency_id,
                source,
                dest,
                amount,
                if keep_alive { ExistenceRequirement::KeepAlive } else { ExistenceRequirement::AllowDeath },
                true,
            ) {
                Ok(s) => r == Ok::<Balance, Error>(amount) && final(self)@ == s,
                Err(e) => r == Err::<Balance, Error>(e) && final(self)@ == old(self)@,
            },
    {
        let er = if keep_alive {
            ExistenceRequirement::KeepAlive
        } else {
            ExistenceRequirement::AllowDeath
        };
        self.transfer_core(currency_id, source, dest, amount, er, true)?;
        Ok(amount)
    }

    /// Set the free balance of `who`.
    pub fn set_balance(&mut self, currency_id: CurrencyId, who: AccountId, amount: Balance) -> (r: Result<(), Error>)
        ensures
            r is Ok,
            final(self)@ == old(self)@.set_free_balance(currency_id, who, amount),
    {
        self.set_free_balance(currency_id, who, amount);
        Ok(())
    }

    /// Set the total issuance of a currency.
    pub fn set_total_issuance(&mut self, currency_id: CurrencyId, amount: Balance)
        ensures
            final(self)@ == old(self)@.set_issuance(currency_id, amount),
    {
        self.set_issuance(currency_id, amount);
    }

    /// The balance of `who` on hold (reserved).
    pub fn balance_on_hold(&self, currency_id: CurrencyId, who: AccountId) -> (r: Balance)
        ensures
            r == self@.account(who, currency_id).reserved,
    {
        self.accounts(who, currency_id).reserved
    }

    /// Whether `amount` could be put on hold.
    pub fn can_hold(&self, currency_id: CurrencyId, who: AccountId, amount: Balance) -> (r: bool)
        ensures
            r == self@.can_hold(currency_id, who, amount),
    {
        let a = self.accounts(who, currency_id);
        let ed = self.ed(currency_id);
        let min_balance = if ed > a.frozen { ed } else { a.frozen };
        if a.reserved.checked_add(amount).is_none() {
            return false;
        }
        let required_free = match min_balance.checked_add(amount) {
            Some(x) => x,
            None => return false,
        };
        a.free >= required_free
    }

    /// Put `amount` on hold (reserve it).
    pub fn hold(&mut self, currency_id: CurrencyId, who: AccountId, amount: Balance) -> (r: Result<(), Error>)
        requires
            amount != 0 && old(self)@.ensure_can_withdraw(currency_id, who, amount) is Ok ==> old(self)@.account(
                who,
                currency_id,
            ).reserved + amount <= Balance::MAX,
        ensures
            match old(self)@.hold(currency_id, who, amount) {
                Ok(s) => r is Ok && final(self)@ == s,
                Err(e) => r == Err::<(), Error>(e) && final(self)@ == old(self)@,
            },
    {
        if amount == 0 {
            return Ok(());
        }
        if !self.can_reserve(currency_id, who, amount) {
            return Err(Error::BalanceTooLow);
        }
        let a = self.accounts(who, currency_id);
        self.mutate_account(who, currency_id, AccountData { free: a.free - amount, reserved: a.reserved + amount, ..a });
        Ok(())
    }

    /// Release up to `amount` from hold; unless `best_effort`, all of it must
    /// be on hold. Returns what was released.
    pub fn release(&mut self, currency_id: CurrencyId, who: AccountId, amount: Balance, best_effort: bool) -> (r: Result<
        Balance,
        Error,
    >)
        ensures
            match old(self)@.release(currency_id, who, amount, best_effort) {
                Ok((s, actual)) => r == Ok::<Balance, Error>(actual) && final(self)@ == s,
                Err(e) => r == Err::<Balance, Error>(e) && final(self)@ == old(self)@,
            },
    {
        if amount == 0 {
            return Ok(0);
        }
        let a = self.accounts(who, currency_id);
        let wanted = if amount < a.reserved { amount } else { a.reserved };
        let new_free = a.free.saturating_add(wanted);
        let actual = new_free - a.free;
        if !(best_effort || actual == amount) {
            return Err(Error::BalanceTooLow);
        }
        self.mutate_account(who, currency_id, AccountData { free: new_free, reserved: a.reserved - actual, ..a });
        Ok(actual)
    }

    /// Move held balance of `source` to `dest`, on hold or free; returns the
    /// part that could not be moved.
    pub fn transfer_held(
        &mut self,
        currency_id: CurrencyId,
        source: AccountId,
        dest: AccountId,
        amount: Balance,
        best_effort: bool,
        on_hold: bool,
    ) -> (r: Result<Balance, Error>)
        requires
            amount != 0 ==> ({
                let from = old(self)@.account(source, currency_id);
                let to = old(self)@.account(dest, currency_id);
                let actual: int = if from.reserved < amount { from.reserved as int } else { amount as int };
                if source == dest {
                    !on_hold ==> from.free + actual <= Balance::MAX
                } else if on_hold {
                    to.reserved + actual <= Balance::MAX
                } else {
                    to.free + actual <= Balance::MAX
                }
            }),
        ensures
            r is Ok,
            (final(self)@, r->Ok_0) == old(self)@.repatriate_reserved(
                currency_id,
                source,
                dest,
                amount,
                if on_hold { BalanceStatus::Reserved } else { BalanceStatus::Free },
            ),
    {
        let status = if on_hold { BalanceStatus::Reserved } else { BalanceStatus::Free };
        self.repatriate_reserved(currency_id, source, dest, amount, status)
    }
}

/// A transfer keeps the issuance of every currency, unless the ledger burns
/// dust.
pub proof fn law_transfer_keeps_issuance(
    s: TokensView,
    currency_id: CurrencyId,
    from: AccountId,
    to: AccountId,
    amount: Balance,
    existence: ExistenceRequirement,
)
    requires
        !(s.config.dust is Burn),
    ensures
        s.transfer_core(currency_id, from, to, amount, existence, true) matches Ok(t) ==> t.total_issuance
            == s.total_issuance,
{
    lemma_transfer_core_frame(s, currency_id, from, to, amount, existence, true);
}

} // verus!
