//! The storage of the ledger and the bookkeeping after an account changes:
//! reaping empty accounts, the account reference counts, the events, and the
//! dust of accounts left below the existential deposit.
use crate::orml::tokens::types::{
    account_key, account_key_of, spec_total, zero_account, AccountData, AccountId, Balance, BalanceLock,
    CurrencyId, DustHandler, Error, Event, ExistenceRequirement,
};
use std::collections::HashMap;
use vstd::prelude::*;

verus! {

broadcast use vstd::std_specs::hash::group_hash_axioms;

/// The configuration of the ledger.
pub struct TokensConfig {
    /// The minimum balance of an account, by currency (zero for currencies
    /// not listed; a later entry overrides an earlier one).
    pub existential_deposits: Vec<(CurrencyId, Balance)>,
    /// Accounts of modules, which may hold any balance.
    pub module_accounts: Vec<AccountId>,
    /// What happens to dust.
    pub dust: DustHandler,
    /// The most locks an account may hold in a currency.
    pub max_locks: u32,
}

/// The configuration as mathematical values.
pub struct ConfigView {
    pub existential_deposits: Seq<(CurrencyId, Balance)>,
    pub module_accounts: Seq<AccountId>,
    pub dust: DustHandler,
    pub max_locks: u32,
}

impl View for TokensConfig {
    type V = ConfigView;

    open spec fn view(&self) -> ConfigView {
        ConfigView {
            existential_deposits: self.existential_deposits@,
            module_accounts: self.module_accounts@,
            dust: self.dust,
            max_locks: self.max_locks,
        }
    }
}

/// The existential deposit of a currency: the last entry for it, or zero.
pub open spec fn lookup_ed(eds: Seq<(CurrencyId, Balance)>, currency_id: CurrencyId) -> Balance
    decreases eds.len(),
{
    if eds.len() == 0 {
        0
    } else if eds.last().0 == currency_id {
        eds.last().1
    } else {
        lookup_ed(eds.drop_last(), currency_id)
    }
}

/// The storage of the ledger as mathematical values.
pub struct TokensView {
    pub config: ConfigView,
    /// Account data by account key; only accounts with a non-zero total are stored.
    pub accounts: Map<u128, AccountData>,
    pub total_issuance: Map<CurrencyId, Balance>,
    pub locks: Map<u128, Seq<BalanceLock>>,
    /// The provider references of each account.
    pub providers: Map<AccountId, u32>,
    /// The consumer references of each account.
    pub consumers: Map<AccountId, u32>,
    pub events: Seq<Event>,
}

/// The storage of the ledger, with the account reference counts of the runtime.
pub struct Tokens {
    pub config: TokensConfig,
    pub accounts: HashMap<u128, AccountData>,
    pub total_issuance: HashMap<CurrencyId, Balance>,
    pub locks: HashMap<u128, Vec<BalanceLock>>,
    pub providers: HashMap<AccountId, u32>,
    pub consumers: HashMap<AccountId, u32>,
    pub events: Vec<Event>,
}

impl View for Tokens {
    type V = TokensView;

    open spec fn view(&self) -> TokensView {
        TokensView {
            config: self.config@,
            accounts: self.accounts@,
            total_issuance: self.total_issuance@,
            locks: self.locks@.map_values(|l: Vec<BalanceLock>| l@),
            providers: self.providers@,
            consumers: self.consumers@,
            events: self.events@,
        }
    }
}

impl TokensView {
    /// The minimum balance of a currency.
    pub open spec fn ed(self, currency_id: CurrencyId) -> Balance {
        lookup_ed(self.config.existential_deposits, currency_id)
    }

    /// Whether an account belongs to a module.
    pub open spec fn is_module(self, who: AccountId) -> bool {
        self.config.module_accounts.contains(who)
    }

    pub open spec fn has_account(self, who: AccountId, currency_id: CurrencyId) -> bool {
        self.accounts.contains_key(account_key(who, currency_id))
    }

    /// The data of an account (empty when it is not stored).
    pub open spec fn account(self, who: AccountId, currency_id: CurrencyId) -> AccountData {
        if self.has_account(who, currency_id) {
            self.accounts[account_key(who, currency_id)]
        } else {
            zero_account()
        }
    }

    pub open spec fn issuance(self, currency_id: CurrencyId) -> Balance {
        if self.total_issuance.contains_key(currency_id) {
            self.total_issuance[currency_id]
        } else {
            0
        }
    }

    pub open spec fn lock_list(self, who: AccountId, currency_id: CurrencyId) -> Seq<BalanceLock> {
        if self.locks.contains_key(account_key(who, currency_id)) {
            self.locks[account_key(who, currency_id)]
        } else {
            Seq::empty()
        }
    }

    pub open spec fn provider_count(self, who: AccountId) -> u32 {
        if self.providers.contains_key(who) {
            self.providers[who]
        } else {
            0
        }
    }

    pub open spec fn consumer_count(self, who: AccountId) -> u32 {
        if self.consumers.contains_key(who) {
            self.consumers[who]
        } else {
            0
        }
    }

    pub open spec fn deposit(self, e: Event) -> TokensView {
        TokensView { events: self.events.push(e), ..self }
    }

    pub open spec fn set_issuance(self, currency_id: CurrencyId, v: Balance) -> TokensView {
        TokensView { total_issuance: self.total_issuance.insert(currency_id, v), ..self }
    }

    /// Store an account, or remove it when its total is zero.
    pub open spec fn with_account(self, who: AccountId, currency_id: CurrencyId, a: AccountData) -> TokensView {
        if spec_total(a) == 0 {
            TokensView { accounts: self.accounts.remove(account_key(who, currency_id)), ..self }
        } else {
            TokensView { accounts: self.accounts.insert(account_key(who, currency_id), a), ..self }
        }
    }

    /// One more provider reference (saturating).
    pub open spec fn inc_providers(self, who: AccountId) -> TokensView {
        let p = self.provider_count(who);
        TokensView {
            providers: self.providers.insert(who, if p == u32::MAX { u32::MAX } else { (p + 1) as u32 }),
            ..self
        }
    }

    /// One provider reference less: the last one cannot go while consumers
    /// remain, and the account's references are dropped when it goes.
    pub open spec fn dec_providers(self, who: AccountId) -> TokensView {
        let p = self.provider_count(who);
        if p > 1 {
            TokensView { providers: self.providers.insert(who, (p - 1) as u32), ..self }
        } else if self.consumer_count(who) > 0 {
            self
        } else {
            TokensView {
                providers: self.providers.remove(who),
                consumers: self.consumers.remove(who),
                ..self
            }
        }
    }

    /// One more consumer reference, which needs a provider.
    pub open spec fn inc_consumers(self, who: AccountId) -> TokensView {
        let c = self.consumer_count(who);
        if self.provider_count(who) > 0 {
            TokensView {
                consumers: self.consumers.insert(who, if c == u32::MAX { u32::MAX } else { (c + 1) as u32 }),
                ..self
            }
        } else {
            self
        }
    }

    /// One consumer reference less.
    pub open spec fn dec_consumers(self, who: AccountId) -> TokensView {
        let c = self.consumer_count(who);
        if c > 0 {
            TokensView { consumers: self.consumers.insert(who, (c - 1) as u32), ..self }
        } else {
            self
        }
    }

    /// Whether the account needs to keep its last provider (it has consumers).
    pub open spec fn is_provider_required(self, who: AccountId) -> bool {
        self.consumer_count(who) != 0
    }

    /// Whether a provider reference of the account may go.
    pub open spec fn can_dec_provider(self, who: AccountId) -> bool {
        self.consumer_count(who) == 0 || self.provider_count(who) > 1
    }

    /// Whether an account's dust is handled once it holds `a`.
    pub open spec fn is_dust(self, who: AccountId, currency_id: CurrencyId, a: AccountData) -> bool {
        spec_total(a) != 0 && spec_total(a) < self.ed(currency_id) && !self.is_module(who)
    }

    /// The bookkeeping once an account that `existed` holds `a`: it is stored
    /// or reaped, its provider references follow, a new account is announced,
    /// and its dust, if any, is handled (when `dust` is set).
    pub open spec fn settle(
        self,
        who: AccountId,
        currency_id: CurrencyId,
        existed: bool,
        a: AccountData,
        dust: bool,
    ) -> TokensView
        decreases (if dust { 1int } else { 0int }), 2int,
    {
        let tot = spec_total(a);
        let s1 = self.with_account(who, currency_id, a);
        let s2 = if existed && tot == 0 {
            s1.dec_providers(who)
        } else if !existed && tot != 0 {
            s1.inc_providers(who)
        } else {
            s1
        };
        let s3 = if !existed {
            s2.deposit(Event::Endowed(currency_id, who, a.free))
        } else {
            s2
        };
        if dust && self.is_dust(who, currency_id, a) {
            s3.on_dust(who, currency_id, tot).deposit(Event::DustLost(currency_id, who, tot))
        } else {
            s3
        }
    }

    /// What the dust handler does with `amount` of an account's dust.
    pub open spec fn on_dust(self, who: AccountId, currency_id: CurrencyId, amount: Balance) -> TokensView
        decreases 1int, 1int,
    {
        match self.config.dust {
            DustHandler::TransferTo(d) => match self.transfer_core(
                currency_id,
                who,
                d,
                amount,
                ExistenceRequirement::AllowDeath,
                false,
            ) {
                Ok(s) => s,
                Err(_) => self,
            },
            DustHandler::Burn => self.burn_dust(who, currency_id, amount),
            DustHandler::Keep => self,
        }
    }

    /// Burning an account's dust: `amount` leaves its free balance and the
    /// issuance, when the free balance allows it; otherwise nothing changes.
    /// The dust is the account's whole balance, so once burnt the account is
    /// empty and leaves no dust of its own.
    pub open spec fn burn_dust(self, who: AccountId, currency_id: CurrencyId, amount: Balance) -> TokensView
        decreases 1int, 0int,
    {
        if amount == 0 {
            self
        } else {
            match self.ensure_can_withdraw(currency_id, who, amount) {
                Err(_) => self,
                Ok(_) => {
                    let s = self.set_issuance(
                        currency_id,
                        vstd::wrapping::u64_specs::wrapping_sub(self.issuance(currency_id), amount),
                    );
                    let a = AccountData { free: (s.account(who, currency_id).free - amount) as Balance, ..s.account(who, currency_id) };
                    s.settle(who, currency_id, s.has_account(who, currency_id), a, false)
                },
            }
        }
    }

    /// Whether `amount` can leave the free balance, given the frozen balance.
    pub open spec fn ensure_can_withdraw(self, currency_id: CurrencyId, who: AccountId, amount: Balance) -> Result<
        (),
        Error,
    > {
        let a = self.account(who, currency_id);
        if amount == 0 {
            Ok(())
        } else if a.free < amount {
            Err(Error::BalanceTooLow)
        } else if a.free - amount < a.frozen {
            Err(Error::LiquidityRestrictions)
        } else {
            Ok(())
        }
    }

    /// Move `amount` of free balance from `from` to `to`.
    pub open spec fn transfer_core(
        self,
        currency_id: CurrencyId,
        from: AccountId,
        to: AccountId,
        amount: Balance,
        existence: ExistenceRequirement,
        dust: bool,
    ) -> Result<TokensView, Error>
        decreases (if dust { 1int } else { 0int }), 3int,
    {
        if amount == 0 || from == to {
            Ok(self)
        } else {
            let from0 = self.account(from, currency_id);
            let to0 = self.account(to, currency_id);
            let ed = self.ed(currency_id);
            if from0.free < amount {
                Err(Error::BalanceTooLow)
            } else if to0.free + amount > Balance::MAX {
                Err(Error::Overflow)
            } else {
                let from1 = AccountData { free: (from0.free - amount) as Balance, ..from0 };
                let to1 = AccountData { free: (to0.free + amount) as Balance, ..to0 };
                if !(spec_total(to1) >= ed || self.is_module(to)) {
                    Err(Error::ExistentialDeposit)
                } else {
                    match self.ensure_can_withdraw(currency_id, from, amount) {
                        Err(e) => Err(e),
                        Ok(_) => {
                            let allow_death = existence == ExistenceRequirement::AllowDeath
                                && !self.is_provider_required(from);
                            if !(allow_death || spec_total(from1) >= ed) {
                                Err(Error::KeepAlive)
                            } else {
                                Ok(
                                    self.settle(
                                        from,
                                        currency_id,
                                        self.has_account(from, currency_id),
                                        from1,
                                        dust,
                                    ).settle(to, currency_id, self.has_account(to, currency_id), to1, dust),
                                )
                            }
                        },
                    }
                }
            }
        }
    }

    /// Set the data of an account through the bookkeeping.
    pub open spec fn mutate_account(self, who: AccountId, currency_id: CurrencyId, a: AccountData) -> TokensView {
        self.settle(who, currency_id, self.has_account(who, currency_id), a, true)
    }
}

fn copy_vec<T: Copy>(v: &Vec<T>) -> (r: Vec<T>)
    ensures
        r@ == v@,
{
    let mut r: Vec<T> = Vec::new();
    let mut i: usize = 0;
    while i < v.len()
        invariant
            i <= v.len(),
            r@ == v@.take(i as int),
        decreases v.len() - i,
    {
        r.push(v[i]);
        i = i + 1;
        proof {
            assert(r@ =~= v@.take(i as int));
        }
    }
    proof {
        assert(v@.take(v.len() as int) =~= v@);
    }
    r
}

impl Tokens {
    /// The ledger with the given configuration and empty storage.
    pub open spec fn spec_new(config: ConfigView) -> TokensView {
        TokensView {
            config,
            accounts: Map::empty(),
            total_issuance: Map::empty(),
            locks: Map::empty(),
            providers: Map::empty(),
            consumers: Map::empty(),
            events: Seq::empty(),
        }
    }

    /// A copy of the whole ledger.
    pub(crate) fn checkpoint(&self) -> (r: Tokens)
        ensures
            r@ == self@,
    {
        let config = TokensConfig {
            existential_deposits: copy_vec(&self.config.existential_deposits),
            module_accounts: copy_vec(&self.config.module_accounts),
            dust: self.config.dust,
            max_locks: self.config.max_locks,
        };
        let r = Tokens {
            config,
            accounts: self.accounts.clone(),
            total_issuance: self.total_issuance.clone(),
            locks: self.locks.clone(),
            providers: self.providers.clone(),
            consumers: self.consumers.clone(),
            events: copy_vec(&self.events),
        };
        proof {
            assert(r@.locks =~= self@.locks);
        }
        r
    }

    /// A ledger with the given configuration and empty storage.
    pub fn new(config: TokensConfig) -> (t: Tokens)
        ensures
            t@ == Tokens::spec_new(config@),
    {
        let t = Tokens {
            config,
            accounts: HashMap::new(),
            total_issuance: HashMap::new(),
            locks: HashMap::new(),
            providers: HashMap::new(),
            consumers: HashMap::new(),
            events: Vec::new(),
        };
        proof {
            assert(t@.locks =~= Map::<u128, Seq<BalanceLock>>::empty());
        }
        t
    }

    /// The minimum balance of a currency.
    pub fn ed(&self, currency_id: CurrencyId) -> (r: Balance)
        ensures
            r == self@.ed(currency_id),
    {
        let eds = &self.config.existential_deposits;
        let mut i: usize = eds.len();
        proof {
            assert(eds@.take(eds.len() as int) =~= eds@);
        }
        while i > 0
            invariant
                i <= eds.len(),
                eds@ == self.config.existential_deposits@,
                lookup_ed(eds@, currency_id) == lookup_ed(eds@.take(i as int), currency_id),
            decreases i,
        {
            proof {
                assert(eds@.take(i as int).drop_last() =~= eds@.take(i - 1));
            }
            if eds[i - 1].0 == currency_id {
                return eds[i - 1].1;
            }
            i = i - 1;
        }
        proof {
            assert(eds@.take(0) =~= Seq::<(CurrencyId, Balance)>::empty());
        }
        0
    }

    /// Whether an account belongs to a module.
    pub fn is_module_account_id(&self, who: AccountId) -> (r: bool)
        ensures
            r == self@.is_module(who),
    {
        let mut i: usize = 0;
        while i < self.config.module_accounts.len()
            invariant
                i <= self.config.module_accounts.len(),
                forall|k: int| 0 <= k < i ==> self.config.module_accounts@[k] != who,
            decreases self.config.module_accounts.len() - i,
        {
            if self.config.module_accounts[i] == who {
                proof {
                    assert(self@.config.module_accounts[i as int] == who);
                }
                return true;
            }
            i = i + 1;
        }
        false
    }

    /// The data of an account (empty when it is not stored).
    pub fn accounts(&self, who: AccountId, currency_id: CurrencyId) -> (r: AccountData)
        ensures
            r == self@.account(who, currency_id),
    {
        match self.accounts.get(&account_key_of(who, currency_id)) {
            Some(a) => *a,
            None => AccountData::zero(),
        }
    }

    /// Whether an account is stored.
    pub fn has_account(&self, who: AccountId, currency_id: CurrencyId) -> (r: bool)
        ensures
            r == self@.has_account(who, currency_id),
    {
        self.accounts.contains_key(&account_key_of(who, currency_id))
    }

    /// The total issuance of a currency.
    pub fn total_issuance(&self, currency_id: CurrencyId) -> (r: Balance)
        ensures
            r == self@.issuance(currency_id),
    {
        match self.total_issuance.get(&currency_id) {
            Some(v) => *v,
            None => 0,
        }
    }

    /// The provider references of an account.
    pub fn providers(&self, who: AccountId) -> (r: u32)
        ensures
            r == self@.provider_count(who),
    {
        match self.providers.get(&who) {
            Some(v) => *v,
            None => 0,
        }
    }

    /// The consumer references of an account.
    pub fn consumers(&self, who: AccountId) -> (r: u32)
        ensures
            r == self@.consumer_count(who),
    {
        match self.consumers.get(&who) {
            Some(v) => *v,
            None => 0,
        }
    }

    pub(crate) fn set_issuance(&mut self, currency_id: CurrencyId, v: Balance)
        ensures
            final(self)@ == old(self)@.set_issuance(currency_id, v),
    {
        self.total_issuance.insert(currency_id, v);
    }

    pub(crate) fn deposit_event(&mut self, e: Event)
        ensures
            final(self)@ == old(self)@.deposit(e),
    {
        self.events.push(e);
    }

    fn inc_providers(&mut self, who: AccountId)
        ensures
            final(self)@ == old(self)@.inc_providers(who),
    {
        let p = self.providers(who);
        self.providers.insert(who, p.saturating_add(1));
    }

    fn dec_providers(&mut self, who: AccountId)
        ensures
            final(self)@ == old(self)@.dec_providers(who),
    {
        let p = self.providers(who);
        if p > 1 {
            self.providers.insert(who, p - 1);
        } else if self.consumers(who) > 0 {
        } else {
            self.providers.remove(&who);
            self.consumers.remove(&who);
        }
    }

    pub(crate) fn inc_consumers(&mut self, who: AccountId)
        ensures
            final(self)@ == old(self)@.inc_consumers(who),
    {
        if self.providers(who) > 0 {
            let c = self.consumers(who);
            self.consumers.insert(who, c.saturating_add(1));
        }
    }

    pub(crate) fn dec_consumers(&mut self, who: AccountId)
        ensures
            final(self)@ == old(self)@.dec_consumers(who),
    {
        let c = self.consumers(who);
        if c > 0 {
            self.consumers.insert(who, c - 1);
        }
    }

    /// Whether the account needs to keep its last provider.
    pub fn is_provider_required(&self, who: AccountId) -> (r: bool)
        ensures
            r == self@.is_provider_required(who),
    {
        self.consumers(who) != 0
    }

    /// Whether a provider reference of the account may go.
    pub fn can_dec_provider(&self, who: AccountId) -> (r: bool)
        ensures
            r == self@.can_dec_provider(who),
    {
        self.consumers(who) == 0 || self.providers(who) > 1
    }

    fn with_account(&mut self, who: AccountId, currency_id: CurrencyId, a: AccountData)
        ensures
            final(self)@ == old(self)@.with_account(who, currency_id, a),
    {
        let k = account_key_of(who, currency_id);
        if a.total() == 0 {
            self.accounts.remove(&k);
        } else {
            self.accounts.insert(k, a);
        }
    }

    /// The bookkeeping once an account that `existed` holds `a`.
    pub(crate) fn settle(&mut self, who: AccountId, currency_id: CurrencyId, existed: bool, a: AccountData, dust: bool)
        ensures
            final(self)@ == old(self)@.settle(who, currency_id, existed, a, dust),
        decreases (if dust { 1int } else { 0int }), 2int,
    {
        let tot = a.total();
        let is_dust = tot != 0 && tot < self.ed(currency_id) && !self.is_module_account_id(who);
        self.with_account(who, currency_id, a);
        if existed && tot == 0 {
            self.dec_providers(who);
        } else if !existed && tot != 0 {
            self.inc_providers(who);
        }
        if !existed {
            self.deposit_event(Event::Endowed(currency_id, who, a.free));
        }
        if dust && is_dust {
            self.on_dust(who, currency_id, tot);
            self.deposit_event(Event::DustLost(currency_id, who, tot));
        }
    }

    fn on_dust(&mut self, who: AccountId, currency_id: CurrencyId, amount: Balance)
        ensures
            final(self)@ == old(self)@.on_dust(who, currency_id, amount),
        decreases 1int, 1int,
    {
        match self.config.dust {
            DustHandler::TransferTo(d) => {
                let _ = self.transfer_core(currency_id, who, d, amount, ExistenceRequirement::AllowDeath, false);
            },
            DustHandler::Burn => self.burn_dust(who, currency_id, amount),
            DustHandler::Keep => {},
        }
    }

    fn burn_dust(&mut self, who: AccountId, currency_id: CurrencyId, amount: Balance)
        ensures
            final(self)@ == old(self)@.burn_dust(who, currency_id, amount),
        decreases 1int, 0int,
    {
        if amount == 0 {
            return;
        }
        if self.ensure_can_withdraw(currency_id, who, amount).is_err() {
            return;
        }
        let issuance = self.total_issuance(currency_id);
        self.set_issuance(currency_id, issuance.wrapping_sub(amount));
        let mut a = self.accounts(who, currency_id);
        a.free = a.free - amount;
        let existed = self.has_account(who, currency_id);
        self.settle(who, currency_id, existed, a, false);
    }

    /// Whether `amount` can leave the free balance, given the frozen balance.
    pub fn ensure_can_withdraw(&self, currency_id: CurrencyId, who: AccountId, amount: Balance) -> (r: Result<
        (),
        Error,
    >)
        ensures
            r == self@.ensure_can_withdraw(currency_id, who, amount),
    {
        if amount == 0 {
            return Ok(());
        }
        let a = self.accounts(who, currency_id);
        if a.free < amount {
            return Err(Error::BalanceTooLow);
        }
        if a.free - amount < a.frozen {
            return Err(Error::LiquidityRestrictions);
        }
        Ok(())
    }

    /// Move `amount` of free balance from `from` to `to`; nothing changes on error.
    pub(crate) fn transfer_core(
        &mut self,
        currency_id: CurrencyId,
        from: AccountId,
        to: AccountId,
        amount: Balance,
        existence: ExistenceRequirement,
        dust: bool,
    ) -> (r: Result<(), Error>)
        ensures
            match old(self)@.transfer_core(currency_id, from, to, amount, existence, dust) {
                Ok(s) => r is Ok && final(self)@ == s,
                Err(e) => r == Err::<(), Error>(e) && final(self)@ == old(self)@,
            },
        decreases (if dust { 1int } else { 0int }), 3int,
    {
        if amount == 0 || from == to {
            return Ok(());
        }
        let from0 = self.accounts(from, currency_id);
        let to0 = self.accounts(to, currency_id);
        let ed = self.ed(currency_id);
        if from0.free < amount {
            return Err(Error::BalanceTooLow);
        }
        let to_free = match to0.free.checked_add(amount) {
            Some(v) => v,
            None => return Err(Error::Overflow),
        };
        let from1 = AccountData { free: from0.free - amount, ..from0 };
        let to1 = AccountData { free: to_free, ..to0 };
        if !(to1.total() >= ed || self.is_module_account_id(to)) {
            return Err(Error::ExistentialDeposit);
        }
        self.ensure_can_withdraw(currency_id, from, amount)?;
        let allow_death = existence == ExistenceRequirement::AllowDeath && !self.is_provider_required(from);
        if !(allow_death || from1.total() >= ed) {
            return Err(Error::KeepAlive);
        }
        let from_existed = self.has_account(from, currency_id);
        let to_existed = self.has_account(to, currency_id);
        self.settle(from, currency_id, from_existed, from1, dust);
        self.settle(to, currency_id, to_existed, to1, dust);
        Ok(())
    }

    /// Set the data of an account through the bookkeeping.
    pub(crate) fn mutate_account(&mut self, who: AccountId, currency_id: CurrencyId, a: AccountData)
        ensures
            final(self)@ == old(self)@.mutate_account(who, currency_id, a),
    {
        let existed = self.has_account(who, currency_id);
        self.settle(who, currency_id, existed, a, true);
    }
}

} // verus!

verus! {

/// The bookkeeping after an account changes never touches the configuration
/// or the locks, nor the issuance unless dust is burnt.
pub proof fn lemma_settle_frame(
    s: TokensView,
    who: AccountId,
    currency_id: CurrencyId,
    existed: bool,
    a: AccountData,
    dust: bool,
)
    ensures
        !(dust && s.config.dust is Burn) ==> s.settle(who, currency_id, existed, a, dust).total_issuance
            == s.total_issuance,
        s.settle(who, currency_id, existed, a, dust).config == s.config,
        s.settle(who, currency_id, existed, a, dust).locks == s.locks,
    decreases (if dust { 1int } else { 0int }), 2int,
{
    let tot = spec_total(a);
    let s1 = s.with_account(who, currency_id, a);
    let s2 = if existed && tot == 0 {
        s1.dec_providers(who)
    } else if !existed && tot != 0 {
        s1.inc_providers(who)
    } else {
        s1
    };
    let s3 = if !existed {
        s2.deposit(Event::Endowed(currency_id, who, a.free))
    } else {
        s2
    };
    if dust && s.is_dust(who, currency_id, a) {
        lemma_on_dust_frame(s3, who, currency_id, tot);
    }
}

pub proof fn lemma_on_dust_frame(s: TokensView, who: AccountId, currency_id: CurrencyId, amount: Balance)
    ensures
        !(s.config.dust is Burn) ==> s.on_dust(who, currency_id, amount).total_issuance == s.total_issuance,
        s.on_dust(who, currency_id, amount).config == s.config,
        s.on_dust(who, currency_id, amount).locks == s.locks,
    decreases 1int, 1int,
{
    match s.config.dust {
        DustHandler::TransferTo(d) => {
            lemma_transfer_core_frame(s, currency_id, who, d, amount, ExistenceRequirement::AllowDeath, false);
        },
        DustHandler::Burn => {
            if amount != 0 && s.ensure_can_withdraw(currency_id, who, amount) is Ok {
                let t = s.set_issuance(
                    currency_id,
                    vstd::wrapping::u64_specs::wrapping_sub(s.issuance(currency_id), amount),
                );
                let a = AccountData { free: (t.account(who, currency_id).free - amount) as Balance, ..t.account(who, currency_id) };
                lemma_settle_frame(t, who, currency_id, t.has_account(who, currency_id), a, false);
            }
        },
        DustHandler::Keep => {},
    }
}

/// A transfer never touches the configuration or the locks, nor the issuance
/// unless dust is burnt.
pub proof fn lemma_transfer_core_frame(
    s: TokensView,
    currency_id: CurrencyId,
    from: AccountId,
    to: AccountId,
    amount: Balance,
    existence: ExistenceRequirement,
    dust: bool,
)
    ensures
        s.transfer_core(currency_id, from, to, amount, existence, dust) matches Ok(t) ==> t.config == s.config
            && t.locks == s.locks && (!(dust && s.config.dust is Burn) ==> t.total_issuance == s.total_issuance),
    decreases (if dust { 1int } else { 0int }), 3int,
{
    if !(amount == 0 || from == to) {
        let from0 = s.account(from, currency_id);
        let to0 = s.account(to, currency_id);
        if from0.free >= amount && to0.free + amount <= Balance::MAX {
            let from1 = AccountData { free: (from0.free - amount) as Balance, ..from0 };
            let to1 = AccountData { free: (to0.free + amount) as Balance, ..to0 };
            let s1 = s.settle(from, currency_id, s.has_account(from, currency_id), from1, dust);
            lemma_settle_frame(s, from, currency_id, s.has_account(from, currency_id), from1, dust);
            lemma_settle_frame(s1, to, currency_id, s.has_account(to, currency_id), to1, dust);
        }
    }
}

} // verus!
