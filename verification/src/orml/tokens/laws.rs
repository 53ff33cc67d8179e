//! What the ledger's operations do to the total issuance.
use crate::orml::tokens::state::{lemma_settle_frame, lemma_transfer_core_frame, TokensView};
use crate::orml::tokens::types::{
    lemma_account_key_injective, spec_total, zero_account, AccountData, AccountId, Balance, CurrencyId,
    ExistenceRequirement,
};
use vstd::prelude::*;

verus! {

proof fn lemma_set_free_frame(s: TokensView, currency_id: CurrencyId, who: AccountId, v: Balance)
    requires
        !(s.config.dust is Burn),
    ensures
        s.set_free_balance(currency_id, who, v).total_issuance == s.total_issuance,
        s.set_free_balance(currency_id, who, v).config == s.config,
{
    lemma_settle_frame(
        s,
        who,
        currency_id,
        s.has_account(who, currency_id),
        AccountData { free: v, ..s.account(who, currency_id) },
        true,
    );
}

proof fn lemma_set_reserved_frame(s: TokensView, currency_id: CurrencyId, who: AccountId, v: Balance)
    requires
        !(s.config.dust is Burn),
    ensures
        s.set_reserved_balance(currency_id, who, v).total_issuance == s.total_issuance,
{
    lemma_settle_frame(
        s,
        who,
        currency_id,
        s.has_account(who, currency_id),
        AccountData { reserved: v, ..s.account(who, currency_id) },
        true,
    );
}

/// A successful deposit adds exactly its amount to the issuance of its
/// currency, unless the ledger burns dust.
pub proof fn law_deposit_adds_to_issuance(s: TokensView, currency_id: CurrencyId, who: AccountId, amount: Balance)
    requires
        !(s.config.dust is Burn),
    ensures
        s.deposit_into(currency_id, who, amount) matches Ok(t) ==> t.issuance(currency_id) == s.issuance(currency_id)
            + amount,
{
    if amount != 0 && s.issuance(currency_id) + amount <= Balance::MAX {
        lemma_set_free_frame(s, currency_id, who, (s.account(who, currency_id).free + amount) as Balance);
    }
}

/// A successful withdrawal takes exactly its amount from the issuance of its
/// currency (when the issuance covers it), unless the ledger burns dust.
pub proof fn law_withdraw_takes_from_issuance(s: TokensView, currency_id: CurrencyId, who: AccountId, amount: Balance)
    requires
        amount <= s.issuance(currency_id),
        !(s.config.dust is Burn),
    ensures
        s.withdraw_from(currency_id, who, amount) matches Ok(t) ==> t.issuance(currency_id) == s.issuance(
            currency_id,
        ) - amount,
{
    if amount != 0 {
        let s1 = s.set_issuance(currency_id, (s.issuance(currency_id) - amount) as Balance);
        lemma_set_free_frame(s1, currency_id, who, (s.account(who, currency_id).free - amount) as Balance);
    }
}

/// Reserving and transferring move balances between or within accounts and
/// leave the issuance of every currency as it was, unless the ledger burns
/// dust.
pub proof fn law_reserve_and_transfer_keep_issuance(
    s: TokensView,
    currency_id: CurrencyId,
    who: AccountId,
    to: AccountId,
    value: Balance,
)
    requires
        !(s.config.dust is Burn),
    ensures
        s.reserve(currency_id, who, value) matches Ok(t) ==> t.total_issuance == s.total_issuance,
        s.transfer(currency_id, who, to, value) matches Ok(t) ==> t.total_issuance == s.total_issuance,
{
    lemma_transfer_core_frame(s, currency_id, who, to, value, ExistenceRequirement::AllowDeath, true);
    if value != 0 && s.ensure_can_withdraw(currency_id, who, value) is Ok {
        let a = s.account(who, currency_id);
        let s1 = s.set_free_balance(currency_id, who, (a.free - value) as Balance);
        lemma_set_free_frame(s, currency_id, who, (a.free - value) as Balance);
        lemma_set_reserved_frame(s1, currency_id, who, (a.reserved + value) as Balance);
    }
}

/// Slashing takes from the issuance exactly what it slashed: the amount less
/// the part that could not be slashed, unless the ledger burns dust.
pub proof fn law_slash_takes_from_issuance(s: TokensView, currency_id: CurrencyId, who: AccountId, amount: Balance)
    requires
        !(s.config.dust is Burn),
        amount != 0 ==> amount - s.slash_accounts(currency_id, who, amount).1 <= s.issuance(currency_id),
    ensures
        s.slash(currency_id, who, amount).1 <= amount,
        s.slash(currency_id, who, amount).0.issuance(currency_id) == s.issuance(currency_id) - (amount - s.slash(
            currency_id,
            who,
            amount,
        ).1),
{
    if amount != 0 {
        let a = s.account(who, currency_id);
        let free_slashed = if a.free < amount { a.free } else { amount };
        let remaining = (amount - free_slashed) as Balance;
        let s1 = if free_slashed != 0 {
            lemma_set_free_frame(s, currency_id, who, (a.free - free_slashed) as Balance);
            s.set_free_balance(currency_id, who, (a.free - free_slashed) as Balance)
        } else {
            s
        };
        if remaining != 0 {
            let reserved_slashed = if a.reserved < remaining { a.reserved } else { remaining };
            lemma_set_reserved_frame(s1, currency_id, who, (a.reserved - reserved_slashed) as Balance);
        }
    }
}

/// Burning issuance and settling the imbalance it returns restores the
/// issuance; so does issuing and settling.
pub proof fn law_imbalances_restore_issuance(s: TokensView, currency_id: CurrencyId, amount: Balance)
    ensures
        ({
            let (t, burnt) = s.burn_issuance(currency_id, amount);
            t.issuance_plus(currency_id, burnt).issuance(currency_id) == s.issuance(currency_id)
        }),
        ({
            let (t, issued) = s.issue(currency_id, amount);
            t.issuance_minus(currency_id, issued).issuance(currency_id) == s.issuance(currency_id)
        }),
{
}

/// Settling an account that does not turn into dust to be handled leaves it
/// holding `a` (reaped when it holds nothing), and every other account as it
/// was.
proof fn lemma_settle_account(
    s: TokensView,
    who: AccountId,
    currency_id: CurrencyId,
    existed: bool,
    a: AccountData,
    dust: bool,
    w: AccountId,
    c: CurrencyId,
)
    requires
        !(dust && s.is_dust(who, currency_id, a)),
    ensures
        s.settle(who, currency_id, existed, a, dust).account(w, c) == if w == who && c == currency_id {
            if spec_total(a) == 0 {
                zero_account()
            } else {
                a
            }
        } else {
            s.account(w, c)
        },
{
    if !(w == who && c == currency_id) {
        lemma_account_key_injective(w, c, who, currency_id);
    }
}

/// A transfer between two accounts of `amount > 0` that leaves neither of
/// them as dust to be handled moves exactly `amount` of free balance from one
/// to the other, and leaves every other account as it was.
pub proof fn law_transfer_moves_the_amount(
    s: TokensView,
    currency_id: CurrencyId,
    from: AccountId,
    to: AccountId,
    amount: Balance,
    w: AccountId,
    c: CurrencyId,
)
    ensures
        ({
            let from0 = s.account(from, currency_id);
            let to0 = s.account(to, currency_id);
            from != to && amount > 0 && from0.free >= amount && to0.free + amount <= Balance::MAX && !s.is_dust(
                from,
                currency_id,
                AccountData { free: (from0.free - amount) as Balance, ..from0 },
            ) && !s.is_dust(to, currency_id, AccountData { free: (to0.free + amount) as Balance, ..to0 })
                ==> (s.transfer(currency_id, from, to, amount) matches Ok(t) ==> {
                &&& t.account(from, currency_id).free == from0.free - amount
                &&& t.account(to, currency_id).free == to0.free + amount
                &&& !((w == from || w == to) && c == currency_id) ==> t.account(w, c) == s.account(w, c)
            })
        }),
        s.transfer(currency_id, from, to, amount) is Ok && amount > 0 && from != to ==> s.account(
            from,
            currency_id,
        ).free >= amount,
{
    let from0 = s.account(from, currency_id);
    let to0 = s.account(to, currency_id);
    if from != to && amount > 0 && from0.free >= amount && to0.free + amount <= Balance::MAX {
        let from1 = AccountData { free: (from0.free - amount) as Balance, ..from0 };
        let to1 = AccountData { free: (to0.free + amount) as Balance, ..to0 };
        if !s.is_dust(from, currency_id, from1) && !s.is_dust(to, currency_id, to1) {
            let s1 = s.settle(from, currency_id, s.has_account(from, currency_id), from1, true);
            lemma_settle_frame(s, from, currency_id, s.has_account(from, currency_id), from1, true);
            lemma_settle_account(s, from, currency_id, s.has_account(from, currency_id), from1, true, w, c);
            lemma_settle_account(s, from, currency_id, s.has_account(from, currency_id), from1, true, to, currency_id);
            lemma_settle_account(s, from, currency_id, s.has_account(from, currency_id), from1, true, from, currency_id);
            assert(s1.is_dust(to, currency_id, to1) == s.is_dust(to, currency_id, to1));
            lemma_settle_account(s1, to, currency_id, s.has_account(to, currency_id), to1, true, w, c);
            lemma_settle_account(s1, to, currency_id, s.has_account(to, currency_id), to1, true, from, currency_id);
            lemma_settle_account(s1, to, currency_id, s.has_account(to, currency_id), to1, true, to, currency_id);
        }
    }
}

/// Depositing into or withdrawing from an account that does not end as dust
/// (and, for a deposit, whose free balance has room) changes its free
/// balance by exactly the amount, and nothing else of it;
/// a withdrawal never takes more than the free balance above the frozen part.
pub proof fn law_deposit_and_withdraw_move_the_amount(
    s: TokensView,
    currency_id: CurrencyId,
    who: AccountId,
    amount: Balance,
)
    ensures
        ({
            let a = s.account(who, currency_id);
            let after = AccountData { free: (a.free + amount) as Balance, ..a };
            a.free + amount <= Balance::MAX && !s.is_dust(who, currency_id, after) ==> (s.deposit_into(
                currency_id,
                who,
                amount,
            ) matches Ok(t) ==> {
                &&& t.account(who, currency_id).free == a.free + amount
                &&& t.account(who, currency_id).reserved == a.reserved
            })
        }),
        ({
            let a = s.account(who, currency_id);
            let after = AccountData { free: (a.free - amount) as Balance, ..a };
            &&& s.withdraw_from(currency_id, who, amount) is Ok && amount > 0 ==> a.free >= amount && a.free - amount
                >= a.frozen
            &&& !s.is_dust(who, currency_id, after) ==> (s.withdraw_from(currency_id, who, amount) matches Ok(t) ==> {
                &&& t.account(who, currency_id).free == a.free - amount
                &&& t.account(who, currency_id).reserved == a.reserved
            })
        }),
{
    let a = s.account(who, currency_id);
    if amount > 0 {
        let up = AccountData { free: (a.free + amount) as Balance, ..a };
        if !s.is_dust(who, currency_id, up) {
            lemma_settle_account(s, who, currency_id, s.has_account(who, currency_id), up, true, who, currency_id);
        }
        let s1 = s.set_issuance(currency_id, (s.issuance(currency_id) - amount) as Balance);
        let down = AccountData { free: (a.free - amount) as Balance, ..a };
        if !s.is_dust(who, currency_id, down) {
            assert(s1.is_dust(who, currency_id, down) == s.is_dust(who, currency_id, down));
            lemma_settle_account(s1, who, currency_id, s1.has_account(who, currency_id), down, true, who, currency_id);
        }
    }
}

/// Reserving moves exactly `value` from the free to the reserved balance, and
/// unreserving moves back as much of `value` as is reserved, reporting the
/// rest; as long as the account does not pass through dust on the way and
/// the receiving balance has room.
pub proof fn law_reserve_moves_free_to_reserved(
    s: TokensView,
    currency_id: CurrencyId,
    who: AccountId,
    value: Balance,
)
    ensures
        ({
            let a = s.account(who, currency_id);
            let mid = AccountData { free: (a.free - value) as Balance, ..a };
            let end = AccountData { reserved: (a.reserved + value) as Balance, ..mid };
            value > 0 && a.reserved + value <= Balance::MAX && !s.is_dust(who, currency_id, mid) && !s.is_dust(
                who,
                currency_id,
                end,
            ) ==> (s.reserve(currency_id, who, value) matches Ok(t) ==> {
                &&& t.account(who, currency_id).free == a.free - value
                &&& t.account(who, currency_id).reserved == a.reserved + value
            })
        }),
        ({
            let a = s.account(who, currency_id);
            let actual = if a.reserved < value { a.reserved } else { value };
            let mid = AccountData { reserved: (a.reserved - actual) as Balance, ..a };
            let end = AccountData { free: (a.free + actual) as Balance, ..mid };
            &&& s.unreserve(currency_id, who, value).1 == value - actual
            &&& value > 0 && a.free + actual <= Balance::MAX && !s.is_dust(who, currency_id, mid) && !s.is_dust(
                who,
                currency_id,
                end,
            ) ==> {
                &&& s.unreserve(currency_id, who, value).0.account(who, currency_id).reserved == a.reserved - actual
                &&& s.unreserve(currency_id, who, value).0.account(who, currency_id).free == a.free + actual
            }
        }),
{
    let a = s.account(who, currency_id);
    if value > 0 {
        if s.ensure_can_withdraw(currency_id, who, value) is Ok && a.reserved + value <= Balance::MAX {
            let mid = AccountData { free: (a.free - value) as Balance, ..a };
            let end = AccountData { reserved: (a.reserved + value) as Balance, ..mid };
            if !s.is_dust(who, currency_id, mid) && !s.is_dust(who, currency_id, end) {
                let s1 = s.settle(who, currency_id, s.has_account(who, currency_id), mid, true);
                lemma_settle_frame(s, who, currency_id, s.has_account(who, currency_id), mid, true);
                lemma_settle_account(s, who, currency_id, s.has_account(who, currency_id), mid, true, who, currency_id);
                let end1 = AccountData { reserved: (a.reserved + value) as Balance, ..s1.account(who, currency_id) };
                assert(s1.is_dust(who, currency_id, end1) == s.is_dust(who, currency_id, end));
                lemma_settle_account(s1, who, currency_id, s1.has_account(who, currency_id), end1, true, who, currency_id);
            }
        }
        let actual = if a.reserved < value { a.reserved } else { value };
        let umid = AccountData { reserved: (a.reserved - actual) as Balance, ..a };
        let uend = AccountData { free: (a.free + actual) as Balance, ..umid };
        if a.free + actual <= Balance::MAX && !s.is_dust(who, currency_id, umid) && !s.is_dust(who, currency_id, uend) {
            let u1 = s.settle(who, currency_id, s.has_account(who, currency_id), umid, true);
            lemma_settle_frame(s, who, currency_id, s.has_account(who, currency_id), umid, true);
            lemma_settle_account(s, who, currency_id, s.has_account(who, currency_id), umid, true, who, currency_id);
            let uend1 = AccountData { free: (a.free + actual) as Balance, ..u1.account(who, currency_id) };
            assert(u1.is_dust(who, currency_id, uend1) == s.is_dust(who, currency_id, uend));
            lemma_settle_account(u1, who, currency_id, u1.has_account(who, currency_id), uend1, true, who, currency_id);
        }
    }
}

} // verus!
