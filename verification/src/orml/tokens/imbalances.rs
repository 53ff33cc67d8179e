//! Imbalances: amounts of a currency created or destroyed without a
//! counterpart yet. Settling (dropping) one adjusts the total issuance.
use crate::orml::tokens::state::{Tokens, TokensView};
use crate::orml::tokens::types::{Balance, CurrencyId};
use vstd::prelude::*;

verus! {

/// Funds added to some account without being taken from the issuance yet;
/// settling it adds them to the issuance.
#[derive(Debug, PartialEq, Eq, Structural)]
pub struct PositiveImbalance {
    pub currency_id: CurrencyId,
    pub amount: Balance,
}

/// Funds taken from some account without being taken from the issuance yet;
/// settling it takes them from the issuance.
#[derive(Debug, PartialEq, Eq, Structural)]
pub struct NegativeImbalance {
    pub currency_id: CurrencyId,
    pub amount: Balance,
}

/// One of two values, or none.
#[derive(Debug, PartialEq, Eq, Structural)]
pub enum SameOrOther<A, B> {
    Neither,
    Same(A),
    Other(B),
}

/// An imbalance of either sign.
#[derive(Debug, PartialEq, Eq, Structural)]
pub enum SignedImbalance {
    Positive(PositiveImbalance),
    Negative(NegativeImbalance),
}

impl PositiveImbalance {
    pub fn new(currency_id: CurrencyId, amount: Balance) -> (r: Self)
        ensures
            r == (PositiveImbalance { currency_id, amount }),
    {
        PositiveImbalance { currency_id, amount }
    }

    pub fn zero(currency_id: CurrencyId) -> (r: Self)
        ensures
            r == (PositiveImbalance { currency_id, amount: 0 }),
    {
        PositiveImbalance { currency_id, amount: 0 }
    }

    pub fn peek(&self) -> (r: Balance)
        ensures
            r == self.amount,
    {
        self.amount
    }

    /// Consume an empty imbalance, or give it back.
    pub fn drop_zero(self) -> (r: Result<(), Self>)
        ensures
            self.amount == 0 ==> r is Ok,
            self.amount != 0 ==> r == Err::<(), Self>(self),
    {
        if self.amount == 0 {
            Ok(())
        } else {
            Err(self)
        }
    }

    /// Split off at most `amount`: the first part and the rest.
    pub fn split(self, amount: Balance) -> (r: (Self, Self))
        ensures
            r.0.amount == (if self.amount < amount { self.amount } else { amount }),
            r.0.amount + r.1.amount == self.amount,
            r.0.currency_id == self.currency_id,
            r.1.currency_id == self.currency_id,
    {
        let first = if self.amount < amount { self.amount } else { amount };
        let second = self.amount - first;
        (PositiveImbalance::new(self.currency_id, first), PositiveImbalance::new(self.currency_id, second))
    }

    /// Merge two imbalances (saturating).
    pub fn merge(self, other: Self) -> (r: Self)
        requires
            self.currency_id == other.currency_id,
        ensures
            r.currency_id == self.currency_id,
            r.amount == (if self.amount + other.amount > Balance::MAX {
                Balance::MAX as int
            } else {
                self.amount + other.amount
            }),
    {
        PositiveImbalance::new(self.currency_id, self.amount.saturating_add(other.amount))
    }

    /// Absorb another imbalance (saturating).
    pub fn subsume(&mut self, other: Self)
        requires
            old(self).currency_id == other.currency_id,
        ensures
            final(self).currency_id == old(self).currency_id,
            final(self).amount == (if old(self).amount + other.amount > Balance::MAX {
                Balance::MAX as int
            } else {
                old(self).amount + other.amount
            }),
    {
        self.amount = self.amount.saturating_add(other.amount);
    }

    /// Offset against an opposite imbalance: what remains of the larger one.
    pub fn offset(self, other: NegativeImbalance) -> (r: SameOrOther<Self, NegativeImbalance>)
        requires
            self.currency_id == other.currency_id,
        ensures
            r == (if self.amount > other.amount {
                SameOrOther::Same(PositiveImbalance { currency_id: self.currency_id, amount: (self.amount - other.amount) as Balance })
            } else if other.amount > self.amount {
                SameOrOther::Other(NegativeImbalance { currency_id: self.currency_id, amount: (other.amount - self.amount) as Balance })
            } else {
                SameOrOther::Neither
            }),
    {
        let (a, b) = (self.amount, other.amount);
        if a > b {
            SameOrOther::Same(PositiveImbalance::new(self.currency_id, a - b))
        } else if b > a {
            SameOrOther::Other(NegativeImbalance::new(self.currency_id, b - a))
        } else {
            SameOrOther::Neither
        }
    }
}

impl NegativeImbalance {
    pub fn new(currency_id: CurrencyId, amount: Balance) -> (r: Self)
        ensures
            r == (NegativeImbalance { currency_id, amount }),
    {
        NegativeImbalance { currency_id, amount }
    }

    pub fn zero(currency_id: CurrencyId) -> (r: Self)
        ensures
            r == (NegativeImbalance { currency_id, amount: 0 }),
    {
        NegativeImbalance { currency_id, amount: 0 }
    }

    pub fn peek(&self) -> (r: Balance)
        ensures
            r == self.amount,
    {
        self.amount
    }

    /// Consume an empty imbalance, or give it back.
    pub fn drop_zero(self) -> (r: Result<(), Self>)
        ensures
            self.amount == 0 ==> r is Ok,
            self.amount != 0 ==> r == Err::<(), Self>(self),
    {
        if self.amount == 0 {
            Ok(())
        } else {
            Err(self)
        }
    }

    /// Split off at most `amount`: the first part and the rest.
    pub fn split(self, amount: Balance) -> (r: (Self, Self))
        ensures
            r.0.amount == (if self.amount < amount { self.amount } else { amount }),
            r.0.amount + r.1.amount == self.amount,
            r.0.currency_id == self.currency_id,
            r.1.currency_id == self.currency_id,
    {
        let first = if self.amount < amount { self.amount } else { amount };
        let second = self.amount - first;
        (NegativeImbalance::new(self.currency_id, first), NegativeImbalance::new(self.currency_id, second))
    }

    /// Merge two imbalances (saturating).
    pub fn merge(self, other: Self) -> (r: Self)
        requires
            self.currency_id == other.currency_id,
        ensures
            r.currency_id == self.currency_id,
            r.amount == (if self.amount + other.amount > Balance::MAX {
                Balance::MAX as int
            } else {
                self.amount + other.amount
            }),
    {
        NegativeImbalance::new(self.currency_id, self.amount.saturating_add(other.amount))
    }

    /// Absorb another imbalance (saturating).
    pub fn subsume(&mut self, other: Self)
        requires
            old(self).currency_id == other.currency_id,
        ensures
            final(self).currency_id == old(self).currency_id,
            final(self).amount == (if old(self).amount + other.amount > Balance::MAX {
                Balance::MAX as int
            } else {
                old(self).amount + other.amount
            }),
    {
        self.amount = self.amount.saturating_add(other.amount);
    }

    /// Offset against an opposite imbalance: what remains of the larger one.
    pub fn offset(self, other: PositiveImbalance) -> (r: SameOrOther<Self, PositiveImbalance>)
        requires
            self.currency_id == other.currency_id,
        ensures
            r == (if self.amount > other.amount {
                SameOrOther::Same(NegativeImbalance { currency_id: self.currency_id, amount: (self.amount - other.amount) as Balance })
            } else if other.amount > self.amount {
                SameOrOther::Other(PositiveImbalance { currency_id: self.currency_id, amount: (other.amount - self.amount) as Balance })
            } else {
                SameOrOther::Neither
            }),
    {
        let (a, b) = (self.amount, other.amount);
        if a > b {
            SameOrOther::Same(NegativeImbalance::new(self.currency_id, a - b))
        } else if b > a {
            SameOrOther::Other(PositiveImbalance::new(self.currency_id, b - a))
        } else {
            SameOrOther::Neither
        }
    }
}

impl TokensView {
    /// The issuance of a currency after adding `amount`, saturating.
    pub open spec fn issuance_plus(self, currency_id: CurrencyId, amount: Balance) -> TokensView {
        let v = self.issuance(currency_id);
        self.set_issuance(currency_id, if v + amount > Balance::MAX { Balance::MAX } else { (v + amount) as Balance })
    }

    /// The issuance of a currency after taking `amount`, saturating at zero.
    pub open spec fn issuance_minus(self, currency_id: CurrencyId, amount: Balance) -> TokensView {
        let v = self.issuance(currency_id);
        self.set_issuance(currency_id, if v < amount { 0 } else { (v - amount) as Balance })
    }
}

impl Tokens {
    /// Settle a positive imbalance: its amount joins the issuance.
    pub fn settle_positive(&mut self, imbalance: PositiveImbalance)
        ensures
            final(self)@ == old(self)@.issuance_plus(imbalance.currency_id, imbalance.amount),
    {
        let v = self.total_issuance(imbalance.currency_id);
        self.set_issuance(imbalance.currency_id, v.saturating_add(imbalance.amount));
    }

    /// Settle a negative imbalance: its amount leaves the issuance.
    pub fn settle_negative(&mut self, imbalance: NegativeImbalance)
        ensures
            final(self)@ == old(self)@.issuance_minus(imbalance.currency_id, imbalance.amount),
    {
        let v = self.total_issuance(imbalance.currency_id);
        self.set_issuance(imbalance.currency_id, v.saturating_sub(imbalance.amount));
    }
}

} // verus!
