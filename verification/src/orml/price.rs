//! Relative prices of currencies.
use crate::fixed::{fixed_checked_div, spec_fixed_checked_div};
use crate::orml::data_provider::DataProvider;
use std::marker::PhantomData;
use vstd::prelude::*;

verus! {

/// A trait to provide the relative price of two currencies.
pub trait PriceProvider<CurrencyId, Price> {
    fn get_price(base: CurrencyId, quote: CurrencyId) -> Option<Price>;
}

/// The price of `base` in units of `quote` (fixed-point inner values), given the
/// prices a source holds for each: `None` when either is missing, when the
/// quote price is zero or when the quotient overflows.
pub open spec fn spec_relative_price(base: Option<u128>, quote: Option<u128>) -> Option<u128> {
    match (base, quote) {
        (Some(b), Some(q)) => spec_fixed_checked_div(b, q),
        _ => None,
    }
}

/// Relative price from the source prices of the two currencies.
pub fn relative_price(base: Option<u128>, quote: Option<u128>) -> (r: Option<u128>)
    ensures
        r == spec_relative_price(base, quote),
{
    match (base, quote) {
        (Some(b), Some(q)) => fixed_checked_div(b, q),
        _ => None,
    }
}

/// A `PriceProvider` based on the price data of a `DataProvider` source; prices
/// are fixed-point numbers held by their inner value.
pub struct DefaultPriceProvider<CurrencyId, Source> {
    _marker: PhantomData<(CurrencyId, Source)>,
}

impl<CurrencyId, Source: DataProvider<CurrencyId, u128>> PriceProvider<
    CurrencyId,
    u128,
> for DefaultPriceProvider<CurrencyId, Source> {
    /// The relative price of what the source gives for `base` and for
    /// `quote`; the source is not asked for `quote` when it has no price for
    /// `base`.
    fn get_price(base: CurrencyId, quote: CurrencyId) -> (r: Option<u128>)
        ensures
            exists|bp: Option<u128>|
                #![trigger call_ensures(Source::get, (&base,), bp)]
                call_ensures(Source::get, (&base,), bp) && (match bp {
                    None => r is None,
                    Some(_) => exists|qp: Option<u128>|
                        #![trigger call_ensures(Source::get, (&quote,), qp)]
                        call_ensures(Source::get, (&quote,), qp) && r == spec_relative_price(bp, qp),
                }),
    {
        let base_price = Source::get(&base);
        if base_price.is_none() {
            return None;
        }
        let quote_price = Source::get(&quote);
        relative_price(base_price, quote_price)
    }
}

/// The relative price `p` of `base` in `quote` is the fixed-point quotient
/// rounded down: `p * quote <= base * ONE < (p + 1) * quote`; there is none
/// when a price is missing or the quote price is zero.
pub proof fn law_relative_price_is_the_quotient(base: Option<u128>, quote: Option<u128>)
    ensures
        spec_relative_price(base, quote) matches Some(p) ==> {
            let b = base.unwrap() as int;
            let q = quote.unwrap() as int;
            &&& base is Some && quote is Some && q > 0
            &&& p * q <= b * crate::fixed::FIXED_ONE
            &&& b * crate::fixed::FIXED_ONE < (p + 1) * q
        },
        base is None || quote is None || quote == Some(0u128) ==> spec_relative_price(base, quote) is None,
{
    if let (Some(b), Some(q)) = (base, quote) {
        if q > 0 {
            let num = b as int * crate::fixed::FIXED_ONE as int;
            let qi = q as int;
            let p = num / qi;
            assert(p * qi <= num && num < (p + 1) * qi) by (nonlinear_arith)
                requires
                    qi > 0,
                    p == num / qi,
            ;
        }
    }
}

} // verus!
