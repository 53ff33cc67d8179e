//! The result of handling a bid in an auction.
use vstd::prelude::*;

verus! {

/// A value that may be changed or left as it is.
#[derive(Debug, PartialEq, Eq, Structural)]
pub enum Change<Value> {
    /// No change.
    NoChange,
    /// Changed to a new value.
    NewValue(Value),
}

/// The result of bid handling.
#[derive(Debug, PartialEq, Eq, Structural)]
pub struct OnNewBidResult<BlockNumber> {
    /// Indicates if the bid was accepted
    pub accept_bid: bool,
    /// The auction end change.
    pub auction_end_change: Change<Option<BlockNumber>>,
}

} // verus!
