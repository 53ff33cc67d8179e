//! The Chainlink price feed pallet: oracle feeds with rounds of submissions,
//! whose answer is the median of the submissions of a round.
pub mod feed;
pub mod interface;
pub mod laws;
pub mod pallet;
pub mod state;
pub mod types;
pub mod utils;
