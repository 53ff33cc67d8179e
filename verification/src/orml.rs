//! Shared traits and helpers of the open runtime module library.
pub mod data_provider;
pub mod price;
pub mod auction;
pub mod offchain_worker;
pub mod location;
pub mod members;
pub mod tokens;
pub mod iterator;
