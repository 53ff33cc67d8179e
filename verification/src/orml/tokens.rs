//! A multi-currency token ledger: balances per account and currency, total
//! issuance, reserves, locks and existential deposits.
pub mod types;
pub mod state;
pub mod currency;
pub mod fungibles;
pub mod imbalances;
pub mod adapter;
pub mod laws;
