//! Errors of off-chain workers.
use vstd::prelude::*;

verus! {

/// Error which may occur while executing the off-chain code.
#[derive(Clone, Copy, Debug, PartialEq, Eq, Structural)]
pub enum OffchainErr {
    OffchainStore,
    SubmitTransaction,
    NotValidator,
    OffchainLock,
}

impl OffchainErr {
    /// What went wrong, in words.
    pub fn describe(&self) -> (s: &'static str)
        ensures
            s@ == match *self {
                OffchainErr::OffchainStore => "Failed to manipulate offchain store"@,
                OffchainErr::SubmitTransaction => "Failed to submit transaction"@,
                OffchainErr::NotValidator => "Is not validator"@,
                OffchainErr::OffchainLock => "Failed to manipulate offchain lock"@,
            },
    {
        match *self {
            OffchainErr::OffchainStore => "Failed to manipulate offchain store",
            OffchainErr::SubmitTransaction => "Failed to submit transaction",
            OffchainErr::NotValidator => "Is not validator",
            OffchainErr::OffchainLock => "Failed to manipulate offchain lock",
        }
    }
}

} // verus!
