//! Origins of runtime calls.
use vstd::prelude::*;

verus! {

/// The origin of a call.
#[derive(Clone, Copy, Debug, PartialEq, Eq, Structural)]
pub enum Origin {
    /// The root (sudo) origin.
    Root,
    /// A call signed by the given account.
    Signed(u64),
    /// An unsigned call.
    Unsigned,
}

} // verus!
