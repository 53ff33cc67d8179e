//! The XCM bridge hub router: a dynamic fee for messages sent over the bridge,
//! whose factor grows exponentially while the queue to the sibling bridge hub
//! is congested and shrinks back to one while it is not.
use crate::fixed::{
    fixed_checked_div, fixed_saturating_add, fixed_saturating_mul, fixed_saturating_mul_int,
    spec_fixed_checked_div, spec_fixed_saturating_add, spec_fixed_saturating_mul,
    spec_fixed_saturating_mul_int, FIXED_ONE,
};
use vstd::prelude::*;

verus! {

/// Local XCM channel that may report whether it is congested or not.
pub trait LocalXcmChannel {
    /// Returns true if the queue is currently congested.
    fn is_congested() -> bool;
}

/// The channel that is never congested.
pub struct NeverCongested;

impl LocalXcmChannel for NeverCongested {
    /// Never congested.
    fn is_congested() -> (congested: bool)
        ensures
            !congested,
    {
        false
    }
}

/// The factor that is used to increase the current message fee factor when the
/// bridge experiences some lags: 1.05 (inner value).
pub const EXPONENTIAL_FEE_BASE: u128 = 1_050_000_000_000_000_000u128;

/// The factor that is used to increase the current message fee factor for every
/// sent kilobyte: 0.001 (inner value).
pub const MESSAGE_SIZE_FEE_BASE: u128 = 1_000_000_000_000_000u128;

/// Maximal size of the XCM message that may be sent over the bridge.
pub const HARD_MESSAGE_SIZE_LIMIT: u32 = 32768u32;

/// Errors of sending a message over the bridge.
#[derive(Clone, Copy, Debug, PartialEq, Eq, Structural)]
pub enum SendError {
    /// The message is missing.
    MissingArgument,
    /// The message is larger than the bridge accepts.
    ExceedsMaxMessageSize,
    /// The destination is not in the bridged network.
    NotApplicable,
}

/// Which weight `on_initialize` used.
#[derive(Clone, Copy, Debug, PartialEq, Eq, Structural)]
pub enum OnInitializeWeight {
    /// The queue is congested and nothing was done.
    WhenCongested,
    /// The queue is not congested and the factor was decreased.
    WhenNonCongested,
    /// The queue is not congested but the factor was already one: one storage
    /// write less than `WhenNonCongested`.
    WhenNonCongestedWithoutWrite,
}

/// The factor after one uncongested block: divided by 1.05, but never below one.
pub open spec fn decreased_factor(f: u128) -> u128 {
    let q = spec_fixed_checked_div(f, EXPONENTIAL_FEE_BASE)->0;
    if q > FIXED_ONE { q } else { FIXED_ONE }
}

/// The factor after sending a message of `message_size` bytes over a congested
/// queue: multiplied by 1.05 plus 0.001 for every full kilobyte.
pub open spec fn increased_factor(f: u128, message_size: u32) -> u128 {
    let kilobytes = message_size / 1024;
    let size_factor = spec_fixed_saturating_mul(
        (kilobytes as int * FIXED_ONE as int) as u128,
        MESSAGE_SIZE_FEE_BASE,
    );
    spec_fixed_saturating_mul(f, spec_fixed_saturating_add(EXPONENTIAL_FEE_BASE, size_factor))
}

/// The bridge fee for a message: the factor applied to the base fee plus the
/// fee for each byte, all saturating.
pub open spec fn bridge_fee(factor: u128, message_size: u32, base_fee: u128, byte_fee: u128) -> u128 {
    let message_fee: int = message_size as int * byte_fee as int;
    let message_fee: u128 = if message_fee > u128::MAX { u128::MAX } else { message_fee as u128 };
    let fee_sum: int = base_fee + message_fee;
    let fee_sum: u128 = if fee_sum > u128::MAX { u128::MAX } else { fee_sum as u128 };
    spec_fixed_saturating_mul_int(factor, fee_sum)
}

/// The storage of the pallet: the number to multiply the base delivery fee by.
pub struct Pallet {
    /// Inner value of the fixed-point fee factor.
    pub delivery_fee_factor: u128,
}

/// The initial value of the delivery fee factor: one.
#[allow(non_snake_case)]
pub fn InitialFactor() -> (f: u128)
    ensures
        f == FIXED_ONE,
{
    FIXED_ONE
}

impl Pallet {
    /// The pallet with its initial fee factor of one.
    pub fn new() -> (p: Pallet)
        ensures
            p.delivery_fee_factor == FIXED_ONE,
    {
        Pallet { delivery_fee_factor: InitialFactor() }
    }

    /// The number to multiply the base delivery fee by.
    pub fn delivery_fee_factor(&self) -> (r: u128)
        ensures
            r == self.delivery_fee_factor,
    {
        self.delivery_fee_factor
    }

    /// Start of a block: if the queue is not congested, decrease the factor
    /// towards one.
    pub fn on_initialize(&mut self, is_congested: bool) -> (w: OnInitializeWeight)
        ensures
            is_congested ==> final(self).delivery_fee_factor == old(self).delivery_fee_factor
                && w == OnInitializeWeight::WhenCongested,
            !is_congested ==> final(self).delivery_fee_factor == decreased_factor(
                old(self).delivery_fee_factor,
            ),
            !is_congested ==> (w == if final(self).delivery_fee_factor != old(
                self,
            ).delivery_fee_factor {
                OnInitializeWeight::WhenNonCongested
            } else {
                OnInitializeWeight::WhenNonCongestedWithoutWrite
            }),
    {
        if is_congested {
            return OnInitializeWeight::WhenCongested;
        }
        let previous = self.delivery_fee_factor;
        proof {
            assert(previous as int * FIXED_ONE as int / EXPONENTIAL_FEE_BASE as int <= previous) by (nonlinear_arith);
        }
        let q = match fixed_checked_div(previous, EXPONENTIAL_FEE_BASE) {
            Some(q) => q,
            None => previous,
        };
        let initial = InitialFactor();
        self.delivery_fee_factor = if q > initial { q } else { initial };
        if previous != self.delivery_fee_factor {
            OnInitializeWeight::WhenNonCongested
        } else {
            OnInitializeWeight::WhenNonCongestedWithoutWrite
        }
    }

    /// Called when a new message is sent (queued to the local outbound XCM
    /// queue) over the bridge: if the queue is congested, increase the factor.
    pub fn on_message_sent_to_bridge(&mut self, message_size: u32, is_congested: bool)
        ensures
            !is_congested ==> final(self).delivery_fee_factor == old(self).delivery_fee_factor,
            is_congested ==> final(self).delivery_fee_factor == increased_factor(
                old(self).delivery_fee_factor,
                message_size,
            ),
    {
        if !is_congested {
            return;
        }
        let kilobytes = message_size / 1024;
        let size_factor = fixed_saturating_mul(
            (kilobytes as u128) * FIXED_ONE,
            MESSAGE_SIZE_FEE_BASE,
        );
        let total_factor = fixed_saturating_add(EXPONENTIAL_FEE_BASE, size_factor);
        self.delivery_fee_factor = fixed_saturating_mul(self.delivery_fee_factor, total_factor);
    }

    /// The bridge fee for a message of `message_size` (encoded) bytes to a
    /// network, or `None` when the network is not the bridged one.
    pub fn exporter_for(
        &self,
        network_is_bridged: bool,
        message_size: u32,
        base_fee: u128,
        byte_fee: u128,
    ) -> (r: Option<u128>)
        ensures
            !network_is_bridged ==> r is None,
            network_is_bridged ==> r == Some(
                bridge_fee(self.delivery_fee_factor, message_size, base_fee, byte_fee),
            ),
    {
        if !network_is_bridged {
            return None;
        }
        let message_fee = match (message_size as u128).checked_mul(byte_fee) {
            Some(v) => v,
            None => u128::MAX,
        };
        let fee_sum = base_fee.saturating_add(message_fee);
        Some(fixed_saturating_mul_int(self.delivery_fee_factor, fee_sum))
    }
}

impl Pallet {
    /// Validate a message before it is sent over the bridge: its size is
    /// checked first, then its destination, which must be in the bridged
    /// network. Returns the message size and the bridge fee.
    pub fn validate(
        &self,
        network_is_bridged: bool,
        message_size: Option<u32>,
        base_fee: u128,
        byte_fee: u128,
    ) -> (r: Result<(u32, u128), SendError>)
        ensures
            match message_size {
                None => r == Err::<(u32, u128), SendError>(SendError::MissingArgument),
                Some(n) => if n > HARD_MESSAGE_SIZE_LIMIT {
                    r == Err::<(u32, u128), SendError>(SendError::ExceedsMaxMessageSize)
                } else if !network_is_bridged {
                    r == Err::<(u32, u128), SendError>(SendError::NotApplicable)
                } else {
                    r == Ok::<(u32, u128), SendError>(
                        (n, bridge_fee(self.delivery_fee_factor, n, base_fee, byte_fee)),
                    )
                },
            },
    {
        let size = validate_message_size(message_size)?;
        match self.exporter_for(network_is_bridged, size, base_fee, byte_fee) {
            Some(fee) => Ok((size, fee)),
            None => Err(SendError::NotApplicable),
        }
    }
}

/// The size check of a message before it is sent over the bridge: the size of
/// the message, or why it cannot be sent.
pub fn validate_message_size(message_size: Option<u32>) -> (r: Result<u32, SendError>)
    ensures
        match message_size {
            None => r == Err::<u32, SendError>(SendError::MissingArgument),
            Some(n) => if n > HARD_MESSAGE_SIZE_LIMIT {
                r == Err::<u32, SendError>(SendError::ExceedsMaxMessageSize)
            } else {
                r == Ok::<u32, SendError>(n)
            },
        },
{
    match message_size {
        None => Err(SendError::MissingArgument),
        Some(n) => if n > HARD_MESSAGE_SIZE_LIMIT {
            Err(SendError::ExceedsMaxMessageSize)
        } else {
            Ok(n)
        },
    }
}

/// The factor never drops below one while the queue is uncongested, and a factor
/// of one stays one.
pub proof fn law_decrease_stays_at_least_one(f: u128)
    ensures
        decreased_factor(f) >= FIXED_ONE,
        f == FIXED_ONE ==> decreased_factor(f) == FIXED_ONE,
        f >= FIXED_ONE ==> decreased_factor(f) <= f,
{
    assert(f as int * FIXED_ONE as int / EXPONENTIAL_FEE_BASE as int <= f) by (nonlinear_arith);
    if f == FIXED_ONE {
        assert((FIXED_ONE as int) * (FIXED_ONE as int) / (EXPONENTIAL_FEE_BASE as int) < (
        FIXED_ONE as int));
    }
}

/// While the queue is congested, sending a message never decreases the
/// factor, and strictly increases every factor of at least 20 (inner value)
/// that is not already the largest: 1.05 times it, rounded down, is then
/// larger, and a product that saturates is larger too. Below 20 the rounding
/// can swallow the 5% increase.
pub proof fn law_congestion_increases_factor(f: u128, message_size: u32)
    ensures
        increased_factor(f, message_size) >= f,
        20 <= f < u128::MAX ==> increased_factor(f, message_size) > f,
{
    let kilobytes = message_size / 1024;
    let size_factor = spec_fixed_saturating_mul(
        (kilobytes as int * FIXED_ONE as int) as u128,
        MESSAGE_SIZE_FEE_BASE,
    );
    let total = spec_fixed_saturating_add(EXPONENTIAL_FEE_BASE, size_factor);
    assert(total >= EXPONENTIAL_FEE_BASE);
    let t: int = total as int;
    let fi: int = f as int;
    assert(fi * t / 1_000_000_000_000_000_000 >= fi * 1_050_000_000_000_000_000 / 1_000_000_000_000_000_000)
        by (nonlinear_arith)
        requires
            t >= 1_050_000_000_000_000_000,
            fi >= 0,
    ;
    assert(fi * 1_050_000_000_000_000_000 / 1_000_000_000_000_000_000 >= fi) by (nonlinear_arith)
        requires
            fi >= 0,
    ;
    assert(fi >= 20 ==> fi * 1_050_000_000_000_000_000 / 1_000_000_000_000_000_000 > fi) by (nonlinear_arith)
        requires
            fi >= 0,
    ;
}

} // verus!
