use integritee_parachain::bridge_router::{
    InitialFactor, LocalXcmChannel, NeverCongested, OnInitializeWeight, Pallet, SendError, HARD_MESSAGE_SIZE_LIMIT,
};
use integritee_parachain::fixed::FIXED_ONE;
use sp_arithmetic::traits::One;
use sp_arithmetic::{FixedPointNumber, FixedU128};

const BASE_FEE: u128 = 1_000_000_000;
const BYTE_FEE: u128 = 1_000;

/// Encoded size of an XCM program made of a single `ClearOrigin`.
const ONE_INSTRUCTION_SIZE: u32 = 2;

fn fixed(n: u128, d: u128) -> u128 {
    FixedU128::from_rational(n, d).into_inner()
}

#[test]
fn initial_fee_factor_is_one() {
    let pallet = Pallet::new();
    assert_eq!(pallet.delivery_fee_factor(), FixedU128::one().into_inner());
}

#[test]
fn fee_factor_is_not_decreased_from_on_initialize_when_queue_is_congested() {
    let mut pallet = Pallet::new();
    pallet.delivery_fee_factor = fixed(125, 100);
    let old_delivery_fee_factor = pallet.delivery_fee_factor();
    assert_eq!(pallet.on_initialize(true), OnInitializeWeight::WhenCongested);
    assert_eq!(pallet.delivery_fee_factor(), old_delivery_fee_factor);
}

#[test]
fn fee_factor_is_decreased_from_on_initialize_when_queue_is_uncongested() {
    let mut pallet = Pallet::new();
    pallet.delivery_fee_factor = fixed(125, 100);
    while pallet.delivery_fee_factor() > FixedU128::one().into_inner() {
        assert_eq!(pallet.on_initialize(NeverCongested::is_congested()), OnInitializeWeight::WhenNonCongested);
    }
    assert_eq!(pallet.on_initialize(false), OnInitializeWeight::WhenNonCongestedWithoutWrite);
    assert_eq!(pallet.delivery_fee_factor(), FixedU128::one().into_inner());
}

#[test]
fn not_applicable_if_destination_is_within_other_network() {
    let pallet = Pallet::new();
    assert_eq!(
        pallet.validate(false, Some(1), BASE_FEE, BYTE_FEE),
        Err(SendError::NotApplicable)
    );
}

#[test]
fn exceeds_max_message_size_if_size_is_above_hard_limit() {
    let pallet = Pallet::new();
    // `HARD_MESSAGE_SIZE_LIMIT` instructions, behind a four-byte length prefix.
    let size = HARD_MESSAGE_SIZE_LIMIT + 4;
    assert_eq!(
        pallet.validate(false, Some(size), BASE_FEE, BYTE_FEE),
        Err(SendError::ExceedsMaxMessageSize)
    );
}

#[test]
fn returns_proper_delivery_price() {
    let mut pallet = Pallet::new();
    let msg_size = ONE_INSTRUCTION_SIZE;
    let expected_fee = BASE_FEE + BYTE_FEE * (msg_size as u128);
    assert_eq!(
        pallet.validate(true, Some(msg_size), BASE_FEE, BYTE_FEE),
        Ok((msg_size, expected_fee))
    );

    let factor = FixedU128::from_rational(125, 100);
    pallet.delivery_fee_factor = factor.into_inner();
    let expected_fee = (FixedU128::saturating_from_integer(BASE_FEE + BYTE_FEE * (msg_size as u128)) * factor)
        .into_inner()
        / FixedU128::DIV;
    assert_eq!(
        pallet.validate(true, Some(msg_size), BASE_FEE, BYTE_FEE),
        Ok((msg_size, expected_fee))
    );
}

#[test]
fn sent_message_doesnt_increase_factor_if_queue_is_uncongested() {
    let mut pallet = Pallet::new();
    let old_delivery_fee_factor = pallet.delivery_fee_factor();
    assert!(pallet.validate(true, Some(ONE_INSTRUCTION_SIZE), BASE_FEE, BYTE_FEE).is_ok());
    pallet.on_message_sent_to_bridge(ONE_INSTRUCTION_SIZE, false);
    assert_eq!(old_delivery_fee_factor, pallet.delivery_fee_factor());
}

#[test]
fn sent_message_increases_factor_if_queue_is_congested() {
    let mut pallet = Pallet::new();
    let old_delivery_fee_factor = pallet.delivery_fee_factor();
    assert!(pallet.validate(true, Some(ONE_INSTRUCTION_SIZE), BASE_FEE, BYTE_FEE).is_ok());
    pallet.on_message_sent_to_bridge(ONE_INSTRUCTION_SIZE, true);
    assert!(old_delivery_fee_factor < pallet.delivery_fee_factor());
}

#[test]
fn congested_factor_grows_by_five_percent_plus_size_share() {
    let mut pallet = Pallet::new();
    pallet.on_message_sent_to_bridge(100, true);
    assert_eq!(pallet.delivery_fee_factor(), fixed(105, 100));
    let mut pallet = Pallet::new();
    pallet.on_message_sent_to_bridge(3 * 1024 + 5, true);
    assert_eq!(pallet.delivery_fee_factor(), fixed(1053, 1000));
    assert_eq!(FIXED_ONE, FixedU128::DIV);
}

#[test]
fn uncongested_factor_shrinks_by_five_percent() {
    let mut pallet = Pallet::new();
    pallet.delivery_fee_factor = fixed(105, 100) * 2;
    pallet.on_initialize(false);
    assert_eq!(pallet.delivery_fee_factor(), FixedU128::from_u32(2).into_inner());
}

#[test]
fn missing_message_cannot_be_sent() {
    let pallet = Pallet::new();
    assert_eq!(pallet.validate(true, None, BASE_FEE, BYTE_FEE), Err(SendError::MissingArgument));
    assert_eq!(pallet.exporter_for(false, 10, BASE_FEE, BYTE_FEE), None);
    assert_eq!(pallet.exporter_for(true, 10, u128::MAX, BYTE_FEE), Some(u128::MAX));
}

#[test]
fn the_initial_factor_is_one() {
    assert_eq!(InitialFactor(), FIXED_ONE);
    assert_eq!(Pallet::new().delivery_fee_factor(), InitialFactor());
}

#[test]
fn congestion_grows_every_factor_but_the_tiniest() {
    let mut pallet = Pallet::new();
    pallet.delivery_fee_factor = 19;
    pallet.on_message_sent_to_bridge(ONE_INSTRUCTION_SIZE, true);
    assert_eq!(pallet.delivery_fee_factor(), 19);
    pallet.delivery_fee_factor = 20;
    pallet.on_message_sent_to_bridge(ONE_INSTRUCTION_SIZE, true);
    assert_eq!(pallet.delivery_fee_factor(), 21);
    pallet.delivery_fee_factor = u128::MAX - 1;
    pallet.on_message_sent_to_bridge(ONE_INSTRUCTION_SIZE, true);
    assert_eq!(pallet.delivery_fee_factor(), u128::MAX);
}
