use integritee_parachain::orml::auction::{Change, OnNewBidResult};
use integritee_parachain::orml::data_provider::{median, median_of_provided, DataProvider};
use integritee_parachain::orml::offchain_worker::OffchainErr;
use integritee_parachain::orml::price::{relative_price, DefaultPriceProvider, PriceProvider};
use sp_arithmetic::{FixedPointNumber, FixedU128};

struct MockDataProvider;

impl DataProvider<u32, u128> for MockDataProvider {
    fn get(currency: &u32) -> Option<u128> {
        match currency {
            0 => Some(0),
            1 => Some(1),
            2 => Some(2),
            _ => None,
        }
    }
}

type TestPriceProvider = DefaultPriceProvider<u32, MockDataProvider>;

fn price(base: u32, quote: u32) -> Option<u128> {
    <TestPriceProvider as PriceProvider<u32, u128>>::get_price(base, quote)
}

#[test]
fn median_value_data_provider_works() {
    assert_eq!(median_of_provided(&vec![None, None, None, None]), None);

    let data = vec![
        (vec![None, None, None, Some(1)], Some(1)),
        (vec![None, None, Some(2), Some(1)], Some(2)),
        (vec![Some(5), Some(2), None, Some(7)], Some(5)),
        (vec![Some(5), Some(13), Some(2), Some(7)], Some(7)),
    ];

    for (values, target) in data {
        assert_eq!(median_of_provided(&values), target);
    }
}

#[test]
fn median_picks_upper_middle_of_even_count() {
    assert_eq!(median(vec![4, 1, 3, 2]), Some(3));
    assert_eq!(median(vec![9]), Some(9));
    assert_eq!(median(vec![]), None);
    assert_eq!(median(vec![7, 7, 1]), Some(7));
}

#[test]
fn get_price_should_work() {
    assert_eq!(price(1, 2), Some(FixedU128::saturating_from_rational(1, 2).into_inner()));
    assert_eq!(price(2, 1), Some(FixedU128::saturating_from_rational(2, 1).into_inner()));
}

#[test]
fn price_is_none_should_not_panic() {
    assert_eq!(price(3, 3), None);
    assert_eq!(price(3, 1), None);
    assert_eq!(price(1, 3), None);
}

#[test]
fn price_is_zero_should_not_panic() {
    assert_eq!(price(0, 0), None);
    assert_eq!(price(1, 0), None);
    assert_eq!(price(0, 1), Some(FixedU128::from_inner(0).into_inner()));
}

#[test]
fn relative_price_divides_fixed_point_values() {
    let one = FixedU128::from_u32(1).into_inner();
    let three = FixedU128::from_u32(3).into_inner();
    assert_eq!(relative_price(Some(three), Some(one)), Some(three));
    assert_eq!(
        relative_price(Some(one), Some(three)),
        Some(FixedU128::saturating_from_rational(1, 3).into_inner())
    );
    assert_eq!(relative_price(None, Some(one)), None);
    assert_eq!(relative_price(Some(u128::MAX), Some(1)), None);
}

#[test]
fn offchain_errors_describe_themselves() {
    assert_eq!(OffchainErr::OffchainStore.describe(), "Failed to manipulate offchain store");
    assert_eq!(OffchainErr::SubmitTransaction.describe(), "Failed to submit transaction");
    assert_eq!(OffchainErr::NotValidator.describe(), "Is not validator");
    assert_eq!(OffchainErr::OffchainLock.describe(), "Failed to manipulate offchain lock");
    assert!(OffchainErr::NotValidator == OffchainErr::NotValidator);
    assert!(OffchainErr::NotValidator != OffchainErr::OffchainLock);
}

#[test]
fn bid_results_carry_the_end_change() {
    let r: OnNewBidResult<u32> = OnNewBidResult {
        accept_bid: true,
        auction_end_change: Change::NewValue(Some(100)),
    };
    assert!(r.accept_bid);
    assert_eq!(r.auction_end_change, Change::NewValue(Some(100)));
    let unchanged: OnNewBidResult<u32> = OnNewBidResult { accept_bid: false, auction_end_change: Change::NoChange };
    assert_eq!(unchanged.auction_end_change, Change::NoChange);
}
