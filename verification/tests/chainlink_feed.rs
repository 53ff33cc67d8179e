use integritee_parachain::chainlink_feed::pallet::NoAnswerHandler;
use integritee_parachain::chainlink_feed::state::{Limits, Pallet};
use integritee_parachain::chainlink_feed::types::{Error, Event, OracleMeta, Origin, Round, RoundData};

const PALLET_ADMIN: u64 = 100;
const CALLER: u64 = 1;
const ORACLE_ADMIN: u64 = 2;
const NEW_OWNER: u64 = 3;
const REQUESTER: u64 = 4;
const RECIPIENT: u64 = 5;
const NEW_ADMIN: u64 = 6;
const NEW_PALLET_ADMIN: u64 = 7;
const CREATOR: u64 = 8;
const ORACLE_COUNT_LIMIT: u32 = 10;
const STRING_LIMIT: u32 = 15;

fn oracle(n: u32) -> u64 {
    10 + n as u64
}

fn new_oracle(n: u32) -> u64 {
    30 + n as u64
}

fn pallet() -> Pallet {
    let mut p = Pallet::new(Limits {
        string_limit: STRING_LIMIT,
        oracle_count_limit: ORACLE_COUNT_LIMIT,
        feed_limit: 10,
        minimum_reserve: 100,
    });
    p.pallet_admin = PALLET_ADMIN;
    p
}

fn signed(a: u64) -> Origin {
    Origin::Signed(a)
}

fn oracles(o: u32) -> Vec<(u64, u64)> {
    (0..o).map(|n| (oracle(n), ORACLE_ADMIN)).collect()
}

/// The feed the scenarios create: payment, bounds (1, 100), the given
/// minimum of submissions, five decimals, a description at the string limit,
/// and a debt limit that the scenarios never reach (they run with an empty
/// fund, so the oracles' rewards become debt).
fn create(p: &mut Pallet, payment: u64, min_submissions: u32, oracles: Vec<(u64, u64)>) -> Result<(), Error> {
    p.create_feed(
        signed(CALLER),
        payment,
        0,
        (1, 100),
        min_submissions,
        5,
        vec![1; STRING_LIMIT as usize],
        0,
        oracles,
        None,
        Some(u64::MAX),
        0,
    )
}

fn with_creator() -> Pallet {
    let mut p = pallet();
    assert_eq!(p.set_feed_creator(signed(PALLET_ADMIN), CALLER), Ok(()));
    p
}

fn submit(p: &mut Pallet, who: u64, round: u32, answer: u64, now: u64, reserve_ok: bool) -> Result<(), Error> {
    p.submit::<NoAnswerHandler>(signed(who), 0, round, answer, now, reserve_ok)
}

#[test]
fn create_feed() {
    for o in [1, ORACLE_COUNT_LIMIT] {
        let mut p = with_creator();
        assert_eq!(create(&mut p, 600, 1, oracles(o)), Ok(()));
        assert_eq!(p.get_feed_config(0).expect("feed should be there").oracle_count, o);
    }
}

#[test]
fn transfer_ownership() {
    let mut p = with_creator();
    assert_eq!(create(&mut p, 600, 1, oracles(1)), Ok(()));
    assert_eq!(p.transfer_ownership(signed(CALLER), 0, NEW_OWNER), Ok(()));
    assert_eq!(p.get_feed_config(0).expect("feed should be there").pending_owner, Some(NEW_OWNER));
}

#[test]
fn accept_ownership() {
    let mut p = with_creator();
    assert_eq!(create(&mut p, 600, 1, oracles(1)), Ok(()));
    assert_eq!(p.transfer_ownership(signed(CALLER), 0, NEW_OWNER), Ok(()));
    assert_eq!(p.accept_ownership(signed(NEW_OWNER), 0), Ok(()));
    assert_eq!(p.get_feed_config(0).expect("feed should be there").owner, NEW_OWNER);
}

#[test]
fn submit_opening_round_answers() {
    let mut p = with_creator();
    let other_oracle = oracle(1);
    assert_eq!(create(&mut p, 600, 1, vec![(oracle(0), ORACLE_ADMIN), (other_oracle, ORACLE_ADMIN)]), Ok(()));
    let answer = 5;
    // create the previous round that will be closed
    assert_eq!(submit(&mut p, other_oracle, 1, answer, 0, false), Ok(()));
    assert_eq!(p.get_round(0, 2), None);
    assert_eq!(submit(&mut p, oracle(0), 2, answer, 1, false), Ok(()));
    // previous round should be cleared
    assert_eq!(p.get_details_timeout(0, 1), None);
    let expected_round = Round { started_at: 1, answer: Some(answer), updated_at: Some(1), answered_in_round: Some(2) };
    assert_eq!(p.get_round(0, 2), Some(expected_round));
}

#[test]
fn submit_closing_answer() {
    for o in [2, ORACLE_COUNT_LIMIT] {
        let mut p = with_creator();
        let all = oracles(o);
        assert_eq!(create(&mut p, 600, o, all.clone()), Ok(()));
        let answer = 42;
        for (who, _) in all.iter() {
            assert_eq!(submit(&mut p, *who, 1, answer, 0, false), Ok(()));
        }
        for (who, _) in all.iter().skip(1) {
            assert_eq!(submit(&mut p, *who, 2, answer, 1, false), Ok(()));
        }
        assert_eq!(p.get_round(0, 2), Some(Round::new(1)));
        assert_eq!(submit(&mut p, all[0].0, 2, answer, 1, false), Ok(()));
        let expected_round = Round { started_at: 1, answer: Some(answer), updated_at: Some(1), answered_in_round: Some(2) };
        assert_eq!(p.get_round(0, 2), Some(expected_round));
    }
}

#[test]
fn change_oracles() {
    for (d, n) in [(1, 1), (1, ORACLE_COUNT_LIMIT), (ORACLE_COUNT_LIMIT, 1), (ORACLE_COUNT_LIMIT, ORACLE_COUNT_LIMIT)] {
        let mut p = with_creator();
        assert_eq!(create(&mut p, 600, 1, oracles(d)), Ok(()));
        let before: Vec<u64> = (0..d).map(oracle).collect();
        let after: Vec<(u64, u64)> = (0..n).map(|k| (new_oracle(k), ORACLE_ADMIN)).collect();
        assert_eq!(p.change_oracles(signed(CALLER), 0, before, after), Ok(()));
        assert_eq!(p.get_feed_config(0).expect("feed should be there").oracle_count, n);
    }
}

#[test]
fn update_future_rounds() {
    let mut p = with_creator();
    assert_eq!(create(&mut p, 600, 1, oracles(2)), Ok(()));
    assert_eq!(p.update_future_rounds(signed(CALLER), 0, 42, (1, 2), 1, 3), Ok(()));
    let config = p.get_feed_config(0).expect("feed should be there");
    assert_eq!(config.payment, 42);
    assert_eq!(config.timeout, 3);
}

#[test]
fn set_requester() {
    let mut p = with_creator();
    assert_eq!(create(&mut p, 600, 1, oracles(1)), Ok(()));
    assert_eq!(p.set_requester(signed(CALLER), 0, REQUESTER, 3), Ok(()));
    assert_eq!(p.get_requester(0, REQUESTER).expect("feed should be there").delay, 3);
}

#[test]
fn remove_requester() {
    let mut p = with_creator();
    assert_eq!(create(&mut p, 600, 1, oracles(1)), Ok(()));
    assert_eq!(p.set_requester(signed(CALLER), 0, REQUESTER, 3), Ok(()));
    assert_eq!(p.remove_requester(signed(CALLER), 0, REQUESTER), Ok(()));
    assert_eq!(p.get_requester(0, REQUESTER), None);
}

#[test]
fn request_new_round() {
    let mut p = with_creator();
    assert_eq!(create(&mut p, 600, 1, oracles(3)), Ok(()));
    assert_eq!(submit(&mut p, oracle(0), 1, 5, 0, false), Ok(()));
    assert_eq!(p.get_feed_config(0).expect("config should be there").reporting_round, 1);
    assert_eq!(p.set_requester(signed(CALLER), 0, REQUESTER, 3), Ok(()));
    assert_eq!(p.request_new_round(signed(REQUESTER), 0, 1), Ok(()));
    assert_eq!(p.get_feed_config(0).expect("config should be there").reporting_round, 2);
}

#[test]
fn withdraw_payment() {
    let mut p = with_creator();
    let payment = 600;
    assert_eq!(create(&mut p, payment, 1, oracles(3)), Ok(()));
    assert_eq!(submit(&mut p, oracle(0), 1, 5, 0, false), Ok(()));
    assert_eq!(p.withdraw_payment(signed(ORACLE_ADMIN), oracle(0), RECIPIENT, payment, true), Ok(()));
    assert_eq!(p.get_oracle(oracle(0)).expect("oracle should be there").withdrawable, 0);
}

#[test]
fn transfer_admin() {
    let mut p = pallet();
    p.oracles.insert(oracle(0), OracleMeta { withdrawable: 0, admin: ORACLE_ADMIN, pending_admin: None });
    assert_eq!(p.transfer_admin(signed(ORACLE_ADMIN), oracle(0), NEW_ADMIN), Ok(()));
    let expected_meta = OracleMeta { withdrawable: 0, admin: ORACLE_ADMIN, pending_admin: Some(NEW_ADMIN) };
    assert_eq!(p.get_oracle(oracle(0)), Some(expected_meta));
}

#[test]
fn accept_admin() {
    let mut p = pallet();
    p.oracles.insert(oracle(0), OracleMeta { withdrawable: 0, admin: ORACLE_ADMIN, pending_admin: None });
    assert_eq!(p.transfer_admin(signed(ORACLE_ADMIN), oracle(0), NEW_ADMIN), Ok(()));
    assert_eq!(p.accept_admin(signed(NEW_ADMIN), oracle(0)), Ok(()));
    let expected_meta = OracleMeta { withdrawable: 0, admin: NEW_ADMIN, pending_admin: None };
    assert_eq!(p.get_oracle(oracle(0)), Some(expected_meta));
}

#[test]
fn withdraw_funds() {
    let p = pallet();
    let payment = 600;
    assert_eq!(p.withdraw_funds(signed(PALLET_ADMIN), RECIPIENT, payment, payment * 1001, true), Ok(()));
}

#[test]
fn reduce_debt() {
    let mut p = with_creator();
    let payment = 600;
    assert_eq!(create(&mut p, payment, 1, vec![(oracle(0), ORACLE_ADMIN)]), Ok(()));
    let rounds = 4;
    for round in 1..(rounds + 1) {
        assert_eq!(submit(&mut p, oracle(0), round, 42, 0, false), Ok(()));
    }
    let debt = rounds as u64 * payment;
    assert_eq!(p.debt(0), Ok(debt));
    assert_eq!(p.debt_to_reserve(0, payment), payment);
    assert_eq!(p.reduce_debt(signed(CALLER), 0, payment, true), Ok(()));
    assert_eq!(p.debt(0), Ok(debt - payment));
}

#[test]
fn transfer_pallet_admin() {
    let mut p = pallet();
    assert_eq!(p.transfer_pallet_admin(signed(PALLET_ADMIN), NEW_PALLET_ADMIN), Ok(()));
    assert_eq!(p.pending_pallet_admin, Some(NEW_PALLET_ADMIN));
}

#[test]
fn accept_pallet_admin() {
    let mut p = pallet();
    assert_eq!(p.transfer_pallet_admin(signed(PALLET_ADMIN), NEW_PALLET_ADMIN), Ok(()));
    assert_eq!(p.accept_pallet_admin(signed(NEW_PALLET_ADMIN)), Ok(()));
    assert_eq!(p.pallet_admin, NEW_PALLET_ADMIN);
    assert_eq!(p.pending_pallet_admin, None);
}

#[test]
fn set_feed_creator() {
    let mut p = pallet();
    assert_eq!(p.set_feed_creator(signed(PALLET_ADMIN), CREATOR), Ok(()));
    assert!(p.feed_creators.contains(&CREATOR));
}

#[test]
fn remove_feed_creator() {
    let mut p = pallet();
    assert_eq!(p.set_feed_creator(signed(PALLET_ADMIN), CREATOR), Ok(()));
    assert_eq!(p.remove_feed_creator(signed(PALLET_ADMIN), CREATOR), Ok(()));
    assert!(!p.feed_creators.contains(&CREATOR));
}

#[test]
fn only_creators_create_feeds_and_failures_change_nothing() {
    let mut p = pallet();
    assert_eq!(create(&mut p, 600, 1, oracles(1)), Err(Error::NotFeedCreator));
    assert!(p.get_feed_config(0).is_none());
    assert!(p.events.is_empty());
    let mut p = with_creator();
    assert_eq!(
        p.create_feed(signed(CALLER), 600, 0, (1, 100), 1, 5, vec![1; 16], 0, oracles(1), None, None, 0),
        Err(Error::DescriptionTooLong)
    );
    assert_eq!(p.set_feed_creator(signed(CALLER), CREATOR), Err(Error::NotPalletAdmin));
    assert_eq!(p.set_feed_creator(Origin::Root, CREATOR), Err(Error::BadOrigin));
}

#[test]
fn submissions_outside_bounds_are_refused() {
    let mut p = with_creator();
    assert_eq!(create(&mut p, 600, 1, oracles(1)), Ok(()));
    assert_eq!(submit(&mut p, oracle(0), 1, 0, 0, true), Err(Error::SubmissionBelowMinimum));
    assert_eq!(submit(&mut p, oracle(0), 1, 101, 0, true), Err(Error::SubmissionAboveMaximum));
    assert_eq!(submit(&mut p, 99, 1, 50, 0, true), Err(Error::NotOracle));
    assert_eq!(submit(&mut p, oracle(0), 1, 50, 0, true), Ok(()));
    assert_eq!(p.debt(0), Ok(0));
    assert_eq!(
        p.latest_data(0),
        Some(RoundData { started_at: 0, answer: 50, updated_at: 0, answered_in_round: 1 })
    );
    assert!(p.events.contains(&Event::AnswerUpdated(0, 1, 50, 0)));
}

#[test]
fn withdrawals_need_the_admin_and_enough_funds() {
    let p = pallet();
    assert_eq!(p.withdraw_funds(signed(CALLER), RECIPIENT, 1, 1000, true), Err(Error::NotPalletAdmin));
    assert_eq!(p.withdraw_funds(signed(PALLET_ADMIN), RECIPIENT, 1001, 1000, true), Err(Error::InsufficientFunds));
    assert_eq!(p.withdraw_funds(signed(PALLET_ADMIN), RECIPIENT, 901, 1000, true), Err(Error::InsufficientReserve));
    assert_eq!(p.withdraw_funds(signed(PALLET_ADMIN), RECIPIENT, 900, 1000, false), Err(Error::Currency));
    assert_eq!(p.withdraw_funds(signed(PALLET_ADMIN), RECIPIENT, 900, 1000, true), Ok(()));
}

#[test]
fn interface_reports_and_requests_rounds() {
    let mut p = with_creator();
    assert_eq!(p.reporting_round_id(0), None);
    assert_eq!(p.request_new_round_for(0, REQUESTER, 1), Err(Error::FeedNotFound));
    assert_eq!(create(&mut p, 600, 1, oracles(3)), Ok(()));
    assert_eq!(submit(&mut p, oracle(0), 1, 5, 0, false), Ok(()));
    assert_eq!(p.reporting_round_id(0), Some(1));
    assert_eq!(p.set_requester(signed(CALLER), 0, REQUESTER, 3), Ok(()));
    assert_eq!(p.request_new_round_for(0, REQUESTER, 1), Ok(()));
    assert_eq!(p.reporting_round_id(0), Some(2));
}

#[test]
fn a_feed_without_a_debt_limit_takes_no_debt() {
    let mut p = with_creator();
    assert_eq!(
        p.create_feed(signed(CALLER), 600, 0, (1, 100), 1, 5, vec![1; STRING_LIMIT as usize], 0, oracles(1), None, None, 0),
        Ok(())
    );
    assert_eq!(submit(&mut p, oracle(0), 1, 5, 0, false), Err(Error::MaxDebtReached));
    assert_eq!(p.debt(0), Ok(0));
    assert_eq!(p.reporting_round_id(0), Some(0));
    // With the payment reserved from the fund, the submission goes through.
    assert_eq!(submit(&mut p, oracle(0), 1, 5, 0, true), Ok(()));
    assert_eq!(p.debt(0), Ok(0));
}

#[test]
fn debt_stops_below_the_limit() {
    let mut p = with_creator();
    assert_eq!(
        p.create_feed(signed(CALLER), 600, 0, (1, 100), 1, 5, vec![1; STRING_LIMIT as usize], 0, oracles(1), None, Some(1300), 0),
        Ok(())
    );
    assert_eq!(submit(&mut p, oracle(0), 1, 5, 0, false), Ok(()));
    assert_eq!(submit(&mut p, oracle(0), 2, 5, 0, false), Ok(()));
    assert_eq!(p.debt(0), Ok(1200));
    assert_eq!(p.get_oracle(oracle(0)).expect("oracle should be there").withdrawable, 1200);
    assert_eq!(submit(&mut p, oracle(0), 3, 5, 0, false), Err(Error::MaxDebtReached));
    assert_eq!(p.debt(0), Ok(1200));
    assert_eq!(p.get_oracle(oracle(0)).expect("oracle should be there").withdrawable, 1200);
}

#[test]
fn narrowing_the_pruning_window_removes_the_oldest_rounds() {
    let mut p = with_creator();
    assert_eq!(create(&mut p, 600, 1, oracles(1)), Ok(()));
    for round in 1..=5 {
        assert_eq!(submit(&mut p, oracle(0), round, 5, 0, true), Ok(()));
    }
    assert_eq!(p.first_valid_round(0), Some(Some(1)));
    assert_eq!(p.set_pruning_window(signed(NEW_OWNER), 0, 2), Err(Error::NotFeedOwner));
    assert_eq!(p.set_pruning_window(signed(CALLER), 0, 0), Err(Error::CannotPruneRoundZero));
    assert_eq!(p.set_pruning_window(signed(CALLER), 0, 2), Ok(()));
    for round in 1..=3 {
        assert_eq!(p.get_round(0, round), None);
        assert_eq!(p.get_details_timeout(0, round), None);
    }
    for round in 4..=5 {
        assert!(p.get_round(0, round).is_some());
    }
    assert_eq!(p.first_valid_round(0), Some(Some(4)));
    let cfg = p.get_feed_config(0).expect("feed should be there");
    assert_eq!(cfg.pruning_window, 2);
    assert_eq!(cfg.next_round_to_prune, 4);
    assert_eq!(cfg.latest_round, 5);
}

#[test]
fn a_round_is_answered_with_the_median_of_its_submissions() {
    let mut p = with_creator();
    assert_eq!(create(&mut p, 600, 3, oracles(3)), Ok(()));
    assert_eq!(submit(&mut p, oracle(0), 1, 9, 4, true), Ok(()));
    assert_eq!(submit(&mut p, oracle(1), 1, 1, 4, true), Ok(()));
    assert_eq!(p.get_round(0, 1), Some(Round::new(4)));
    assert_eq!(submit(&mut p, oracle(2), 1, 5, 6, true), Ok(()));
    let expected_round = Round { started_at: 4, answer: Some(5), updated_at: Some(6), answered_in_round: Some(1) };
    assert_eq!(p.get_round(0, 1), Some(expected_round));
    assert_eq!(p.latest_round(0), Some(1));
}
