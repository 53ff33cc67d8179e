use integritee_parachain::orml::tokens::adapter::CurrencyAdapter;
use integritee_parachain::orml::tokens::imbalances::{NegativeImbalance, PositiveImbalance, SameOrOther, SignedImbalance};
use integritee_parachain::orml::tokens::state::{Tokens, TokensConfig};
use integritee_parachain::orml::tokens::types::{
    AccountData, BalanceStatus, DepositConsequence, DustHandler, Error, Event, ExistenceRequirement,
    WithdrawConsequence,
};
use integritee_parachain::origin::Origin;

const DOT: u32 = 1;
const BTC: u32 = 2;
const ETH: u32 = 3;
const ALICE: u64 = 0;
const BOB: u64 = 1;
const CHARLIE: u64 = 2;
const TREASURY_ACCOUNT: u64 = 3;
/// The account of the dust module.
const DUST_ACCOUNT: u64 = 0x6d6f_646c_6f72_6d6c;
/// The account of the treasury module.
const TREASURY_MODULE_ACCOUNT: u64 = 0x6d6f_646c_7079_2f74;

fn id(bytes: &[u8; 8]) -> u64 {
    u64::from_le_bytes(*bytes)
}

fn id_1() -> u64 {
    id(b"1       ")
}

fn id_2() -> u64 {
    id(b"2       ")
}

fn id_3() -> u64 {
    id(b"3       ")
}

fn config() -> TokensConfig {
    TokensConfig {
        existential_deposits: vec![(BTC, 1), (DOT, 2)],
        module_accounts: vec![DUST_ACCOUNT, TREASURY_MODULE_ACCOUNT],
        dust: DustHandler::TransferTo(DUST_ACCOUNT),
        max_locks: 2,
    }
}

fn build(balances: Vec<(u64, u32, u64)>) -> Tokens {
    Tokens::build_genesis(config(), &balances)
}

fn one_hundred_for_alice_n_bob() -> Tokens {
    build(vec![(ALICE, DOT, 100), (BOB, DOT, 100)])
}

fn treasury() -> CurrencyAdapter {
    CurrencyAdapter { currency_id: DOT }
}

/// The treasury account holds one hundred, and the treasury module is
/// endowed with the minimum balance at genesis.
fn one_hundred_for_treasury_account() -> Tokens {
    let mut t = build(vec![(TREASURY_ACCOUNT, DOT, 100)]);
    let min = treasury().minimum_balance(&t);
    if treasury().free_balance(&t, TREASURY_MODULE_ACCOUNT) < min {
        let imbalance = treasury().make_free_balance_be(&mut t, TREASURY_MODULE_ACCOUNT, min);
        settle(&mut t, imbalance);
    }
    t.events = Vec::new();
    t
}

fn settle(t: &mut Tokens, imbalance: SignedImbalance) {
    match imbalance {
        SignedImbalance::Positive(p) => t.settle_positive(p),
        SignedImbalance::Negative(n) => t.settle_negative(n),
    }
}

type Snapshot = (
    std::collections::HashMap<u128, AccountData>,
    std::collections::HashMap<u32, u64>,
    std::collections::HashMap<u64, u32>,
    std::collections::HashMap<u64, u32>,
    Vec<Event>,
    Vec<Vec<u64>>,
);

fn snapshot(t: &Tokens) -> Snapshot {
    let locks = [ALICE, BOB, CHARLIE, TREASURY_ACCOUNT]
        .iter()
        .flat_map(|who| [DOT, BTC, ETH].iter().map(move |c| (*who, *c)))
        .map(|(who, c)| t.locks(who, c).iter().map(|l| l.amount).collect())
        .collect();
    (
        t.accounts.clone(),
        t.total_issuance.clone(),
        t.providers.clone(),
        t.consumers.clone(),
        t.events.clone(),
        locks,
    )
}

fn assert_noop<T: std::fmt::Debug>(t: &mut Tokens, f: impl FnOnce(&mut Tokens) -> Result<T, Error>, e: Error) {
    let before = snapshot(t);
    let r = f(t);
    assert_eq!(r.map(|_| ()), Err(e));
    assert!(snapshot(t) == before, "storage changed");
}

#[test]
fn minimum_balance_work() {
    let t = build(vec![]);
    assert_eq!(t.minimum_balance(BTC), 1);
    assert_eq!(t.minimum_balance(DOT), 2);
    assert_eq!(t.minimum_balance(ETH), 0);
}

#[test]
fn is_module_account_id_work() {
    let t = build(vec![]);
    assert_eq!(t.is_module_account_id(ALICE), false);
    assert_eq!(t.is_module_account_id(BOB), false);
    assert_eq!(t.is_module_account_id(TREASURY_ACCOUNT), false);
    assert_eq!(t.is_module_account_id(DUST_ACCOUNT), true);
}

#[test]
fn remove_dust_work() {
    let mut t = build(vec![]);
    assert_eq!(t.deposit(DOT, ALICE, 100), Ok(()));
    assert_eq!(t.total_issuance(DOT), 100);
    assert_eq!(t.has_account(ALICE, DOT), true);
    assert_eq!(t.free_balance(DOT, ALICE), 100);
    assert_eq!(t.providers(ALICE), 1);
    assert_eq!(t.has_account(DUST_ACCOUNT, DOT), false);
    assert_eq!(t.free_balance(DOT, DUST_ACCOUNT), 0);
    assert_eq!(t.providers(DUST_ACCOUNT), 0);

    // total is gte ED, will not handle dust
    assert_eq!(t.withdraw(DOT, ALICE, 98), Ok(()));
    assert_eq!(t.total_issuance(DOT), 2);
    assert_eq!(t.has_account(ALICE, DOT), true);
    assert_eq!(t.free_balance(DOT, ALICE), 2);
    assert_eq!(t.providers(ALICE), 1);
    assert_eq!(t.has_account(DUST_ACCOUNT, DOT), false);
    assert_eq!(t.free_balance(DOT, DUST_ACCOUNT), 0);
    assert_eq!(t.providers(DUST_ACCOUNT), 0);

    assert_eq!(t.withdraw(DOT, ALICE, 1), Ok(()));

    // total is lte ED, will handle dust
    assert_eq!(t.total_issuance(DOT), 1);
    assert_eq!(t.has_account(ALICE, DOT), false);
    assert_eq!(t.free_balance(DOT, ALICE), 0);
    assert_eq!(t.providers(ALICE), 0);

    // will not handle dust for module account
    assert_eq!(t.has_account(DUST_ACCOUNT, DOT), true);
    assert_eq!(t.free_balance(DOT, DUST_ACCOUNT), 1);
    assert_eq!(t.providers(DUST_ACCOUNT), 1);

    assert_eq!(t.events.last(), Some(&Event::DustLost(DOT, ALICE, 1)));
}

#[test]
fn set_free_balance_should_work() {
    let mut t = build(vec![]);
    t.set_free_balance(DOT, ALICE, 100);
    assert_eq!(t.events.last(), Some(&Event::Endowed(DOT, ALICE, 100)));
}

#[test]
fn set_lock_should_work() {
    let mut t = one_hundred_for_alice_n_bob();
    assert_eq!(t.set_lock(id_1(), DOT, ALICE, 10), Ok(()));
    assert_eq!(t.accounts(ALICE, DOT).frozen, 10);
    assert_eq!(t.accounts(ALICE, DOT).frozen(), 10);
    assert_eq!(t.locks(ALICE, DOT).len(), 1);
    assert_eq!(t.set_lock(id_1(), DOT, ALICE, 50), Ok(()));
    assert_eq!(t.accounts(ALICE, DOT).frozen, 50);
    assert_eq!(t.locks(ALICE, DOT).len(), 1);
    assert_eq!(t.set_lock(id_2(), DOT, ALICE, 60), Ok(()));
    assert_eq!(t.accounts(ALICE, DOT).frozen, 60);
    assert_eq!(t.locks(ALICE, DOT).len(), 2);
}

#[test]
fn extend_lock_should_work() {
    let mut t = one_hundred_for_alice_n_bob();
    assert_eq!(t.set_lock(id_1(), DOT, ALICE, 10), Ok(()));
    assert_eq!(t.locks(ALICE, DOT).len(), 1);
    assert_eq!(t.accounts(ALICE, DOT).frozen, 10);
    assert_eq!(t.extend_lock(id_1(), DOT, ALICE, 20), Ok(()));
    assert_eq!(t.locks(ALICE, DOT).len(), 1);
    assert_eq!(t.accounts(ALICE, DOT).frozen, 20);
    assert_eq!(t.extend_lock(id_2(), DOT, ALICE, 10), Ok(()));
    assert_eq!(t.extend_lock(id_1(), DOT, ALICE, 20), Ok(()));
    assert_eq!(t.locks(ALICE, DOT).len(), 2);
}

#[test]
fn remove_lock_should_work() {
    let mut t = one_hundred_for_alice_n_bob();
    assert_eq!(t.set_lock(id_1(), DOT, ALICE, 10), Ok(()));
    assert_eq!(t.set_lock(id_2(), DOT, ALICE, 20), Ok(()));
    assert_eq!(t.locks(ALICE, DOT).len(), 2);
    assert_eq!(t.remove_lock(id_2(), DOT, ALICE), Ok(()));
    assert_eq!(t.locks(ALICE, DOT).len(), 1);
}

#[test]
fn frozen_can_limit_liquidity() {
    let mut t = one_hundred_for_alice_n_bob();
    assert_eq!(t.set_lock(id_1(), DOT, ALICE, 90), Ok(()));
    assert_noop(&mut t, |t| t.transfer(DOT, ALICE, BOB, 11), Error::LiquidityRestrictions);
    assert_eq!(t.set_lock(id_1(), DOT, ALICE, 10), Ok(()));
    assert_eq!(t.transfer(DOT, ALICE, BOB, 11), Ok(()));
}

#[test]
fn can_reserve_is_correct() {
    let t = one_hundred_for_alice_n_bob();
    assert_eq!(t.can_reserve(DOT, ALICE, 0), true);
    assert_eq!(t.can_reserve(DOT, ALICE, 101), false);
    assert_eq!(t.can_reserve(DOT, ALICE, 100), true);
}

#[test]
fn reserve_should_work() {
    let mut t = one_hundred_for_alice_n_bob();
    assert_noop(&mut t, |t| t.reserve(DOT, ALICE, 101), Error::BalanceTooLow);
    assert_eq!(t.reserve(DOT, ALICE, 0), Ok(()));
    assert_eq!(t.free_balance(DOT, ALICE), 100);
    assert_eq!(t.reserved_balance(DOT, ALICE), 0);
    assert_eq!(t.total_balance(DOT, ALICE), 100);
    assert_eq!(t.reserve(DOT, ALICE, 50), Ok(()));
    assert_eq!(t.events.last(), Some(&Event::Reserved(DOT, ALICE, 50)));
    assert_eq!(t.free_balance(DOT, ALICE), 50);
    assert_eq!(t.reserved_balance(DOT, ALICE), 50);
    assert_eq!(t.total_balance(DOT, ALICE), 100);
}

#[test]
fn unreserve_should_work() {
    let mut t = one_hundred_for_alice_n_bob();
    assert_eq!(t.free_balance(DOT, ALICE), 100);
    assert_eq!(t.reserved_balance(DOT, ALICE), 0);
    assert_eq!(t.unreserve(DOT, ALICE, 0), 0);
    assert_eq!(t.unreserve(DOT, ALICE, 50), 50);
    assert_eq!(t.events.last(), Some(&Event::Unreserved(DOT, ALICE, 0)));
    assert_eq!(t.reserve(DOT, ALICE, 30), Ok(()));
    assert_eq!(t.events.last(), Some(&Event::Reserved(DOT, ALICE, 30)));
    assert_eq!(t.free_balance(DOT, ALICE), 70);
    assert_eq!(t.reserved_balance(DOT, ALICE), 30);
    assert_eq!(t.unreserve(DOT, ALICE, 15), 0);
    assert_eq!(t.events.last(), Some(&Event::Unreserved(DOT, ALICE, 15)));
    assert_eq!(t.free_balance(DOT, ALICE), 85);
    assert_eq!(t.reserved_balance(DOT, ALICE), 15);
    assert_eq!(t.unreserve(DOT, ALICE, 30), 15);
    assert_eq!(t.events.last(), Some(&Event::Unreserved(DOT, ALICE, 15)));
    assert_eq!(t.free_balance(DOT, ALICE), 100);
    assert_eq!(t.reserved_balance(DOT, ALICE), 0);
}

#[test]
fn slash_reserved_should_work() {
    let mut t = one_hundred_for_alice_n_bob();
    assert_eq!(t.reserve(DOT, ALICE, 50), Ok(()));
    assert_eq!(t.free_balance(DOT, ALICE), 50);
    assert_eq!(t.reserved_balance(DOT, ALICE), 50);
    assert_eq!(t.total_issuance(DOT), 200);
    assert_eq!(t.slash_reserved(DOT, ALICE, 0), 0);
    assert_eq!(t.free_balance(DOT, ALICE), 50);
    assert_eq!(t.reserved_balance(DOT, ALICE), 50);
    assert_eq!(t.total_issuance(DOT), 200);
    assert_eq!(t.slash_reserved(DOT, ALICE, 100), 50);
    assert_eq!(t.free_balance(DOT, ALICE), 50);
    assert_eq!(t.reserved_balance(DOT, ALICE), 0);
    assert_eq!(t.total_issuance(DOT), 150);
}

#[test]
fn repatriate_reserved_should_work() {
    let mut t = one_hundred_for_alice_n_bob();
    assert_eq!(t.free_balance(DOT, ALICE), 100);
    assert_eq!(t.reserved_balance(DOT, ALICE), 0);
    assert_eq!(t.repatriate_reserved(DOT, ALICE, ALICE, 0, BalanceStatus::Free), Ok(0));
    assert_eq!(t.repatriate_reserved(DOT, ALICE, ALICE, 50, BalanceStatus::Free), Ok(50));
    assert_eq!(t.free_balance(DOT, ALICE), 100);
    assert_eq!(t.reserved_balance(DOT, ALICE), 0);

    assert_eq!(t.free_balance(DOT, BOB), 100);
    assert_eq!(t.reserved_balance(DOT, BOB), 0);
    assert_eq!(t.reserve(DOT, BOB, 50), Ok(()));
    assert_eq!(t.free_balance(DOT, BOB), 50);
    assert_eq!(t.reserved_balance(DOT, BOB), 50);
    assert_eq!(t.repatriate_reserved(DOT, BOB, BOB, 60, BalanceStatus::Reserved), Ok(10));
    assert_eq!(t.free_balance(DOT, BOB), 50);
    assert_eq!(t.reserved_balance(DOT, BOB), 50);

    assert_eq!(t.repatriate_reserved(DOT, BOB, ALICE, 30, BalanceStatus::Reserved), Ok(0));
    assert_eq!(t.free_balance(DOT, ALICE), 100);
    assert_eq!(t.reserved_balance(DOT, ALICE), 30);
    assert_eq!(t.free_balance(DOT, BOB), 50);
    assert_eq!(t.reserved_balance(DOT, BOB), 20);

    assert_eq!(t.repatriate_reserved(DOT, BOB, ALICE, 30, BalanceStatus::Free), Ok(10));
    assert_eq!(t.free_balance(DOT, ALICE), 120);
    assert_eq!(t.reserved_balance(DOT, ALICE), 30);
    assert_eq!(t.free_balance(DOT, BOB), 50);
    assert_eq!(t.reserved_balance(DOT, BOB), 0);
}

#[test]
fn slash_draw_reserved_correct() {
    let mut t = one_hundred_for_alice_n_bob();
    assert_eq!(t.reserve(DOT, ALICE, 50), Ok(()));
    assert_eq!(t.free_balance(DOT, ALICE), 50);
    assert_eq!(t.reserved_balance(DOT, ALICE), 50);
    assert_eq!(t.total_issuance(DOT), 200);

    assert_eq!(t.slash(DOT, ALICE, 80), 0);
    assert_eq!(t.free_balance(DOT, ALICE), 0);
    assert_eq!(t.reserved_balance(DOT, ALICE), 20);
    assert_eq!(t.total_issuance(DOT), 120);

    assert_eq!(t.slash(DOT, ALICE, 50), 30);
    assert_eq!(t.free_balance(DOT, ALICE), 0);
    assert_eq!(t.reserved_balance(DOT, ALICE), 0);
    assert_eq!(t.total_issuance(DOT), 100);
}

#[test]
fn genesis_issuance_should_work() {
    let t = one_hundred_for_alice_n_bob();
    assert_eq!(t.free_balance(DOT, ALICE), 100);
    assert_eq!(t.free_balance(DOT, BOB), 100);
    assert_eq!(t.total_issuance(DOT), 200);
}

#[test]
fn transfer_should_work() {
    let mut t = one_hundred_for_alice_n_bob();
    assert_eq!(t.transfer_call(Origin::Signed(ALICE), BOB, DOT, 50), Ok(()));
    assert_eq!(t.free_balance(DOT, ALICE), 50);
    assert_eq!(t.free_balance(DOT, BOB), 150);
    assert_eq!(t.total_issuance(DOT), 200);

    assert_eq!(t.events.last(), Some(&Event::Transfer(DOT, ALICE, BOB, 50)));

    assert_noop(&mut t, |t| t.transfer_call(Origin::Signed(ALICE), BOB, DOT, 60), Error::BalanceTooLow);
    assert_noop(&mut t, |t| t.transfer_call(Origin::Signed(ALICE), CHARLIE, DOT, 1), Error::ExistentialDeposit);
    assert_eq!(t.transfer_call(Origin::Signed(ALICE), CHARLIE, DOT, 2), Ok(()));
}

#[test]
fn transfer_all_should_work() {
    let mut t = one_hundred_for_alice_n_bob();
    assert_eq!(t.transfer_all_call(Origin::Signed(ALICE), BOB, DOT), Ok(()));
    assert_eq!(t.free_balance(DOT, ALICE), 0);
    assert_eq!(t.free_balance(DOT, BOB), 200);
    assert_eq!(t.events.last(), Some(&Event::Transfer(DOT, ALICE, BOB, 100)));
}

#[test]
fn deposit_should_work() {
    let mut t = one_hundred_for_alice_n_bob();
    assert_eq!(t.deposit(DOT, ALICE, 100), Ok(()));
    assert_eq!(t.free_balance(DOT, ALICE), 200);
    assert_eq!(t.total_issuance(DOT), 300);

    assert_noop(&mut t, |t| t.deposit(DOT, ALICE, u64::MAX), Error::Overflow);
}

#[test]
fn withdraw_should_work() {
    let mut t = one_hundred_for_alice_n_bob();
    assert_eq!(t.withdraw(DOT, ALICE, 50), Ok(()));
    assert_eq!(t.free_balance(DOT, ALICE), 50);
    assert_eq!(t.total_issuance(DOT), 150);

    assert_noop(&mut t, |t| t.withdraw(DOT, ALICE, 60), Error::BalanceTooLow);
}

#[test]
fn slash_should_work() {
    let mut t = one_hundred_for_alice_n_bob();
    // slashed_amount < amount
    assert_eq!(t.slash(DOT, ALICE, 50), 0);
    assert_eq!(t.free_balance(DOT, ALICE), 50);
    assert_eq!(t.total_issuance(DOT), 150);

    // slashed_amount == amount
    assert_eq!(t.slash(DOT, ALICE, 51), 1);
    assert_eq!(t.free_balance(DOT, ALICE), 0);
    assert_eq!(t.total_issuance(DOT), 100);
}

#[test]
fn update_balance_should_work() {
    let mut t = one_hundred_for_alice_n_bob();
    assert_eq!(t.update_balance(DOT, ALICE, 50), Ok(()));
    assert_eq!(t.free_balance(DOT, ALICE), 150);
    assert_eq!(t.total_issuance(DOT), 250);

    assert_eq!(t.update_balance(DOT, BOB, -50), Ok(()));
    assert_eq!(t.free_balance(DOT, BOB), 50);
    assert_eq!(t.total_issuance(DOT), 200);

    assert_noop(&mut t, |t| t.update_balance(DOT, BOB, -60), Error::BalanceTooLow);
}

#[test]
fn ensure_can_withdraw_should_work() {
    let mut t = one_hundred_for_alice_n_bob();
    assert_noop(&mut t, |t| t.ensure_can_withdraw(DOT, ALICE, 101), Error::BalanceTooLow);
    assert_eq!(t.ensure_can_withdraw(DOT, ALICE, 1), Ok(()));
    assert_eq!(t.free_balance(DOT, ALICE), 100);
}

#[test]
fn no_op_if_amount_is_zero() {
    let mut t = build(vec![]);
    assert_eq!(t.ensure_can_withdraw(DOT, ALICE, 0), Ok(()));
    assert_eq!(t.transfer_call(Origin::Signed(ALICE), BOB, DOT, 0), Ok(()));
    assert_eq!(t.transfer_call(Origin::Signed(ALICE), ALICE, DOT, 0), Ok(()));
    assert_eq!(t.deposit(DOT, ALICE, 0), Ok(()));
    assert_eq!(t.withdraw(DOT, ALICE, 0), Ok(()));
    assert_eq!(t.slash(DOT, ALICE, 0), 0);
    assert_eq!(t.slash(DOT, ALICE, 1), 1);
    assert_eq!(t.update_balance(DOT, ALICE, 0), Ok(()));
}

#[test]
fn transfer_all_trait_should_work() {
    let mut t = build(vec![(ALICE, DOT, 100), (ALICE, BTC, 200)]);
    assert_eq!(t.free_balance(DOT, ALICE), 100);
    assert_eq!(t.free_balance(BTC, ALICE), 200);
    assert_eq!(t.free_balance(DOT, BOB), 0);

    assert_eq!(t.transfer_all(ALICE, BOB, &vec![DOT, BTC]), Ok(()));
    assert_eq!(t.free_balance(DOT, ALICE), 0);
    assert_eq!(t.free_balance(BTC, ALICE), 0);
    assert_eq!(t.free_balance(DOT, BOB), 100);
    assert_eq!(t.free_balance(BTC, BOB), 200);

    assert_eq!(t.reserve(DOT, BOB, 1), Ok(()));
    assert_eq!(t.transfer_all(BOB, ALICE, &vec![DOT, BTC]), Ok(()));
    assert_eq!(t.free_balance(DOT, ALICE), 99);
    assert_eq!(t.free_balance(BTC, ALICE), 200);
    assert_eq!(t.free_balance(DOT, BOB), 0);
    assert_eq!(t.free_balance(BTC, BOB), 0);
}

#[test]
fn currency_adapter_ensure_currency_adapter_should_work() {
    let mut t = one_hundred_for_treasury_account();
    let c = treasury();
    assert_eq!(t.total_issuance(DOT), 102);
    assert_eq!(t.total_balance(DOT, TREASURY_MODULE_ACCOUNT), 2);
    assert_eq!(t.total_balance(DOT, TREASURY_ACCOUNT), 100);
    assert_eq!(t.reserved_balance(DOT, TREASURY_ACCOUNT), 0);
    assert_eq!(t.free_balance(DOT, TREASURY_ACCOUNT), 100);
    assert_eq!(c.total_balance(&t, TREASURY_ACCOUNT), 100);
    assert_eq!(c.can_slash(&t, TREASURY_ACCOUNT, 10), true);
    assert_eq!(c.total_issuance(&t), 102);
    assert_eq!(c.minimum_balance(&t), 2);
    assert_eq!(c.can_reserve(&t, TREASURY_ACCOUNT, 5), true);

    // burn
    let imbalance = c.burn(&mut t, 10);
    assert_eq!(c.total_issuance(&t), 92);
    t.settle_positive(imbalance);
    assert_eq!(c.total_issuance(&t), 102);

    // issue
    let imbalance = c.issue(&mut t, 20);
    assert_eq!(c.total_issuance(&t), 122);
    t.settle_negative(imbalance);
    assert_eq!(c.total_issuance(&t), 102);

    // transfer
    assert_eq!(c.free_balance(&t, TREASURY_ACCOUNT), 100);
    assert_eq!(c.ensure_can_withdraw(&t, TREASURY_ACCOUNT, 10), Ok(()));
    assert_eq!(c.transfer(&mut t, TREASURY_ACCOUNT, ALICE, 11, ExistenceRequirement::KeepAlive), Ok(()));
    assert_eq!(c.free_balance(&t, TREASURY_ACCOUNT), 89);

    // deposit
    assert_eq!(c.total_issuance(&t), 102);
    let imbalance = c.deposit_creating(&mut t, TREASURY_ACCOUNT, 11);
    assert_eq!(c.free_balance(&t, TREASURY_ACCOUNT), 100);
    assert_eq!(c.total_issuance(&t), 102);
    t.settle_positive(imbalance);
    assert_eq!(c.free_balance(&t, TREASURY_ACCOUNT), 100);
    assert_eq!(c.total_issuance(&t), 113);

    // withdraw
    let imbalance = c.withdraw(&mut t, TREASURY_ACCOUNT, 10, ExistenceRequirement::KeepAlive);
    assert_eq!(c.free_balance(&t, TREASURY_ACCOUNT), 90);
    assert_eq!(c.total_issuance(&t), 113);
    t.settle_negative(imbalance.unwrap());
    assert_eq!(c.free_balance(&t, TREASURY_ACCOUNT), 90);
    assert_eq!(c.total_issuance(&t), 103);
}

#[test]
fn currency_adapter_burn_must_work() {
    let mut t = one_hundred_for_treasury_account();
    let c = treasury();
    let init_total_issuance = c.total_issuance(&t);
    let imbalance = c.burn(&mut t, 10);
    assert_eq!(c.total_issuance(&t), init_total_issuance - 10);
    t.settle_positive(imbalance);
    assert_eq!(c.total_issuance(&t), init_total_issuance);
}

/// `deposit_creating` with its imbalance settled right away.
fn deposit_creating(t: &mut Tokens, who: u64, value: u64) {
    let imbalance = treasury().deposit_creating(t, who, value);
    t.settle_positive(imbalance);
}

#[test]
fn currency_adapter_reserving_balance_should_work() {
    let mut t = build(vec![]);
    let c = treasury();
    deposit_creating(&mut t, TREASURY_ACCOUNT, 111);

    assert_eq!(c.total_balance(&t, TREASURY_ACCOUNT), 111);
    assert_eq!(c.free_balance(&t, TREASURY_ACCOUNT), 111);
    assert_eq!(c.reserved_balance(&t, TREASURY_ACCOUNT), 0);

    assert_eq!(c.reserve(&mut t, TREASURY_ACCOUNT, 69), Ok(()));

    assert_eq!(c.total_balance(&t, TREASURY_ACCOUNT), 111);
    assert_eq!(c.free_balance(&t, TREASURY_ACCOUNT), 42);
    assert_eq!(c.reserved_balance(&t, TREASURY_ACCOUNT), 69);
}

#[test]
fn currency_adapter_balance_transfer_when_reserved_should_not_work() {
    let mut t = build(vec![]);
    let c = treasury();
    deposit_creating(&mut t, TREASURY_ACCOUNT, 111);
    assert_eq!(c.reserve(&mut t, TREASURY_ACCOUNT, 69), Ok(()));
    assert_noop(
        &mut t,
        |t| c.transfer(t, TREASURY_ACCOUNT, ALICE, 69, ExistenceRequirement::AllowDeath),
        Error::BalanceTooLow,
    );
}

#[test]
fn currency_adapter_deducting_balance_should_work() {
    let mut t = build(vec![]);
    let c = treasury();
    deposit_creating(&mut t, TREASURY_ACCOUNT, 111);
    assert_eq!(c.reserve(&mut t, TREASURY_ACCOUNT, 69), Ok(()));
    assert_eq!(c.free_balance(&t, TREASURY_ACCOUNT), 42);
}

#[test]
fn currency_adapter_refunding_balance_should_work() {
    let mut t = build(vec![]);
    let c = treasury();
    deposit_creating(&mut t, TREASURY_ACCOUNT, 42);
    t.set_reserved_balance(DOT, TREASURY_ACCOUNT, 69);
    c.unreserve(&mut t, TREASURY_ACCOUNT, 69);
    assert_eq!(c.free_balance(&t, TREASURY_ACCOUNT), 111);
    assert_eq!(c.reserved_balance(&t, TREASURY_ACCOUNT), 0);
}

#[test]
fn currency_adapter_slashing_balance_should_work() {
    let mut t = build(vec![]);
    let c = treasury();
    deposit_creating(&mut t, TREASURY_ACCOUNT, 111);
    assert_eq!(c.reserve(&mut t, TREASURY_ACCOUNT, 69), Ok(()));
    let (imbalance, rest) = c.slash(&mut t, TREASURY_ACCOUNT, 69);
    t.settle_negative(imbalance);
    assert!(rest == 0);
    assert_eq!(c.free_balance(&t, TREASURY_ACCOUNT), 0);
    assert_eq!(c.reserved_balance(&t, TREASURY_ACCOUNT), 42);
    assert_eq!(c.total_issuance(&t), 42);
}

#[test]
fn currency_adapter_slashing_incomplete_balance_should_work() {
    let mut t = build(vec![]);
    let c = treasury();
    deposit_creating(&mut t, TREASURY_ACCOUNT, 42);
    assert_eq!(c.reserve(&mut t, TREASURY_ACCOUNT, 21), Ok(()));
    let (imbalance, rest) = c.slash(&mut t, TREASURY_ACCOUNT, 69);
    t.settle_negative(imbalance);
    assert_eq!(rest, 27);
    assert_eq!(c.free_balance(&t, TREASURY_ACCOUNT), 0);
    assert_eq!(c.reserved_balance(&t, TREASURY_ACCOUNT), 0);
    assert_eq!(c.total_issuance(&t), 0);
}

#[test]
fn currency_adapter_basic_locking_should_work() {
    let mut t = one_hundred_for_treasury_account();
    let c = treasury();
    assert_eq!(c.free_balance(&t, TREASURY_ACCOUNT), 100);
    c.set_lock(&mut t, id_1(), TREASURY_ACCOUNT, 91);
    assert_noop(
        &mut t,
        |t| c.transfer(t, TREASURY_ACCOUNT, ALICE, 10, ExistenceRequirement::AllowDeath),
        Error::LiquidityRestrictions,
    );
}

#[test]
fn currency_adapter_partial_locking_should_work() {
    let mut t = one_hundred_for_treasury_account();
    let c = treasury();
    c.set_lock(&mut t, id_1(), TREASURY_ACCOUNT, 5);
    assert_eq!(c.transfer(&mut t, TREASURY_ACCOUNT, ALICE, 2, ExistenceRequirement::AllowDeath), Ok(()));
}

#[test]
fn currency_adapter_lock_removal_should_work() {
    let mut t = one_hundred_for_treasury_account();
    let c = treasury();
    c.set_lock(&mut t, id_1(), TREASURY_ACCOUNT, u64::MAX);
    c.remove_lock(&mut t, id_1(), TREASURY_ACCOUNT);
    assert_eq!(c.transfer(&mut t, TREASURY_ACCOUNT, ALICE, 2, ExistenceRequirement::AllowDeath), Ok(()));
}

#[test]
fn currency_adapter_lock_replacement_should_work() {
    let mut t = one_hundred_for_treasury_account();
    let c = treasury();
    c.set_lock(&mut t, id_1(), TREASURY_ACCOUNT, u64::MAX);
    c.set_lock(&mut t, id_1(), TREASURY_ACCOUNT, 5);
    assert_eq!(c.transfer(&mut t, TREASURY_ACCOUNT, ALICE, 2, ExistenceRequirement::AllowDeath), Ok(()));
}

#[test]
fn currency_adapter_double_locking_should_work() {
    let mut t = one_hundred_for_treasury_account();
    let c = treasury();
    c.set_lock(&mut t, id_1(), TREASURY_ACCOUNT, 5);
    c.set_lock(&mut t, id_2(), TREASURY_ACCOUNT, 5);
    assert_eq!(c.transfer(&mut t, TREASURY_ACCOUNT, ALICE, 2, ExistenceRequirement::AllowDeath), Ok(()));
}

#[test]
fn currency_adapter_combination_locking_should_work() {
    let mut t = one_hundred_for_treasury_account();
    let c = treasury();
    c.set_lock(&mut t, id_1(), TREASURY_ACCOUNT, u64::MAX);
    c.set_lock(&mut t, id_2(), TREASURY_ACCOUNT, 0);
    assert_noop(
        &mut t,
        |t| c.transfer(t, TREASURY_ACCOUNT, ALICE, 2, ExistenceRequirement::AllowDeath),
        Error::LiquidityRestrictions,
    );
}

#[test]
fn currency_adapter_lock_value_extension_should_work() {
    let mut t = one_hundred_for_treasury_account();
    let c = treasury();
    c.set_lock(&mut t, id_1(), TREASURY_ACCOUNT, 100);
    assert_noop(
        &mut t,
        |t| c.transfer(t, TREASURY_ACCOUNT, ALICE, 6, ExistenceRequirement::AllowDeath),
        Error::LiquidityRestrictions,
    );
    c.extend_lock(&mut t, id_1(), TREASURY_ACCOUNT, 2);
    assert_noop(
        &mut t,
        |t| c.transfer(t, TREASURY_ACCOUNT, ALICE, 6, ExistenceRequirement::AllowDeath),
        Error::LiquidityRestrictions,
    );
    c.extend_lock(&mut t, id_1(), TREASURY_ACCOUNT, 8);
    assert_noop(
        &mut t,
        |t| c.transfer(t, TREASURY_ACCOUNT, ALICE, 3, ExistenceRequirement::AllowDeath),
        Error::LiquidityRestrictions,
    );
}

#[test]
fn currency_adapter_lock_block_number_extension_should_work() {
    let mut t = one_hundred_for_treasury_account();
    let c = treasury();
    c.set_lock(&mut t, id_1(), TREASURY_ACCOUNT, 200);
    assert_noop(
        &mut t,
        |t| c.transfer(t, TREASURY_ACCOUNT, ALICE, 6, ExistenceRequirement::AllowDeath),
        Error::LiquidityRestrictions,
    );
    c.extend_lock(&mut t, id_1(), TREASURY_ACCOUNT, 90);
    assert_noop(
        &mut t,
        |t| c.transfer(t, TREASURY_ACCOUNT, ALICE, 6, ExistenceRequirement::AllowDeath),
        Error::LiquidityRestrictions,
    );
    c.extend_lock(&mut t, id_1(), TREASURY_ACCOUNT, 90);
    assert_noop(
        &mut t,
        |t| c.transfer(t, TREASURY_ACCOUNT, ALICE, 3, ExistenceRequirement::AllowDeath),
        Error::LiquidityRestrictions,
    );
}

#[test]
fn currency_adapter_lock_reasons_extension_should_work() {
    let mut t = one_hundred_for_treasury_account();
    let c = treasury();
    c.set_lock(&mut t, id_1(), TREASURY_ACCOUNT, 90);
    assert_noop(
        &mut t,
        |t| c.transfer(t, TREASURY_ACCOUNT, ALICE, 11, ExistenceRequirement::AllowDeath),
        Error::LiquidityRestrictions,
    );
    c.extend_lock(&mut t, id_1(), TREASURY_ACCOUNT, 90);
    assert_noop(
        &mut t,
        |t| c.transfer(t, TREASURY_ACCOUNT, ALICE, 11, ExistenceRequirement::AllowDeath),
        Error::LiquidityRestrictions,
    );
    c.extend_lock(&mut t, id_1(), TREASURY_ACCOUNT, 90);
    assert_noop(
        &mut t,
        |t| c.transfer(t, TREASURY_ACCOUNT, ALICE, 11, ExistenceRequirement::AllowDeath),
        Error::LiquidityRestrictions,
    );
}

#[test]
fn currency_adapter_reward_should_work() {
    let mut t = one_hundred_for_treasury_account();
    let c = treasury();
    assert_eq!(c.total_issuance(&t), 102);
    assert_eq!(c.total_balance(&t, TREASURY_ACCOUNT), 100);
    assert_eq!(c.total_balance(&t, TREASURY_MODULE_ACCOUNT), 2);
    let imbalance = c.deposit_into_existing(&mut t, TREASURY_ACCOUNT, 10).unwrap();
    t.settle_positive(imbalance);
    assert_eq!(c.total_balance(&t, TREASURY_ACCOUNT), 110);
    assert_eq!(c.total_issuance(&t), 112);
}

#[test]
fn currency_adapter_slashing_reserved_balance_should_work() {
    let mut t = build(vec![]);
    let c = treasury();
    deposit_creating(&mut t, TREASURY_ACCOUNT, 111);
    assert_eq!(c.reserve(&mut t, TREASURY_ACCOUNT, 111), Ok(()));
    let (imbalance, rest) = c.slash_reserved(&mut t, TREASURY_ACCOUNT, 42);
    t.settle_negative(imbalance);
    assert_eq!(rest, 0);
    assert_eq!(c.reserved_balance(&t, TREASURY_ACCOUNT), 69);
    assert_eq!(c.free_balance(&t, TREASURY_ACCOUNT), 0);
    assert_eq!(c.total_issuance(&t), 69);
}

#[test]
fn currency_adapter_slashing_incomplete_reserved_balance_should_work() {
    let mut t = build(vec![]);
    let c = treasury();
    deposit_creating(&mut t, TREASURY_ACCOUNT, 111);
    assert_eq!(c.reserve(&mut t, TREASURY_ACCOUNT, 42), Ok(()));
    let (imbalance, rest) = c.slash_reserved(&mut t, TREASURY_ACCOUNT, 69);
    t.settle_negative(imbalance);
    assert_eq!(rest, 27);
    assert_eq!(c.free_balance(&t, TREASURY_ACCOUNT), 69);
    assert_eq!(c.reserved_balance(&t, TREASURY_ACCOUNT), 0);
    assert_eq!(c.total_issuance(&t), 69);
}

#[test]
fn currency_adapter_repatriating_reserved_balance_should_work() {
    let mut t = build(vec![]);
    let c = treasury();
    deposit_creating(&mut t, TREASURY_ACCOUNT, 110);
    deposit_creating(&mut t, ALICE, 2);
    assert_eq!(c.reserve(&mut t, TREASURY_ACCOUNT, 110), Ok(()));
    assert_eq!(c.repatriate_reserved(&mut t, TREASURY_ACCOUNT, ALICE, 41, BalanceStatus::Free), Ok(0));
    assert_eq!(c.reserved_balance(&t, TREASURY_ACCOUNT), 69);
    assert_eq!(c.free_balance(&t, TREASURY_ACCOUNT), 0);
    assert_eq!(c.reserved_balance(&t, ALICE), 0);
    assert_eq!(c.free_balance(&t, ALICE), 43);
}

#[test]
fn currency_adapter_transferring_reserved_balance_should_work() {
    let mut t = build(vec![]);
    let c = treasury();
    deposit_creating(&mut t, TREASURY_ACCOUNT, 110);
    deposit_creating(&mut t, ALICE, 2);
    assert_eq!(c.reserve(&mut t, TREASURY_ACCOUNT, 110), Ok(()));
    assert_eq!(c.repatriate_reserved(&mut t, TREASURY_ACCOUNT, ALICE, 41, BalanceStatus::Reserved), Ok(0));
    assert_eq!(c.reserved_balance(&t, TREASURY_ACCOUNT), 69);
    assert_eq!(c.free_balance(&t, TREASURY_ACCOUNT), 0);
    assert_eq!(c.reserved_balance(&t, ALICE), 41);
    assert_eq!(c.free_balance(&t, ALICE), 2);
}

#[test]
fn currency_adapter_transferring_reserved_balance_to_nonexistent_should_fail() {
    let mut t = build(vec![]);
    let c = treasury();
    deposit_creating(&mut t, TREASURY_ACCOUNT, 111);
    assert_eq!(c.reserve(&mut t, TREASURY_ACCOUNT, 111), Ok(()));
    assert!(c.repatriate_reserved(&mut t, TREASURY_ACCOUNT, ALICE, 42, BalanceStatus::Free).is_ok());
}

#[test]
fn currency_adapter_transferring_incomplete_reserved_balance_should_work() {
    let mut t = build(vec![]);
    let c = treasury();
    deposit_creating(&mut t, TREASURY_ACCOUNT, 110);
    deposit_creating(&mut t, ALICE, 2);
    assert_eq!(c.reserve(&mut t, TREASURY_ACCOUNT, 41), Ok(()));
    assert_eq!(c.repatriate_reserved(&mut t, TREASURY_ACCOUNT, ALICE, 69, BalanceStatus::Free), Ok(28));
    assert_eq!(c.reserved_balance(&t, TREASURY_ACCOUNT), 0);
    assert_eq!(c.free_balance(&t, TREASURY_ACCOUNT), 69);
    assert_eq!(c.reserved_balance(&t, ALICE), 0);
    assert_eq!(c.free_balance(&t, ALICE), 43);
}

#[test]
fn currency_adapter_transferring_too_high_value_should_not_panic() {
    let mut t = build(vec![]);
    let c = treasury();
    let i = c.make_free_balance_be(&mut t, TREASURY_ACCOUNT, u64::MAX);
    settle(&mut t, i);
    let i = c.make_free_balance_be(&mut t, ALICE, 2);
    settle(&mut t, i);
    assert_noop(
        &mut t,
        |t| c.transfer(t, TREASURY_ACCOUNT, ALICE, u64::MAX, ExistenceRequirement::AllowDeath),
        Error::Overflow,
    );
    assert_eq!(c.free_balance(&t, TREASURY_ACCOUNT), u64::MAX);
    assert_eq!(c.free_balance(&t, ALICE), 2);
}

#[test]
fn exceeding_max_locks_should_fail() {
    let mut t = one_hundred_for_alice_n_bob();
    assert_eq!(t.set_lock(id_1(), DOT, ALICE, 10), Ok(()));
    assert_eq!(t.locks(ALICE, DOT).len(), 1);
    assert_eq!(t.set_lock(id_2(), DOT, ALICE, 10), Ok(()));
    assert_eq!(t.locks(ALICE, DOT).len(), 2);
    assert_noop(&mut t, |t| t.set_lock(id_3(), DOT, ALICE, 10), Error::MaxLocksExceeded);
    assert_eq!(t.locks(ALICE, DOT).len(), 2);
}

#[test]
fn fungibles_inspect_trait_should_work() {
    let t = one_hundred_for_alice_n_bob();
    assert_eq!(t.total_issuance(DOT), 200);
    assert_eq!(t.minimum_balance(DOT), 2);
    assert_eq!(t.total_balance(DOT, ALICE), 100);
    assert_eq!(t.reducible_balance(DOT, ALICE, true), 98);
    assert_eq!(t.can_deposit(DOT, ALICE, 1).into_result(), Ok(()));
    assert!(t.can_withdraw(DOT, ALICE, 1).into_result().is_ok());
}

#[test]
fn fungibles_mutate_trait_should_work() {
    let mut t = one_hundred_for_alice_n_bob();
    assert_eq!(t.mint_into(DOT, ALICE, 10), Ok(()));
    assert_eq!(t.burn_from(DOT, ALICE, 8), Ok(8));
}

#[test]
fn fungibles_transfer_trait_should_work() {
    let mut t = one_hundred_for_alice_n_bob();
    assert_eq!(t.total_balance(DOT, ALICE), 100);
    assert_eq!(t.total_balance(DOT, BOB), 100);
    assert!(t.transfer_keep_alive(DOT, ALICE, BOB, 10, true).is_ok());
    assert_eq!(t.total_balance(DOT, ALICE), 90);
    assert_eq!(t.total_balance(DOT, BOB), 110);
}

#[test]
fn fungibles_unbalanced_trait_should_work() {
    let mut t = one_hundred_for_alice_n_bob();
    assert_eq!(t.total_balance(DOT, ALICE), 100);
    assert_eq!(t.set_balance(DOT, ALICE, 10), Ok(()));
    assert_eq!(t.total_balance(DOT, ALICE), 10);
    assert_eq!(t.total_issuance(DOT), 200);
    t.set_total_issuance(DOT, 10);
    assert_eq!(t.total_issuance(DOT), 10);
}

#[test]
fn fungibles_inspect_hold_trait_should_work() {
    let t = one_hundred_for_alice_n_bob();
    assert_eq!(t.balance_on_hold(DOT, ALICE), 0);
    assert_eq!(t.can_hold(DOT, ALICE, 50), true);
    assert_eq!(t.can_hold(DOT, ALICE, 100), false);
}

#[test]
fn fungibles_mutate_hold_trait_should_work() {
    let mut t = one_hundred_for_alice_n_bob();
    assert_noop(&mut t, |t| t.hold(DOT, ALICE, 200), Error::BalanceTooLow);
    assert_eq!(t.hold(DOT, ALICE, 100), Ok(()));
    assert_eq!(t.release(DOT, ALICE, 50, true), Ok(50));
    assert_eq!(t.transfer_held(DOT, ALICE, BOB, 100, true, true), Ok(50));
}

#[test]
fn consequences_explain_refusals() {
    let mut t = one_hundred_for_alice_n_bob();
    assert_eq!(t.can_deposit(DOT, CHARLIE, 1), DepositConsequence::BelowMinimum);
    assert_eq!(t.can_deposit(DOT, ALICE, u64::MAX), DepositConsequence::Overflow);
    assert_eq!(t.can_withdraw(DOT, ALICE, 201), WithdrawConsequence::Underflow);
    assert_eq!(t.can_withdraw(DOT, CHARLIE, 1), WithdrawConsequence::NoFunds);
    assert_eq!(t.can_withdraw(DOT, ALICE, 99), WithdrawConsequence::ReducedToZero(1));
    assert_eq!(t.set_lock(id_1(), DOT, ALICE, 50), Ok(()));
    assert_eq!(t.can_withdraw(DOT, ALICE, 99), WithdrawConsequence::WouldDie);
    assert_eq!(t.can_withdraw(DOT, ALICE, 60), WithdrawConsequence::Frozen);
    assert_eq!(t.consumers(ALICE), 1);
    assert!(!t.can_dec_provider(ALICE));
    assert_eq!(t.reducible_balance(DOT, BOB, false), 100);
    assert_eq!(t.reducible_balance(DOT, ALICE, false), 50);
}

#[test]
fn keep_alive_protects_the_last_balance() {
    let mut t = one_hundred_for_alice_n_bob();
    assert_noop(&mut t, |t| t.transfer_keep_alive(DOT, ALICE, BOB, 99, true), Error::KeepAlive);
    assert_eq!(t.transfer_keep_alive(DOT, ALICE, BOB, 98, true), Ok(98));
    assert_eq!(t.transfer_call(Origin::Root, BOB, DOT, 1), Err(Error::BadOrigin));
    assert_eq!(t.release(DOT, ALICE, 5, false), Err(Error::BalanceTooLow));
}

#[test]
fn imbalances_offset_and_split() {
    let p = PositiveImbalance::new(DOT, 10);
    let n = NegativeImbalance::new(DOT, 4);
    assert_eq!(p.offset(n), SameOrOther::Same(PositiveImbalance::new(DOT, 6)));
    let (a, b) = NegativeImbalance::new(DOT, 7).split(5);
    assert_eq!((a.peek(), b.peek()), (5, 2));
    assert_eq!(a.merge(b), NegativeImbalance::new(DOT, 7));
    assert_eq!(
        NegativeImbalance::new(DOT, 3).offset(PositiveImbalance::new(DOT, 3)),
        SameOrOther::Neither
    );
    let mut m = PositiveImbalance::new(DOT, u64::MAX);
    m.subsume(PositiveImbalance::new(DOT, 1));
    assert_eq!(m.peek(), u64::MAX);
    assert!(PositiveImbalance::zero(DOT).drop_zero().is_ok());
    assert!(NegativeImbalance::new(DOT, 1).drop_zero().is_err());
}

#[test]
fn burnt_dust_leaves_the_issuance() {
    let mut cfg = config();
    cfg.dust = DustHandler::Burn;
    let mut t = Tokens::build_genesis(cfg, &vec![(ALICE, DOT, 100), (BOB, DOT, 100)]);
    assert_eq!(t.total_issuance(DOT), 200);
    // Alice keeps 1 < ED 2: the dust is burnt.
    assert_eq!(t.transfer(DOT, ALICE, BOB, 99), Ok(()));
    assert_eq!(t.free_balance(DOT, ALICE), 0);
    assert_eq!(t.has_account(ALICE, DOT), false);
    assert_eq!(t.free_balance(DOT, BOB), 199);
    assert_eq!(t.total_issuance(DOT), 199);
    assert_eq!(t.events.last(), Some(&Event::DustLost(DOT, ALICE, 1)));

    // Dust held in reserve cannot be withdrawn, and stays.
    let mut cfg = config();
    cfg.dust = DustHandler::Burn;
    let mut t = Tokens::build_genesis(cfg, &vec![(ALICE, DOT, 100)]);
    assert_eq!(t.reserve(DOT, ALICE, 1), Ok(()));
    assert_eq!(t.withdraw(DOT, ALICE, 99), Ok(()));
    assert_eq!(t.reserved_balance(DOT, ALICE), 1);
    assert_eq!(t.free_balance(DOT, ALICE), 0);
    assert_eq!(t.total_issuance(DOT), 1);
    assert_eq!(t.events.last(), Some(&Event::DustLost(DOT, ALICE, 1)));
}
