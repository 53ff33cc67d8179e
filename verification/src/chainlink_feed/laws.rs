//! Properties of the feed pallet that span several calls or every state.
use crate::chainlink_feed::feed::sat_sub_u32;
use crate::chainlink_feed::state::PalletView;
use crate::chainlink_feed::types::{round_key, AccountId, FeedConfigView, FeedId, Origin, RoundId};
use vstd::prelude::*;

verus! {

/// Pruning leaves no round outside the pruning window: afterwards the distance
/// between the latest round and the next round to prune is below the window.
pub proof fn law_prune_all_respects_window(s: PalletView, feed: FeedId, cfg: FeedConfigView)
    requires
        cfg.pruning_window > 0,
    ensures
        sat_sub_u32(s.prune_all(feed, cfg).1.latest_round, s.prune_all(feed, cfg).1.next_round_to_prune)
            < cfg.pruning_window,
        s.prune_all(feed, cfg).1.pruning_window == cfg.pruning_window,
        s.prune_all(feed, cfg).1.latest_round == cfg.latest_round,
    decreases cfg.latest_round - cfg.next_round_to_prune,
{
    if sat_sub_u32(cfg.latest_round, cfg.next_round_to_prune) >= cfg.pruning_window {
        let (s1, cfg1, _) = s.prune_oldest(feed, cfg);
        law_prune_all_respects_window(s1, feed, cfg1);
    }
}

/// Rounds of distinct feeds or numbers are stored under distinct keys.
proof fn lemma_round_keys_differ(f1: FeedId, r1: RoundId, f2: FeedId, r2: RoundId)
    requires
        f1 != f2 || r1 != r2,
    ensures
        round_key(f1, r1) != round_key(f2, r2),
{
}

/// Pruning removes exactly the rounds, and their details, from the old next
/// round to prune up to the new one (excluded), of this feed only; the first
/// valid round becomes the new next round to prune when any round was pruned.
pub proof fn law_prune_all_removes_exactly_the_pruned_rounds(s: PalletView, feed: FeedId, cfg: FeedConfigView)
    ensures
        ({
            let (t, c) = s.prune_all(feed, cfg);
            &&& c.next_round_to_prune >= cfg.next_round_to_prune
            &&& forall|k: RoundId|
                cfg.next_round_to_prune <= k < c.next_round_to_prune ==> #[trigger] t.round(feed, k) is None
                    && t.details(feed, k) is None
            &&& forall|f: FeedId, k: RoundId|
                !(f == feed && cfg.next_round_to_prune <= k < c.next_round_to_prune) ==> #[trigger] t.round(f, k)
                    == s.round(f, k) && t.details(f, k) == s.details(f, k)
            &&& c.next_round_to_prune != cfg.next_round_to_prune ==> c.first_valid_round == Some(
                c.next_round_to_prune,
            )
            &&& c.next_round_to_prune == cfg.next_round_to_prune ==> c.first_valid_round == cfg.first_valid_round
        }),
    decreases cfg.latest_round - cfg.next_round_to_prune,
{
    if cfg.pruning_window > 0 && sat_sub_u32(cfg.latest_round, cfg.next_round_to_prune) >= cfg.pruning_window {
        let next = cfg.next_round_to_prune;
        let (s1, cfg1, _) = s.prune_oldest(feed, cfg);
        law_prune_all_removes_exactly_the_pruned_rounds(s1, feed, cfg1);
        let (t, c) = s1.prune_all(feed, cfg1);
        assert forall|f: FeedId, k: RoundId| #![trigger s1.round(f, k)] !(f == feed && k == next) implies s1.round(f, k)
            == s.round(f, k) && s1.details(f, k) == s.details(f, k) by {
            lemma_round_keys_differ(f, k, feed, next);
        }
        assert forall|k: RoundId| next <= k < c.next_round_to_prune implies #[trigger] t.round(feed, k) is None
            && t.details(feed, k) is None by {
            if k == next {
                assert(s1.round(feed, k) is None);
                assert(s1.details(feed, k) is None);
            }
        }
        assert forall|f: FeedId, k: RoundId|
            !(f == feed && next <= k < c.next_round_to_prune) implies #[trigger] t.round(f, k) == s.round(f, k)
            && t.details(f, k) == s.details(f, k) by {
            assert(t.round(f, k) == s1.round(f, k) && t.details(f, k) == s1.details(f, k));
            lemma_round_keys_differ(f, k, feed, next);
        }
    }
}

/// Setting a pruning window leaves the feed with no round outside the new
/// window: the rounds (and their details) from the old next round to prune up
/// to the new one are removed, no other round is touched, and the first valid
/// round becomes the new next round to prune when any round was pruned.
pub proof fn law_set_pruning_window_prunes(
    s: PalletView,
    owner: AccountId,
    feed: FeedId,
    window: RoundId,
)
    requires
        s.set_pruning_window(Origin::Signed(owner), feed, window) is Ok,
    ensures
        ({
            let t = s.set_pruning_window(Origin::Signed(owner), feed, window)->Ok_0;
            let cfg = t.feeds[feed];
            let old_next = s.feeds[feed].next_round_to_prune;
            &&& cfg.pruning_window == window
            &&& sat_sub_u32(cfg.latest_round, cfg.next_round_to_prune) < window
            &&& forall|k: RoundId|
                old_next <= k < cfg.next_round_to_prune ==> #[trigger] t.round(feed, k) is None && t.details(
                    feed,
                    k,
                ) is None
            &&& forall|f: FeedId, k: RoundId|
                !(f == feed && old_next <= k < cfg.next_round_to_prune) ==> #[trigger] t.round(f, k) == s.round(f, k)
                    && t.details(f, k) == s.details(f, k)
            &&& cfg.next_round_to_prune != old_next ==> cfg.first_valid_round == Some(cfg.next_round_to_prune)
        }),
{
    let cfg = s.feeds[feed];
    let wcfg = FeedConfigView { pruning_window: window, ..cfg };
    law_prune_all_respects_window(s, feed, wcfg);
    law_prune_all_removes_exactly_the_pruned_rounds(s, feed, wcfg);
    let (s1, c1) = s.prune_all(feed, wcfg);
    let t = s.set_pruning_window(Origin::Signed(owner), feed, window)->Ok_0;
    assert(t == s1.put_feed(feed, c1));
    assert(t.feeds[feed] == c1);
    assert(t.rounds == s1.rounds && t.details == s1.details);
    assert forall|f: FeedId, k: RoundId| #[trigger] t.round(f, k) == s1.round(f, k) && t.details(f, k) == s1.details(
        f,
        k,
    ) by {}
}

/// After the owner of a feed offers it to `new_owner` and `new_owner` accepts,
/// `new_owner` owns the feed and no transfer is pending.
pub proof fn law_ownership_transfer(
    s: PalletView,
    owner: AccountId,
    feed: FeedId,
    new_owner: AccountId,
)
    requires
        s.feeds.contains_key(feed),
        s.feeds[feed].owner == owner,
    ensures
        s.transfer_ownership(Origin::Signed(owner), feed, new_owner) is Ok,
        ({
            let s1 = s.transfer_ownership(Origin::Signed(owner), feed, new_owner)->Ok_0;
            &&& s1.accept_ownership(Origin::Signed(new_owner), feed) is Ok
            &&& s1.accept_ownership(Origin::Signed(new_owner), feed)->Ok_0.feeds[feed].owner
                == new_owner
            &&& s1.accept_ownership(Origin::Signed(new_owner), feed)->Ok_0.feeds[feed].pending_owner
                is None
        }),
{
}

/// A successful submission never lets the debt of a feed reach its maximum:
/// either the debt is unchanged or it stays below the maximum debt; a feed
/// without a maximum never accumulates debt.
pub proof fn law_submit_debt_below_max(
    s: PalletView,
    origin: Origin,
    feed: FeedId,
    round: RoundId,
    submission: u64,
    now: u64,
    reserve_ok: bool,
)
    requires
        s.submit(origin, feed, round, submission, now, reserve_ok) is Ok,
    ensures
        ({
            let before = s.feeds[feed];
            let after = s.submit(origin, feed, round, submission, now, reserve_ok)->Ok_0.feeds[feed];
            &&& (before.max_debt is None ==> after.debt == before.debt)
            &&& (after.debt == before.debt || (before.max_debt matches Some(m) && after.debt < m))
        }),
{
}

/// What a submission does with the round payment `p`: the oracle's
/// withdrawable balance grows by exactly `p`. When the payment could not be
/// reserved from the fund, the feed's debt `d` grows by exactly `p` and stays
/// below the maximum debt `m`; with `d + p >= m`, or without a maximum, the
/// submission is refused (and a refused call leaves storage as it was). A
/// submission that would go through with the payment reserved is refused for
/// the debt alone.
pub proof fn law_submission_pays_the_oracle(
    s: PalletView,
    origin: Origin,
    feed: FeedId,
    round: RoundId,
    submission: u64,
    now: u64,
)
    ensures
        s.prepare_submission(origin, feed, round, submission, now) matches Ok((s1, _, oracle, _)) ==> (
        s1.details(feed, round) matches Some(dd) ==> {
            let p = dd.payment;
            let cfg = s.feeds[feed];
            let d = cfg.debt;
            &&& forall|reserve_ok: bool| #[trigger]
                s.submit(origin, feed, round, submission, now, reserve_ok) matches Ok(after) ==> {
                    &&& s.oracle(oracle) matches Some(meta0)
                    &&& after.oracle(oracle) matches Some(meta)
                    &&& meta.withdrawable == meta0.withdrawable + p
                    &&& reserve_ok ==> after.feeds[feed].debt == d
                    &&& !reserve_ok ==> after.feeds[feed].debt == d + p
                    &&& !reserve_ok ==> (cfg.max_debt matches Some(m) && d + p < m)
                }
            &&& (cfg.max_debt matches Some(m) ==> d + p >= m) ==> s.submit(
                origin,
                feed,
                round,
                submission,
                now,
                false,
            ) is Err
            &&& s.submit(origin, feed, round, submission, now, true) is Ok && d + p <= u64::MAX && (
            cfg.max_debt matches Some(m) ==> d + p >= m) ==> s.submit(origin, feed, round, submission, now, false)
                == Err::<PalletView, crate::chainlink_feed::types::Error>(
                crate::chainlink_feed::types::Error::MaxDebtReached,
            )
        }),
{
}

/// An oracle reports at most once per round, and in increasing rounds: a
/// submission is refused with `ReportingOrder` when the oracle already
/// reported this round or a later one (and it is enabled for the round),
/// and a successful submission never comes from such an oracle.
pub proof fn law_oracle_reports_in_order(
    s: PalletView,
    oracle: AccountId,
    feed: FeedId,
    round: RoundId,
    submission: u64,
    now: u64,
    reserve_ok: bool,
)
    ensures
        ({
            let o = s.oracle_status(feed, oracle).unwrap();
            s.feed_config(feed) is Some && s.oracle_status(feed, oracle) is Some && o.starting_round <= round && (
            o.ending_round is None || round <= o.ending_round.unwrap()) && o.last_reported_round is Some
                && o.last_reported_round.unwrap() >= round ==> s.submit(
                Origin::Signed(oracle),
                feed,
                round,
                submission,
                now,
                reserve_ok,
            ) == Err::<PalletView, crate::chainlink_feed::types::Error>(
                crate::chainlink_feed::types::Error::ReportingOrder,
            )
        }),
        s.submit(Origin::Signed(oracle), feed, round, submission, now, reserve_ok) is Ok ==> {
            &&& s.oracle_status(feed, oracle) is Some
            &&& s.oracle_status(feed, oracle).unwrap().last_reported_round is Some ==> s.oracle_status(
                feed,
                oracle,
            ).unwrap().last_reported_round.unwrap() < round
        },
{
}

/// After a successful submission the oracle's last reported round is the
/// round it submitted to, so a second submission of the same oracle to the
/// same round, whatever its value and time, is refused.
pub proof fn law_second_submission_is_refused(
    s: PalletView,
    oracle: AccountId,
    feed: FeedId,
    round: RoundId,
    submission: u64,
    now: u64,
    reserve_ok: bool,
    submission2: u64,
    now2: u64,
    reserve_ok2: bool,
)
    ensures
        s.submit(Origin::Signed(oracle), feed, round, submission, now, reserve_ok) matches Ok(s2) ==> {
            &&& s2.oracle_status(feed, oracle) is Some
            &&& s2.oracle_status(feed, oracle).unwrap().last_reported_round == Some(round)
            &&& s2.submit(Origin::Signed(oracle), feed, round, submission2, now2, reserve_ok2) is Err
        },
{
}

/// A requester waits its delay between the rounds it starts: with last
/// started round `l` and delay `d`, a request succeeds only when the new round
/// is beyond `l + d`, and is refused with `CannotRequestRoundYet` otherwise;
/// a successful request records the new round as the requester's last.
pub proof fn law_requester_waits_its_delay(s: PalletView, sender: AccountId, feed: FeedId, now: u64)
    ensures
        s.request_new_round(Origin::Signed(sender), feed, now) matches Ok(s2) ==> {
            let req = s.requester(feed, sender).unwrap();
            let cfg = s.feed_config(feed).unwrap();
            &&& s.requester(feed, sender) is Some
            &&& s.feed_config(feed) is Some
            &&& req.last_started_round is Some ==> cfg.reporting_round + 1 > req.last_started_round.unwrap()
                + req.delay
            &&& s2.requester(feed, sender) is Some
            &&& s2.requester(feed, sender).unwrap().last_started_round == Some((cfg.reporting_round + 1) as u32)
            &&& s2.requester(feed, sender).unwrap().delay == req.delay
        },
        ({
            let req = s.requester(feed, sender).unwrap();
            let cfg = s.feed_config(feed).unwrap();
            s.requester(feed, sender) is Some && s.feed_config(feed) is Some && req.last_started_round is Some
                && cfg.reporting_round < u32::MAX && req.last_started_round.unwrap() + req.delay <= u32::MAX
                && cfg.reporting_round + 1 <= req.last_started_round.unwrap() + req.delay ==> s.request_new_round(
                Origin::Signed(sender),
                feed,
                now,
            ) == Err::<PalletView, crate::chainlink_feed::types::Error>(
                crate::chainlink_feed::types::Error::CannotRequestRoundYet,
            )
        }),
{
}

/// Withdrawing `amount` of an oracle's payment takes exactly `amount` from
/// its withdrawable balance and changes no other oracle; it goes through
/// exactly when the oracle's admin asks, the balance covers the amount and the
/// transfer succeeds.
pub proof fn law_withdrawal_takes_the_amount(
    s: PalletView,
    origin: Origin,
    oracle: AccountId,
    amount: u64,
    transfer_ok: bool,
)
    ensures
        s.withdraw_payment(origin, oracle, amount, transfer_ok) matches Ok(s2) ==> {
            let m = s.oracle(oracle).unwrap();
            let m2 = s2.oracle(oracle).unwrap();
            &&& s.oracle(oracle) is Some
            &&& s2.oracle(oracle) is Some
            &&& m2.withdrawable + amount == m.withdrawable
            &&& m2.admin == m.admin && m2.pending_admin == m.pending_admin
            &&& forall|o: AccountId| o != oracle ==> #[trigger] s2.oracle(o) == s.oracle(o)
            &&& s2.feeds == s.feeds
        },
        (s.withdraw_payment(origin, oracle, amount, transfer_ok) is Ok) <==> (s.oracle(oracle) is Some && origin
            == Origin::Signed(s.oracle(oracle).unwrap().admin) && amount <= s.oracle(oracle).unwrap().withdrawable
            && transfer_ok),
{
}

/// Only a feed's owner reconfigures the feed: transferring it, setting its
/// pruning window, changing its oracles, updating its future rounds and
/// setting or removing its requesters all succeed only when signed by the
/// owner of an existing feed.
pub proof fn law_feed_calls_need_the_owner(
    s: PalletView,
    origin: Origin,
    feed: FeedId,
    account: AccountId,
    window: RoundId,
    to_disable: Seq<AccountId>,
    to_add: Seq<(AccountId, AccountId)>,
    payment: u64,
    submission_count_bounds: (u32, u32),
    restart_delay: RoundId,
    timeout: u64,
    delay: RoundId,
)
    ensures
        ({
            let owned = s.feed_config(feed) is Some && origin == Origin::Signed(s.feed_config(feed).unwrap().owner);
            &&& s.transfer_ownership(origin, feed, account) is Ok ==> owned
            &&& s.set_pruning_window(origin, feed, window) is Ok ==> owned
            &&& s.change_oracles(origin, feed, to_disable, to_add) is Ok ==> owned
            &&& s.update_future_rounds_call(
                origin,
                feed,
                payment,
                submission_count_bounds,
                restart_delay,
                timeout,
            ) is Ok ==> owned
            &&& s.set_requester(origin, feed, account, delay) is Ok ==> owned
            &&& s.remove_requester_call(origin, feed, account) is Ok ==> owned
        }),
{
}

/// Handing over a feed: the transfer records the new owner as pending and
/// leaves the owner in place; only the pending owner accepts, and becomes the
/// owner with nothing pending.
pub proof fn law_feed_handover(s: PalletView, origin: Origin, feed: FeedId, new_owner: AccountId, signer: AccountId)
    ensures
        s.transfer_ownership(origin, feed, new_owner) matches Ok(s2) ==> s2.feed_config(feed) is Some
            && s2.feed_config(feed).unwrap().pending_owner == Some(new_owner) && s2.feed_config(feed).unwrap().owner
            == s.feed_config(feed).unwrap().owner,
        (s.accept_ownership(Origin::Signed(signer), feed) is Ok) <==> (s.feed_config(feed) is Some
            && s.feed_config(feed).unwrap().pending_owner == Some(signer)),
        s.accept_ownership(Origin::Signed(signer), feed) matches Ok(s2) ==> s2.feed_config(feed) is Some
            && s2.feed_config(feed).unwrap().owner == signer && s2.feed_config(feed).unwrap().pending_owner is None,
{
}

/// Handing over an oracle's administration: only the admin starts it, which
/// records the new admin as pending and keeps the balance; only the pending
/// admin completes it, becoming the admin with nothing pending.
pub proof fn law_oracle_admin_handover(
    s: PalletView,
    origin: Origin,
    oracle: AccountId,
    new_admin: AccountId,
    signer: AccountId,
)
    ensures
        s.transfer_admin(origin, oracle, new_admin) matches Ok(s2) ==> {
            let m = s.oracle(oracle).unwrap();
            let m2 = s2.oracle(oracle).unwrap();
            &&& s.oracle(oracle) is Some && origin == Origin::Signed(m.admin)
            &&& s2.oracle(oracle) is Some && m2.pending_admin == Some(new_admin) && m2.admin == m.admin
                && m2.withdrawable == m.withdrawable
        },
        (s.accept_admin(Origin::Signed(signer), oracle) is Ok) <==> (s.oracle(oracle) is Some && s.oracle(
            oracle,
        ).unwrap().pending_admin == Some(signer)),
        s.accept_admin(Origin::Signed(signer), oracle) matches Ok(s2) ==> s2.oracle(oracle) is Some && s2.oracle(
            oracle,
        ).unwrap().admin == signer && s2.oracle(oracle).unwrap().pending_admin is None && s2.oracle(
            oracle,
        ).unwrap().withdrawable == s.oracle(oracle).unwrap().withdrawable,
{
}

/// The pallet admin alone manages the feed creators, the pallet fund and its
/// own handover: setting a creator adds exactly it, removing one removes
/// exactly it; a withdrawal from the fund goes through exactly when the admin
/// asks, the fund covers the amount and keeps its minimum reserve, and the
/// transfer succeeds; only the pending admin accepts the handover.
pub proof fn law_pallet_admin_powers(
    s: PalletView,
    origin: Origin,
    creator: AccountId,
    new_admin: AccountId,
    signer: AccountId,
    amount: u64,
    fund_free: u64,
    transfer_ok: bool,
)
    ensures
        s.set_feed_creator(origin, creator) matches Ok(s2) ==> origin == Origin::Signed(s.pallet_admin)
            && s2.feed_creators == s.feed_creators.insert(creator),
        s.remove_feed_creator(origin, creator) matches Ok(s2) ==> origin == Origin::Signed(s.pallet_admin)
            && s2.feed_creators == s.feed_creators.remove(creator),
        s.transfer_pallet_admin(origin, new_admin) matches Ok(s2) ==> origin == Origin::Signed(s.pallet_admin)
            && s2.pallet_admin == s.pallet_admin && s2.pending_pallet_admin == Some(new_admin),
        (s.accept_pallet_admin(Origin::Signed(signer)) is Ok) <==> s.pending_pallet_admin == Some(signer),
        s.accept_pallet_admin(Origin::Signed(signer)) matches Ok(s2) ==> s2.pallet_admin == signer
            && s2.pending_pallet_admin is None,
        (s.withdraw_funds(origin, amount, fund_free, transfer_ok) is Ok) <==> (origin == Origin::Signed(
            s.pallet_admin,
        ) && amount <= fund_free && fund_free - amount >= s.limits.minimum_reserve && transfer_ok),
{
}

/// Requester permissions: setting them gives the requester exactly the new
/// delay and keeps its last started round; removing them, which only works
/// for a requester that has them, leaves it without any.
pub proof fn law_requester_permissions(
    s: PalletView,
    origin: Origin,
    feed: FeedId,
    requester: AccountId,
    delay: RoundId,
)
    ensures
        s.set_requester(origin, feed, requester, delay) matches Ok(s2) ==> s2.requester(feed, requester) is Some
            && s2.requester(feed, requester).unwrap().delay == delay && s2.requester(
            feed,
            requester,
        ).unwrap().last_started_round == (if s.requester(feed, requester) is Some {
            s.requester(feed, requester).unwrap().last_started_round
        } else {
            None
        }),
        s.remove_requester_call(origin, feed, requester) matches Ok(s2) ==> s.requester(feed, requester) is Some
            && s2.requester(feed, requester) is None,
{
}

/// Reducing a feed's debt by `amount` lowers it by exactly `amount`, down to
/// zero at the least, once the reserve succeeded; nothing else of the feed
/// changes.
pub proof fn law_reduce_debt(s: PalletView, origin: Origin, feed: FeedId, amount: u64, reserve_ok: bool)
    ensures
        s.reduce_debt(origin, feed, amount, reserve_ok) matches Ok(s2) ==> {
            let before = s.feed_config(feed).unwrap();
            let after = s2.feed_config(feed).unwrap();
            &&& reserve_ok && s.feed_config(feed) is Some && s2.feed_config(feed) is Some
            &&& after.debt == if before.debt > amount {
                before.debt - amount
            } else {
                0
            }
            &&& after.owner == before.owner && after.max_debt == before.max_debt
                && after.reporting_round == before.reporting_round
        },
{
}

/// A submission goes through only for an oracle of the feed that is enabled
/// for the round, with a value inside the feed's submission bounds, and to
/// the feed's reporting round, the next one, or the one before while the
/// reporting round is unanswered.
pub proof fn law_submissions_stay_in_bounds(
    s: PalletView,
    oracle: AccountId,
    feed: FeedId,
    round: RoundId,
    submission: u64,
    now: u64,
    reserve_ok: bool,
)
    ensures
        s.submit(Origin::Signed(oracle), feed, round, submission, now, reserve_ok) is Ok ==> {
            let cfg = s.feed_config(feed).unwrap();
            let o = s.oracle_status(feed, oracle).unwrap();
            &&& s.feed_config(feed) is Some && s.oracle_status(feed, oracle) is Some
            &&& cfg.submission_value_bounds.0 <= submission <= cfg.submission_value_bounds.1
            &&& o.starting_round <= round
            &&& o.ending_round is None || round <= o.ending_round.unwrap()
            &&& round == cfg.reporting_round || round == cfg.reporting_round + 1 || (round + 1
                == cfg.reporting_round && (s.round(feed, cfg.reporting_round) is None || s.round(
                feed,
                cfg.reporting_round,
            ).unwrap().updated_at is None))
        },
{
}

/// The round settings of a feed are consistent whenever an update of them
/// succeeds: at least one and at most all oracles must submit (none when the
/// feed has no oracles), and the restart delay stays below the number of
/// oracles. The feed then takes exactly the new settings and keeps its owner
/// and its oracles.
pub proof fn law_future_rounds_are_consistent(
    s: PalletView,
    origin: Origin,
    feed: FeedId,
    payment: u64,
    submission_count_bounds: (u32, u32),
    restart_delay: RoundId,
    timeout: u64,
)
    ensures
        s.update_future_rounds_call(origin, feed, payment, submission_count_bounds, restart_delay, timeout) matches Ok(
            s2,
        ) ==> {
            let before = s.feed_config(feed).unwrap();
            let after = s2.feed_config(feed).unwrap();
            let (min, max) = submission_count_bounds;
            &&& s.feed_config(feed) is Some && s2.feed_config(feed) is Some
            &&& min <= max <= before.oracle_count
            &&& restart_delay < before.oracle_count
            &&& before.oracle_count > 0 ==> min > 0
            &&& after.payment == payment && after.submission_count_bounds == submission_count_bounds
                && after.restart_delay == restart_delay && after.timeout == timeout
            &&& after.owner == before.owner && after.oracle_count == before.oracle_count
            &&& after.debt == before.debt && after.reporting_round == before.reporting_round
        },
{
}

/// A feed is created only by a feed creator, with a description within the
/// string limit, under the next free feed id below the feed limit; the new
/// feed belongs to its creator, counts the oracles it was given, owes
/// nothing and asks for between the given minimum and all of its oracles.
pub proof fn law_feed_creation(
    s: PalletView,
    origin: Origin,
    payment: u64,
    timeout: u64,
    submission_value_bounds: (u64, u64),
    min_submissions: u32,
    decimals: u8,
    description: Seq<u8>,
    restart_delay: RoundId,
    oracles: Seq<(AccountId, AccountId)>,
    pruning_window: Option<RoundId>,
    max_debt: Option<u64>,
    now: u64,
)
    requires
        oracles.len() <= u32::MAX,
        description.len() <= u32::MAX,
    ensures
        s.create_feed(
            origin,
            payment,
            timeout,
            submission_value_bounds,
            min_submissions,
            decimals,
            description,
            restart_delay,
            oracles,
            pruning_window,
            max_debt,
            now,
        ) matches Ok(s2) ==> {
            let id = s.feed_counter;
            let cfg = s2.feed_config(id).unwrap();
            &&& origin is Signed && s.feed_creators.contains(origin->Signed_0)
            &&& description.len() <= s.limits.string_limit
            &&& id < s.limits.feed_limit && s2.feed_counter == id + 1
            &&& s2.feed_config(id) is Some
            &&& cfg.owner == origin->Signed_0 && cfg.pending_owner is None
            &&& cfg.oracle_count == oracles.len()
            &&& cfg.debt == 0 && cfg.max_debt == max_debt
            &&& cfg.submission_count_bounds == (min_submissions, oracles.len() as u32)
            &&& cfg.submission_value_bounds == submission_value_bounds
            &&& cfg.payment == payment && cfg.description == description
        },
{
    let id = s.feed_counter;
    let s1 = PalletView { feed_counter: (id + 1) as u32, ..s }.put_round(
        id,
        0,
        crate::chainlink_feed::types::Round {
            started_at: now,
            answer: Some(0),
            updated_at: Some(now),
            answered_in_round: Some(0),
        },
    );
    lemma_add_oracle_entries_frame(s1, id, 0, oracles);
}

proof fn lemma_add_oracle_entries_frame(s: PalletView, feed: FeedId, reporting: RoundId, to_add: Seq<(AccountId, AccountId)>)
    ensures
        s.add_oracle_entries(feed, reporting, to_add) matches Ok(s1) ==> s1.feeds == s.feeds && s1.feed_counter
            == s.feed_counter && s1.limits == s.limits,
    decreases to_add.len(),
{
    if to_add.len() > 0 {
        lemma_add_oracle_entries_frame(s, feed, reporting, to_add.drop_last());
    }
}

proof fn lemma_disable_oracle_entries_frame(s: PalletView, feed: FeedId, reporting: RoundId, to_disable: Seq<AccountId>)
    ensures
        s.disable_oracle_entries(feed, reporting, to_disable) matches Ok(s1) ==> s1.feeds == s.feeds
            && s1.limits == s.limits,
    decreases to_disable.len(),
{
    if to_disable.len() > 0 {
        lemma_disable_oracle_entries_frame(s, feed, reporting, to_disable.drop_last());
    }
}

/// Changing the oracles of a feed leaves it with as many oracles as it had,
/// less those disabled and plus those added.
pub proof fn law_oracle_count_follows_changes(
    s: PalletView,
    origin: Origin,
    feed: FeedId,
    to_disable: Seq<AccountId>,
    to_add: Seq<(AccountId, AccountId)>,
)
    requires
        to_disable.len() <= u32::MAX,
        to_add.len() <= u32::MAX,
    ensures
        s.change_oracles(origin, feed, to_disable, to_add) matches Ok(s2) ==> {
            let before = s.feed_config(feed).unwrap();
            let after = s2.feed_config(feed).unwrap();
            &&& s.feed_config(feed) is Some && s2.feed_config(feed) is Some
            &&& to_disable.len() <= before.oracle_count
            &&& before.oracle_count - to_disable.len() + to_add.len() <= u32::MAX ==> after.oracle_count
                == before.oracle_count - to_disable.len() + to_add.len()
            &&& after.oracle_count <= s.limits.oracle_count_limit
            &&& after.owner == before.owner
        },
{
    if let Some(cfg) = s.feed_config(feed) {
        lemma_disable_oracle_entries_frame(s, feed, cfg.reporting_round, to_disable);
        if let Ok((s1, cfg1)) = s.disable_oracles(feed, cfg, to_disable) {
            lemma_add_oracle_entries_frame(s1, feed, cfg1.reporting_round, to_add);
        }
    }
}

/// A new round is started only once the reporting round can be superseded
/// (it was answered or timed out, or it is round zero): the reporting round
/// then moves on by exactly one, and the new round starts at `now`, without
/// an answer, with details that take the feed's current round settings.
pub proof fn law_new_rounds_follow_the_reporting_round(
    s: PalletView,
    feed: FeedId,
    cfg: FeedConfigView,
    requester: AccountId,
    now: u64,
)
    ensures
        s.feed_request_new_round(feed, cfg, requester, now) matches Ok((s2, c2)) ==> {
            let r = s2.round(feed, c2.reporting_round).unwrap();
            let d = s2.details(feed, c2.reporting_round).unwrap();
            &&& cfg.reporting_round < u32::MAX
            &&& cfg.reporting_round == 0 || s.was_updated(feed, cfg.reporting_round) || s.is_timed_out(
                feed,
                cfg.reporting_round,
                now,
            )
            &&& c2.reporting_round == cfg.reporting_round + 1
            &&& s2.round(feed, c2.reporting_round) is Some
            &&& r.started_at == now && r.answer is None && r.updated_at is None
            &&& s2.details(feed, c2.reporting_round) is Some
            &&& d.submissions.len() == 0 && d.payment == cfg.payment && d.timeout == cfg.timeout
                && d.submission_count_bounds == cfg.submission_count_bounds
        },
{
    let new_round = (cfg.reporting_round + 1) as u32;
    let prev = sat_sub_u32(new_round, 1);
    if prev != new_round {
        lemma_round_keys_differ(feed, prev, feed, new_round);
    }
}

} // verus!

verus! {

proof fn lemma_kth_smallest_is_a_value(s: Seq<u64>, k: int)
    requires
        0 <= k < s.len(),
    ensures
        s.contains(crate::ordering::kth_smallest(s, k)),
{
    let t = crate::ordering::sorted_values(s);
    crate::ordering::lemma_sorted_values(s);
    t.to_multiset_ensures();
    s.to_multiset_ensures();
    assert(t.contains(t[k]));
    assert(t.to_multiset().count(t[k]) > 0);
    assert(s.to_multiset().count(t[k]) > 0);
}

/// A round's answer is a middle value of its submissions: with an odd number
/// of submissions it is one of them; with an even number it lies between two
/// of them, unless the two middle values add up beyond the largest value.
pub proof fn law_answer_is_a_middle_submission(s: Seq<u64>)
    requires
        s.len() > 0,
    ensures
        s.len() % 2 == 1 ==> s.contains(crate::chainlink_feed::utils::spec_median(s)),
        s.len() % 2 == 0 && crate::ordering::kth_smallest(s, s.len() / 2 - 1) + crate::ordering::kth_smallest(
            s,
            (s.len() / 2) as int,
        ) <= u64::MAX ==> exists|i: int, j: int|
            0 <= i < s.len() && 0 <= j < s.len() && #[trigger] s[i] <= crate::chainlink_feed::utils::spec_median(s)
                <= #[trigger] s[j],
{
    let mid = s.len() / 2;
    crate::ordering::lemma_sorted_values(s);
    if s.len() % 2 == 1 {
        lemma_kth_smallest_is_a_value(s, mid as int);
    } else {
        lemma_kth_smallest_is_a_value(s, mid - 1);
        lemma_kth_smallest_is_a_value(s, mid as int);
        let a = crate::ordering::kth_smallest(s, mid - 1);
        let b = crate::ordering::kth_smallest(s, mid as int);
        assert(crate::ordering::value_leq()(crate::ordering::sorted_values(s)[mid - 1], crate::ordering::sorted_values(s)[mid as int]));
        if a + b <= u64::MAX {
            let i = choose|i: int| 0 <= i < s.len() && s[i] == a;
            let j = choose|j: int| 0 <= j < s.len() && s[j] == b;
            assert(s[i] <= crate::chainlink_feed::utils::spec_median(s) <= s[j]);
        }
    }
}


/// Answering a round stores the median of its submissions as the round's
/// answer, with the block it was given at, and makes it the feed's latest
/// round; the round stays in storage whatever pruning follows.
pub proof fn law_answered_round_holds_the_median(
    s: PalletView,
    feed: FeedId,
    cfg: FeedConfigView,
    round: RoundId,
    subs: Seq<u64>,
    now: u64,
)
    requires
        cfg.pruning_window > 0,
    ensures
        s.answer_round(feed, cfg, round, subs, now) matches Ok((s1, cfg1, _)) ==> {
            &&& cfg1.latest_round == round
            &&& s1.round(feed, round) matches Some(r) && r.answer == Some(
                crate::chainlink_feed::utils::spec_median(subs),
            ) && r.updated_at == Some(now) && r.answered_in_round == Some(round)
        },
{
    if let Some(_) = s.round(feed, round) {
        let next = cfg.next_round_to_prune;
        if next != round {
            lemma_round_keys_differ(feed, next, feed, round);
        }
    }
}

} // verus!
