use integritee_parachain::freshness_monitor::{LevelMonitor, TargetInfo, CLEANUP_THRESHOLD};
use integritee_parachain::level_monitor::{DescendingRoute, HashAndNumber};

fn hn(number: u32, hash: u64) -> HashAndNumber {
    HashAndNumber { number, hash }
}

fn route(common: HashAndNumber, enacted: Vec<HashAndNumber>) -> Option<DescendingRoute> {
    Some(DescendingRoute { common_block: common, enacted })
}

/// Finalized block 100 at height 0; leaves 21 (through 11) and 12; a leaf on
/// another fork.
fn monitor(limit: usize) -> LevelMonitor {
    LevelMonitor::new(limit, hn(0, 100), &vec![Some(vec![hn(1, 11), hn(2, 21)]), Some(vec![hn(1, 12)]), None])
}

#[test]
fn restore_infers_freshness_from_height() {
    let m = monitor(2);
    assert_eq!(m.level(0), vec![100]);
    assert_eq!(m.level(1), vec![11, 12]);
    assert_eq!(m.level(2), vec![21]);
    assert_eq!(m.freshness.get(&100), Some(&0));
    assert_eq!(m.freshness.get(&11), Some(&1));
    assert_eq!(m.freshness.get(&21), Some(&2));
    assert_eq!(m.freshness.get(&12), Some(&1));
    assert_eq!(m.import_counter, 3);
    assert_eq!(m.lowest_level, 0);
    assert_eq!(m.removals_needed(1), 1);
    assert_eq!(m.removals_needed(2), 0);
    assert_eq!(m.sort_leaves(&vec![21, 12]), vec![12, 21]);
}

#[test]
fn the_best_block_route_is_spared() {
    let m = monitor(2);
    let leaves = vec![12, 21];
    // Block 11 reaches leaf 21, the best block; block 12 is itself a leaf.
    let table = vec![
        vec![None, route(hn(1, 11), vec![hn(2, 21)])],
        vec![None, None],
    ];
    let t = m.find_target(1, &leaves, 21, &table).unwrap();
    assert_eq!(t.block, 12);
    assert_eq!(t.freshest_leaf_idx, 0);
    assert!(t.freshest_route.is_none());
    let plan = LevelMonitor::removal_plan(&t, 1, &leaves, &vec![None, None]);
    assert_eq!(plan, vec![vec![hn(1, 12)]]);
    // The best block itself is never a target.
    assert!(m.find_target(1, &vec![12], 12, &vec![vec![None], vec![None]]).is_none());
    assert!(m.find_target(7, &leaves, 21, &vec![]).is_none());
}

#[test]
fn the_least_fresh_block_is_the_target() {
    let m = monitor(2);
    let leaves = vec![12, 21];
    let table = vec![
        vec![None, route(hn(1, 11), vec![hn(2, 21)])],
        vec![None, None],
    ];
    // With another best block, block 11 reaches leaf 1 first, then block 12
    // reaches leaf 0, which is less fresh and ends the search.
    let t = m.find_target(1, &leaves, 100, &table).unwrap();
    assert_eq!(t.block, 12);
    assert_eq!(t.freshest_leaf_idx, 0);
    // Without block 12's leaf, block 11 is the target.
    let table = vec![
        vec![None, route(hn(1, 11), vec![hn(2, 21)])],
        vec![None, None],
    ];
    let t = m.find_target(1, &vec![99, 21], 100, &table).unwrap();
    assert_eq!(t.block, 11);
    assert_eq!(t.freshest_leaf_idx, 1);
}

#[test]
fn the_plan_removes_routes_leaves_first_then_the_target() {
    let target = TargetInfo {
        block: 11,
        freshest_leaf_idx: 2,
        freshest_route: route(hn(1, 11), vec![hn(2, 21), hn(3, 31)]),
    };
    let row = vec![route(hn(1, 11), vec![hn(2, 22)]), None, route(hn(1, 11), vec![hn(2, 21), hn(3, 31)])];
    let plan = LevelMonitor::removal_plan(&target, 1, &vec![22, 5, 31], &row);
    assert_eq!(plan, vec![vec![hn(3, 31), hn(2, 21)], vec![hn(2, 22)], vec![hn(1, 11)]]);
}

#[test]
fn forgetting_and_cleanup() {
    let mut m = monitor(2);
    m.forget(1, 12);
    assert_eq!(m.level(1), vec![11]);
    assert!(m.freshness.get(&12).is_none());
    m.update(3, 31, 0);
    assert_eq!(m.level(3), vec![31]);
    assert_eq!(m.freshness.get(&31), Some(&3));
    assert_eq!(m.import_counter, 4);
    // Once the finalized block is far enough above the lowest level, the
    // levels below it are forgotten.
    m.update(40, 400, CLEANUP_THRESHOLD + 1);
    assert_eq!(m.lowest_level, CLEANUP_THRESHOLD + 1);
    assert!(m.level(0).is_empty());
    assert!(m.level(1).is_empty());
    assert!(m.freshness.get(&11).is_none());
    assert!(m.freshness.get(&100).is_none());
    assert_eq!(m.level(40), vec![400]);
    // Re-inserting a known block keeps the level a set.
    m.update(40, 400, CLEANUP_THRESHOLD + 1);
    assert_eq!(m.level(40), vec![400]);
}

#[test]
fn a_failed_removal_stops_the_run_and_keeps_the_block() {
    let mut m = monitor(2);
    assert!(!m.record_removal(hn(1, 12), false));
    assert_eq!(m.level(1), vec![11, 12]);
    assert_eq!(m.freshness.get(&12), Some(&1));
    assert!(m.record_removal(hn(1, 12), true));
    assert_eq!(m.level(1), vec![11]);
    assert_eq!(m.freshness.get(&12), None);
}
