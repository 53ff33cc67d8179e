use integritee_parachain::level_monitor::{
    becomes_best, BlockOrigin, ParachainBlockImport, DescendingRoute, HashAndNumber, LevelLimit, LevelMonitor, MAX_LEAVES_PER_LEVEL_SENSIBLE_DEFAULT,
};

fn hn(number: u32, hash: u64) -> HashAndNumber {
    HashAndNumber { number, hash }
}

fn route(common: HashAndNumber, enacted: Vec<HashAndNumber>) -> Option<DescendingRoute> {
    Some(DescendingRoute { common_block: common, enacted })
}

#[test]
fn limits_follow_the_setting() {
    assert!(LevelMonitor::new(LevelLimit::Unlimited).is_none());
    assert_eq!(LevelMonitor::new(LevelLimit::Default).unwrap().level_limit, MAX_LEAVES_PER_LEVEL_SENSIBLE_DEFAULT);
    let m = LevelMonitor::new(LevelLimit::Limit(3)).unwrap();
    assert_eq!(m.level_limit, 3);
    assert_eq!(m.import_counter, 0);
    assert!(m.needs_restore());
}

#[test]
fn update_records_blocks_in_import_order() {
    let mut m = LevelMonitor::new(LevelLimit::Limit(2)).unwrap();
    m.update(5, 50);
    m.update(5, 51);
    m.update(6, 60);
    assert_eq!(m.level(5), vec![50, 51]);
    assert_eq!(m.level(6), vec![60]);
    assert_eq!(m.level(7), Vec::<u64>::new());
    assert_eq!(m.import_counters.get(&51), Some(&1));
    assert_eq!(m.import_counter, 3);
    assert!(!m.needs_restore());
}

#[test]
fn removals_are_needed_only_at_a_full_level() {
    let mut m = LevelMonitor::new(LevelLimit::Limit(2)).unwrap();
    assert_eq!(m.removals_needed(5), 0);
    m.update(5, 50);
    assert_eq!(m.removals_needed(5), 0);
    m.update(5, 51);
    assert_eq!(m.removals_needed(5), 1);
    m.update(5, 52);
    assert_eq!(m.removals_needed(5), 2);
}

#[test]
fn leaves_are_sorted_least_recently_imported_first() {
    let mut m = LevelMonitor::new(LevelLimit::Limit(4)).unwrap();
    m.update(1, 10);
    m.update(2, 20);
    m.update(2, 21);
    assert_eq!(m.sort_leaves(&vec![21, 99, 10, 20]), vec![99, 10, 20, 21]);
}

#[test]
fn restore_numbers_blocks_by_height() {
    let mut m = LevelMonitor::new(LevelLimit::Limit(4)).unwrap();
    let routes = vec![
        Some(vec![hn(1, 10), hn(2, 20), hn(3, 30)]),
        None,
        Some(vec![hn(1, 10), hn(2, 21)]),
    ];
    m.restore(&routes);
    assert_eq!(m.level(2), vec![20, 21]);
    assert_eq!(m.import_counters.get(&30), Some(&3));
    assert_eq!(m.import_counters.get(&21), Some(&2));
    assert_eq!(m.import_counter, 4);
}

#[test]
fn the_block_with_the_oldest_leaves_is_removed() {
    let mut m = LevelMonitor::new(LevelLimit::Limit(2)).unwrap();
    // Level 1 holds blocks 10 and 11; leaf 20 descends from 10, leaf 21 from 11.
    m.update(1, 10);
    m.update(1, 11);
    m.update(2, 20);
    m.update(2, 21);
    assert_eq!(m.removals_needed(1), 1);
    let leaves = m.sort_leaves(&vec![21, 20]);
    assert_eq!(leaves, vec![20, 21]);
    let table = vec![
        vec![route(hn(1, 10), vec![hn(2, 20)]), None],
        vec![None, route(hn(1, 11), vec![hn(2, 21)])],
    ];
    let removed = m.remove_one(1, &table, 21);
    assert_eq!(removed, vec![20, 10]);
    assert_eq!(m.level(1), vec![11]);
    assert!(m.import_counters.get(&10).is_none());
    assert!(m.import_counters.get(&20).is_none());
    assert_eq!(m.import_counters.get(&11), Some(&1));
}

#[test]
fn blocks_on_the_best_chain_are_kept() {
    let mut m = LevelMonitor::new(LevelLimit::Limit(2)).unwrap();
    m.update(1, 10);
    m.update(1, 11);
    m.update(2, 20);
    m.update(2, 21);
    let table = vec![
        vec![route(hn(1, 10), vec![hn(2, 20)]), None],
        vec![None, route(hn(1, 11), vec![hn(2, 21)])],
    ];
    // Leaf 20 is the best block: block 10 is not a candidate, block 11 goes.
    let removed = m.remove_one(1, &table, 20);
    assert_eq!(removed, vec![21, 11]);
    assert_eq!(m.level(1), vec![10]);
}

#[test]
fn without_candidate_the_first_block_leaves_the_level() {
    let mut m = LevelMonitor::new(LevelLimit::Limit(1)).unwrap();
    m.update(1, 10);
    let table = vec![vec![route(hn(1, 10), vec![])]];
    let removed = m.remove_one(1, &table, 10);
    assert!(removed.is_empty());
    assert!(m.level(1).is_empty());
    assert_eq!(m.import_counters.get(&10), Some(&0));
}

#[test]
fn only_initial_sync_sets_the_best_block() {
    assert!(becomes_best(BlockOrigin::NetworkInitialSync));
    for o in [BlockOrigin::Genesis, BlockOrigin::NetworkBroadcast, BlockOrigin::ConsensusBroadcast, BlockOrigin::Own, BlockOrigin::File] {
        assert!(!becomes_best(o));
    }
}

#[test]
fn block_import_feeds_the_monitor() {
    let mut bi = ParachainBlockImport::new(LevelLimit::Limit(2));
    bi.imported(5, 50);
    bi.imported(5, 51);
    let m = bi.level_monitor.as_ref().unwrap();
    assert_eq!(m.level(5), vec![50, 51]);
    assert_eq!(m.import_counter, 2);
    let mut none = ParachainBlockImport::new(LevelLimit::Unlimited);
    none.imported(1, 1);
    assert!(none.level_monitor.is_none());
}
