use integritee_parachain::pov_recovery::{ParentStatus, PoVRecovery, Recovered, RecoveryAction};

fn block(parent: u64, status: ParentStatus, body: &'static str) -> Recovered<&'static str> {
    Recovered::Block { block: body, parent, parent_status: status }
}

#[test]
fn new_candidates_are_scheduled_once() {
    let mut r: PoVRecovery<u32, &str> = PoVRecovery::new();
    assert!(r.insert_pending_candidate(10, 5, 100, 1));
    assert!(!r.insert_pending_candidate(10, 5, 101, 1));
    assert!(r.insert_pending_candidate(11, 6, 102, 1));
    assert_eq!(r.pending_candidates.len(), 2);
    assert_eq!(r.pending_candidates.get(&10).unwrap().receipt, 101);
}

#[test]
fn imported_blocks_need_no_recovery() {
    let mut r: PoVRecovery<u32, &str> = PoVRecovery::new();
    r.insert_pending_candidate(10, 5, 100, 1);
    r.block_imported(10);
    assert!(r.recover_candidate(10).is_none());
    assert!(r.recovering_candidates.is_empty());
}

#[test]
fn finalization_drops_candidates_at_or_below() {
    let mut r: PoVRecovery<u32, &str> = PoVRecovery::new();
    r.insert_pending_candidate(1, 4, 0, 0);
    r.insert_pending_candidate(2, 5, 0, 0);
    r.insert_pending_candidate(3, 6, 0, 0);
    r.insert_pending_candidate(4, 7, 0, 0);
    r.block_finalized(5);
    let mut left: Vec<u64> = r.pending_candidates.keys().copied().collect();
    left.sort();
    assert_eq!(left, vec![3, 4]);
}

#[test]
fn recovering_takes_the_candidate() {
    let mut r: PoVRecovery<u32, &str> = PoVRecovery::new();
    r.insert_pending_candidate(10, 5, 100, 7);
    let c = r.recover_candidate(10).unwrap();
    assert_eq!(c.receipt, 100);
    assert_eq!(c.session_index, 7);
    assert_eq!(c.block_number, 5);
    assert!(r.pending_candidates.is_empty());
    assert!(r.recovering_candidates.contains(&10));
}

#[test]
fn known_parent_imports_the_block() {
    let mut r: PoVRecovery<u32, &str> = PoVRecovery::new();
    r.insert_pending_candidate(10, 5, 100, 1);
    r.recover_candidate(10);
    match r.handle_candidate_recovered(10, block(9, ParentStatus::Known, "b10")) {
        RecoveryAction::Import(b) => assert_eq!(b, "b10"),
        RecoveryAction::Nothing => panic!("expected an import"),
    }
    assert!(r.recovering_candidates.is_empty());
}

#[test]
fn failed_recoveries_import_nothing() {
    let mut r: PoVRecovery<u32, &str> = PoVRecovery::new();
    for h in [1u64, 2, 3, 4] {
        r.insert_pending_candidate(h, h as u32, 0, 0);
        r.recover_candidate(h);
    }
    assert!(matches!(r.handle_candidate_recovered(1, Recovered::Unavailable), RecoveryAction::Nothing));
    assert!(matches!(r.handle_candidate_recovered(2, Recovered::Undecodable), RecoveryAction::Nothing));
    assert!(matches!(
        r.handle_candidate_recovered(3, block(77, ParentStatus::Error, "b3")),
        RecoveryAction::Nothing
    ));
    // Unknown parent that is not being recovered either: dropped.
    assert!(matches!(
        r.handle_candidate_recovered(4, block(77, ParentStatus::Unknown, "b4")),
        RecoveryAction::Nothing
    ));
    assert!(r.recovering_candidates.is_empty());
    assert!(r.waiting_for_parent.is_empty());
}

#[test]
fn child_waits_for_a_recovering_parent() {
    let mut r: PoVRecovery<u32, &str> = PoVRecovery::new();
    r.insert_pending_candidate(1, 1, 0, 0);
    r.insert_pending_candidate(2, 2, 0, 0);
    r.insert_pending_candidate(3, 2, 0, 0);
    r.recover_candidate(1);
    r.recover_candidate(2);
    r.recover_candidate(3);
    assert!(matches!(
        r.handle_candidate_recovered(2, block(1, ParentStatus::Unknown, "b2")),
        RecoveryAction::Nothing
    ));
    assert!(matches!(
        r.handle_candidate_recovered(3, block(1, ParentStatus::Unknown, "b3")),
        RecoveryAction::Nothing
    ));
    assert_eq!(r.waiting_for_parent.get(&1).unwrap(), &vec!["b2", "b3"]);
    match r.handle_candidate_recovered(1, block(0, ParentStatus::Known, "b1")) {
        RecoveryAction::Import(b) => assert_eq!(b, "b1"),
        RecoveryAction::Nothing => panic!("expected an import"),
    }
    assert_eq!(r.take_waiting(1), vec!["b2", "b3"]);
    assert!(r.take_waiting(1).is_empty());
    assert!(r.waiting_for_parent.is_empty());
}
