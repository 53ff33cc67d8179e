use integritee_parachain::block_import::{
    own_block_params, seal_verdict, skips_checks, ForkChoice, ImportParams, SealCheck, SealRejection,
};
use integritee_parachain::level_monitor::BlockOrigin;

fn network_block() -> ImportParams {
    ImportParams {
        origin: BlockOrigin::NetworkBroadcast,
        header: vec![1, 2, 3, 9],
        body: Some(vec![vec![4]]),
        post_digests: vec![],
        fork_choice: None,
        post_hash: None,
        apply_storage_changes: false,
    }
}

#[test]
fn own_blocks_leave_the_best_block_to_the_relay_chain() {
    let p = own_block_params(vec![1], vec![vec![2]], Some(vec![7]), true);
    assert_eq!(p.origin, BlockOrigin::Own);
    assert_eq!(p.header, vec![1]);
    assert_eq!(p.body, Some(vec![vec![2]]));
    assert_eq!(p.post_digests, vec![vec![7]]);
    assert_eq!(p.fork_choice, Some(ForkChoice::Custom(false)));
    assert!(p.apply_storage_changes);
    let p = own_block_params(vec![1], vec![], None, false);
    assert!(p.post_digests.is_empty());
    assert_eq!(p.fork_choice, Some(ForkChoice::LongestChain));
}

#[test]
fn checks_are_skipped_when_told_or_for_state_imports() {
    assert!(!skips_checks(false, false));
    assert!(skips_checks(true, false));
    assert!(skips_checks(false, true));
}

#[test]
fn a_valid_seal_moves_to_the_post_digests() {
    let p = seal_verdict(network_block(), 77, SealCheck::Valid { pre_header: vec![1, 2, 3], seal: vec![9] }).unwrap();
    assert_eq!(p.header, vec![1, 2, 3]);
    assert_eq!(p.post_digests, vec![vec![9]]);
    assert_eq!(p.fork_choice, Some(ForkChoice::LongestChain));
    assert_eq!(p.post_hash, Some(77));
    assert_eq!(p.origin, BlockOrigin::NetworkBroadcast);
}

#[test]
fn future_slots_and_invalid_seals_are_rejected() {
    assert_eq!(
        seal_verdict(network_block(), 77, SealCheck::FutureSlot(12)).err(),
        Some(SealRejection::FutureSlot { block: 77, slot: 12 })
    );
    assert_eq!(seal_verdict(network_block(), 77, SealCheck::Invalid).err(), Some(SealRejection::InvalidSeal { block: 77 }));
}
