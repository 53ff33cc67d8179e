use integritee_parachain::mini_node::{
    active_leaves, hashes_equal, BlockInfo, CollatorOverseerGen, FakeImportQueue, RPCSelectChain,
    MAX_ACTIVE_LEAVES,
};
use std::sync::Arc;

fn block(id: u8, number: u32) -> BlockInfo {
    BlockInfo { hash: [id; 32], parent_hash: [id.wrapping_sub(1); 32], number }
}

#[test]
fn best_block_comes_first_then_newest_uncles() {
    let best = block(9, 10);
    let leaves = vec![block(1, 9), block(2, 10), block(3, 8), block(9, 10), block(4, 11)];
    let active = active_leaves(&leaves, best);
    assert_eq!(active, vec![best, block(4, 11), block(2, 10), block(1, 9)]);
}

#[test]
fn at_most_four_leaves_are_active() {
    let best = block(9, 5);
    let leaves = vec![block(1, 5), block(2, 4), block(3, 5), block(4, 6), block(5, 4)];
    let active = active_leaves(&leaves, best);
    assert_eq!(active.len(), MAX_ACTIVE_LEAVES);
    // Equal numbers keep their order, so the later of them comes first once reversed.
    assert_eq!(active, vec![best, block(4, 6), block(3, 5), block(1, 5)]);
}

#[test]
fn genesis_best_block_accepts_all_heights() {
    let best = block(9, 0);
    let active = active_leaves(&vec![block(1, 0)], best);
    assert_eq!(active, vec![best, block(1, 0)]);
    assert_eq!(active_leaves(&vec![], best), vec![best]);
}

#[test]
fn hashes_compare_by_every_byte() {
    let a = [3u8; 32];
    let mut b = a;
    assert!(hashes_equal(&a, &b));
    b[17] = 4;
    assert!(!hashes_equal(&a, &b));
}

#[test]
fn select_chain_keeps_its_client() {
    let client = Arc::new(7u32);
    let chain = RPCSelectChain::new(client.clone());
    let copy = chain.clone();
    assert_eq!(*copy.rpc_client, 7);
    assert!(Arc::ptr_eq(&chain.rpc_client, &client));
    let _gen = CollatorOverseerGen;
    let _queue = FakeImportQueue {};
}
