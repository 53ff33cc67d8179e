use integritee_parachain::mini_node::H256;
use integritee_parachain::wait_on_relay_chain_block::{
    on_wait_event, start_wait, BlockCheck, Error, WaitEvent, WaitOnRelayChainBlock, TIMEOUT_IN_SECONDS,
};

fn hash(b: u8) -> H256 {
    [b; 32]
}

/// Runs a wait: the relay chain's first answer, then the events met while
/// listening, until one of them ends the wait; `None` if none does.
fn wait(h: H256, check: BlockCheck, events: Vec<WaitEvent>) -> Option<Result<(), Error>> {
    if let Some(outcome) = start_wait(h, check) {
        return Some(outcome);
    }
    for event in events {
        if let Some(outcome) = on_wait_event(h, event) {
            return Some(outcome);
        }
    }
    None
}

#[test]
fn returns_directly_for_available_block() {
    let wait_on = WaitOnRelayChainBlock::new(());
    let _ = wait_on.relay_chain_interface;
    assert_eq!(wait(hash(1), BlockCheck::InChain, vec![]), Some(Ok(())));
}

#[test]
fn resolve_after_block_import_notification_was_received() {
    let h = hash(1);
    // Should not be ready before the block is imported.
    assert_eq!(wait(h, BlockCheck::Listening, vec![]), None);
    assert_eq!(wait(h, BlockCheck::Listening, vec![WaitEvent::Imported(h)]), Some(Ok(())));
}

#[test]
fn wait_for_block_time_out_when_block_is_not_imported() {
    let h = hash(1);
    assert_eq!(TIMEOUT_IN_SECONDS, 6);
    assert_eq!(wait(h, BlockCheck::Listening, vec![WaitEvent::TimedOut]), Some(Err(Error::Timeout(h))));
}

#[test]
fn do_not_resolve_after_different_block_import_notification_was_received() {
    let h1 = hash(1);
    let h2 = hash(2);
    assert_eq!(wait(h1, BlockCheck::Listening, vec![WaitEvent::Imported(h2)]), None);
    assert_eq!(
        wait(h1, BlockCheck::Listening, vec![WaitEvent::Imported(h2), WaitEvent::Imported(h1)]),
        Some(Ok(()))
    );
}

#[test]
fn blockchain_errors_and_closed_listeners_end_the_wait() {
    let h = hash(7);
    assert_eq!(
        start_wait(h, BlockCheck::Failed("db".to_string())),
        Some(Err(Error::BlockchainError(h, "db".to_string())))
    );
    assert_eq!(on_wait_event(h, WaitEvent::ListenerClosed), Some(Err(Error::ImportListenerClosed(h))));
    let mut almost = h;
    almost[31] = 8;
    assert_eq!(on_wait_event(h, WaitEvent::Imported(almost)), None);
}

#[test]
fn stream_errors_do_not_end_the_wait() {
    let h = hash(9);
    assert_eq!(on_wait_event(h, WaitEvent::StreamError), None);
    assert_eq!(on_wait_event(h, WaitEvent::Imported(h)), Some(Ok(())));
}
