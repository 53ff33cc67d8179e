//! Waiting for a relay-chain block to be imported.
//!
//! The waiting itself (asking the relay chain, listening to its import
//! notifications, the timer) is done by the node; the decisions are made here:
//! whether the first answer of the relay chain ends the wait, and whether an
//! event met while waiting does.
use crate::mini_node::{hashes_equal, H256};
use vstd::prelude::*;

verus! {

/// Seconds to wait for the block before giving up.
pub const TIMEOUT_IN_SECONDS: u64 = 6u64;

/// Why waiting for a relay-chain block failed.
#[derive(Debug, PartialEq, Eq)]
pub enum Error {
    /// Timeout while waiting for the relay-chain block to be imported.
    Timeout(H256),
    /// Import listener closed while waiting for the relay-chain block to be imported.
    ImportListenerClosed(H256),
    /// The relay chain's blockchain failed while it was asked for the block,
    /// with its message.
    BlockchainError(H256, String),
}

/// What the relay chain answers when asked whether a block is in its chain.
pub enum BlockCheck {
    /// The block is not imported yet; its import notifications are listened to.
    Listening,
    /// The block is in the chain already.
    InChain,
    /// The blockchain returned an error, with its message.
    Failed(String),
}

/// What happens while waiting.
pub enum WaitEvent {
    /// The timeout fired.
    TimedOut,
    /// A block was imported.
    Imported(H256),
    /// The import notification stream ended.
    ListenerClosed,
    /// The notification stream delivered an error instead of a block.
    StreamError,
}

/// Waits for relay-chain blocks, through the given relay-chain interface.
pub struct WaitOnRelayChainBlock<R> {
    pub relay_chain_interface: R,
}

impl<R> WaitOnRelayChainBlock<R> {
    /// Creates a new instance of `Self`.
    pub fn new(relay_chain_interface: R) -> (r: Self)
        ensures
            r.relay_chain_interface == relay_chain_interface,
    {
        WaitOnRelayChainBlock { relay_chain_interface }
    }
}

impl<R: Clone> Clone for WaitOnRelayChainBlock<R> {
    fn clone(&self) -> Self {
        WaitOnRelayChainBlock { relay_chain_interface: self.relay_chain_interface.clone() }
    }
}

/// How the wait for `hash` begins, given the relay chain's first answer: the
/// outcome when that answer ends it, `None` when the node has to listen.
pub fn start_wait(hash: H256, check: BlockCheck) -> (r: Option<Result<(), Error>>)
    ensures
        match check {
            BlockCheck::Listening => r is None,
            BlockCheck::InChain => r == Some(Ok::<(), Error>(())),
            BlockCheck::Failed(msg) => r == Some(Err::<(), Error>(Error::BlockchainError(hash, msg))),
        },
{
    match check {
        BlockCheck::Listening => None,
        BlockCheck::InChain => Some(Ok(())),
        BlockCheck::Failed(msg) => Some(Err(Error::BlockchainError(hash, msg))),
    }
}

/// The outcome of an event met while waiting for `hash`, or `None` when the
/// wait goes on (another block was imported, or the stream reported an error).
pub fn on_wait_event(hash: H256, event: WaitEvent) -> (r: Option<Result<(), Error>>)
    ensures
        match event {
            WaitEvent::TimedOut => r == Some(Err::<(), Error>(Error::Timeout(hash))),
            WaitEvent::Imported(h) => if h@ == hash@ {
                r == Some(Ok::<(), Error>(()))
            } else {
                r is None
            },
            WaitEvent::ListenerClosed => r == Some(Err::<(), Error>(Error::ImportListenerClosed(hash))),
            WaitEvent::StreamError => r is None,
        },
{
    match event {
        WaitEvent::TimedOut => Some(Err(Error::Timeout(hash))),
        WaitEvent::Imported(h) => {
            if hashes_equal(&h, &hash) {
                Some(Ok(()))
            } else {
                None
            }
        },
        WaitEvent::ListenerClosed => Some(Err(Error::ImportListenerClosed(hash))),
        WaitEvent::StreamError => None,
    }
}

} // verus!
