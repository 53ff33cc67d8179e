//! What the collators hand to the block import: the parameters of a block a
//! collator built itself, and the verdict of the slot-based import verifier on
//! a block from the network, from the outcome of the seal check that the node
//! runs.
use vstd::prelude::*;
use crate::level_monitor::{BlockHash, BlockOrigin};

verus! {

/// How the node picks its best block when it imports a block.
#[derive(Clone, Copy, Debug, PartialEq, Eq, Structural)]
pub enum ForkChoice {
    /// The longest chain is the best.
    LongestChain,
    /// The imported block becomes the best exactly when the flag says so.
    Custom(bool),
}

/// The parameters of a block import, as plain values: encoded header, body
/// and seals.
pub struct ImportParams {
    pub origin: BlockOrigin,
    pub header: Vec<u8>,
    pub body: Option<Vec<Vec<u8>>>,
    /// Digest items that the import appends to the header, such as seals.
    pub post_digests: Vec<Vec<u8>>,
    pub fork_choice: Option<ForkChoice>,
    /// The hash of the block with its post digests, when known beforehand.
    pub post_hash: Option<BlockHash>,
    /// Whether the import applies the storage changes computed while building.
    pub apply_storage_changes: bool,
}

/// The import of a block the node built itself: of its own origin, with its
/// body and the storage changes computed while building it, and with its
/// seal, if any, as the one post digest. When the relay chain decides the
/// best block the import never makes it the best; otherwise the longest
/// chain does.
pub fn own_block_params(
    header: Vec<u8>,
    body: Vec<Vec<u8>>,
    seal: Option<Vec<u8>>,
    best_from_relay_chain: bool,
) -> (p: ImportParams)
    ensures
        p.origin == BlockOrigin::Own,
        p.header == header,
        p.body == Some(body),
        p.post_digests@ == (match seal {
            Some(s) => seq![s],
            None => Seq::empty(),
        }),
        p.fork_choice == Some(
            if best_from_relay_chain {
                ForkChoice::Custom(false)
            } else {
                ForkChoice::LongestChain
            },
        ),
        p.post_hash is None,
        p.apply_storage_changes,
{
    let mut post_digests: Vec<Vec<u8>> = Vec::new();
    match seal {
        Some(s) => post_digests.push(s),
        None => {},
    }
    let fork_choice = if best_from_relay_chain {
        ForkChoice::Custom(false)
    } else {
        ForkChoice::LongestChain
    };
    ImportParams {
        origin: BlockOrigin::Own,
        header,
        body: Some(body),
        post_digests,
        fork_choice: Some(fork_choice),
        post_hash: None,
        apply_storage_changes: true,
    }
}

/// The verifier skips its checks when told to skip the checks that execute
/// the block, or when only the block's state is imported.
pub fn skips_checks(skip_execution_checks: bool, with_state: bool) -> (skip: bool)
    ensures
        skip == (skip_execution_checks || with_state),
{
    skip_execution_checks || with_state
}

/// What the node's check of a header's slot and seal against the slot
/// authorities found.
pub enum SealCheck {
    /// The seal is valid: the header without it, and the seal digest.
    Valid { pre_header: Vec<u8>, seal: Vec<u8> },
    /// The header claims a slot that has not come yet.
    FutureSlot(u64),
    /// The seal is missing, malformed or not by the slot's author.
    Invalid,
}

/// Why the verifier rejects a block.
#[derive(Clone, Copy, Debug, PartialEq, Eq, Structural)]
pub enum SealRejection {
    /// The block, by its hash, comes from a future slot.
    FutureSlot { block: BlockHash, slot: u64 },
    /// The block, by its hash, carries an invalid seal.
    InvalidSeal { block: BlockHash },
}

/// The verifier's verdict on a block whose hash is `post_hash`, from the
/// outcome of its seal check: a valid seal is moved from the header to the
/// post digests, the block is imported by the longest-chain rule under its
/// known hash; a block from a future slot or with an invalid seal is
/// rejected.
pub fn seal_verdict(params: ImportParams, post_hash: BlockHash, check: SealCheck) -> (r: Result<
    ImportParams,
    SealRejection,
>)
    ensures
        match check {
            SealCheck::Valid { pre_header, seal } => r matches Ok(p) && p.header == pre_header
                && p.post_digests@ == params.post_digests@.push(seal) && p.fork_choice == Some(
                ForkChoice::LongestChain,
            ) && p.post_hash == Some(post_hash) && p.origin == params.origin && p.body == params.body
                && p.apply_storage_changes == params.apply_storage_changes,
            SealCheck::FutureSlot(slot) => r == Err::<ImportParams, SealRejection>(
                SealRejection::FutureSlot { block: post_hash, slot },
            ),
            SealCheck::Invalid => r == Err::<ImportParams, SealRejection>(
                SealRejection::InvalidSeal { block: post_hash },
            ),
        },
{
    match check {
        SealCheck::Valid { pre_header, seal } => {
            let mut p = params;
            p.header = pre_header;
            p.post_digests.push(seal);
            p.fork_choice = Some(ForkChoice::LongestChain);
            p.post_hash = Some(post_hash);
            Ok(p)
        },
        SealCheck::FutureSlot(slot) => Err(SealRejection::FutureSlot { block: post_hash, slot }),
        SealCheck::Invalid => Err(SealRejection::InvalidSeal { block: post_hash }),
    }
}

} // verus!
