//! The decisions a collator makes while it produces a collation for a
//! relay-chain request: whether the parent can be built on, which slot and
//! timestamp the block gets, how large a proposal may be, what becomes of the
//! request when a step fails, and what goes into the collation.
//!
//! The node proposes, signs and imports; it reports each step's outcome here
//! and acts on the answer.
use vstd::prelude::*;
use parity_scale_codec::Decode;

verus! {

/// What the parachain client says of a block.
#[derive(Clone, Copy, Debug, PartialEq, Eq, Structural)]
pub enum BlockStatus {
    /// Still waiting in the import queue.
    Queued,
    /// Imported, with its state.
    InChainWithState,
    /// Imported, its state already pruned.
    InChainPruned,
    /// Known to be bad.
    KnownBad,
    /// Not known.
    Unknown,
}

/// Whether a collation can be built on the block; `None` when the client
/// failed to tell. Only an imported block whose state is still there can be
/// built on.
pub fn check_block_status(status: Option<BlockStatus>) -> (ok: bool)
    ensures
        ok == (status == Some(BlockStatus::InChainWithState)),
{
    match status {
        Some(BlockStatus::InChainWithState) => true,
        _ => false,
    }
}

/// The largest proposal, in bytes: half the largest proof of validity.
pub fn proposal_size_limit(max_pov_size: u32) -> (limit: usize)
    ensures
        limit == max_pov_size / 2,
{
    (max_pov_size / 2) as usize
}

/// The block's timestamp, in milliseconds: the relay parent's slot times the
/// relay chain's slot duration.
pub open spec fn slot_timestamp(relay_slot_duration_ms: u64, relay_slot: u64) -> int {
    relay_slot_duration_ms * relay_slot
}

/// The parachain slot of the block and its timestamp, from the relay
/// parent's slot.
pub fn slot_and_timestamp(relay_slot_duration_ms: u64, relay_slot: u64, slot_duration_ms: u64) -> (r: (u64, u64))
    requires
        slot_timestamp(relay_slot_duration_ms, relay_slot) <= u64::MAX,
        slot_duration_ms > 0,
    ensures
        r.1 == slot_timestamp(relay_slot_duration_ms, relay_slot),
        r.0 == r.1 / slot_duration_ms,
{
    let timestamp = relay_slot_duration_ms * relay_slot;
    (timestamp / slot_duration_ms, timestamp)
}

/// The steps of producing a collation, in order.
#[derive(Clone, Copy, Debug, PartialEq, Eq, Structural)]
pub enum CollationStep {
    DecodeParent,
    CheckParent,
    /// Loading the slot authorities from the runtime (slot-based authoring).
    Authorities,
    RelayParentHeader,
    ClaimSlot,
    InherentData,
    Propose,
    Seal,
    Import,
    BuildCollation,
}

/// How a step went.
#[derive(Clone, Copy, Debug, PartialEq, Eq, Structural)]
pub enum StepResult {
    Done,
    /// The step found nothing to work with (no status allowing building, no
    /// relay parent header, no slot to claim, no collation).
    Nothing,
    Failed,
}

/// What becomes of the request.
#[derive(Clone, Copy, Debug, PartialEq, Eq, Structural)]
pub enum RequestFate {
    /// Go on with the next step, or answer with the collation after the last.
    Proceed,
    /// Answer that there is no collation.
    AnswerEmpty,
    /// Leave the request without an answer.
    Abandon,
}

/// The fate of a request after a step, in the relay-chain-driven collator:
/// a failure is answered with no collation; a parent that cannot be built
/// on, a missing relay parent header or an unclaimed slot abandon the
/// request; no collation at the end is an empty answer.
pub open spec fn basic_fate(step: CollationStep, result: StepResult) -> RequestFate {
    match result {
        StepResult::Done => RequestFate::Proceed,
        StepResult::Failed => RequestFate::AnswerEmpty,
        StepResult::Nothing => match step {
            CollationStep::CheckParent | CollationStep::RelayParentHeader | CollationStep::ClaimSlot => RequestFate::Abandon,
            _ => RequestFate::AnswerEmpty,
        },
    }
}

/// The fate of a request after a step.
pub fn request_fate(step: CollationStep, result: StepResult) -> (fate: RequestFate)
    requires
        result == StepResult::Nothing ==> (step == CollationStep::CheckParent || step
            == CollationStep::RelayParentHeader || step == CollationStep::ClaimSlot || step
            == CollationStep::BuildCollation),
        result == StepResult::Failed ==> step != CollationStep::CheckParent && step != CollationStep::BuildCollation,
    ensures
        fate == basic_fate(step, result),
{
    match result {
        StepResult::Done => RequestFate::Proceed,
        StepResult::Failed => RequestFate::AnswerEmpty,
        StepResult::Nothing => match step {
            CollationStep::CheckParent => RequestFate::Abandon,
            CollationStep::RelayParentHeader => RequestFate::Abandon,
            CollationStep::ClaimSlot => RequestFate::Abandon,
            _ => RequestFate::AnswerEmpty,
        },
    }
}

/// A failed step is always answered: a request is only left unanswered when
/// there was nothing to build on.
pub proof fn law_failures_are_answered(step: CollationStep)
    ensures
        basic_fate(step, StepResult::Failed) == RequestFate::AnswerEmpty,
        basic_fate(step, StepResult::Done) == RequestFate::Proceed,
{
}

/// The fate of a request after a step, when the collator authors by slots
/// itself: every request is answered, a failed step or one that found
/// nothing with no collation.
pub open spec fn slot_authoring_fate(result: StepResult) -> RequestFate {
    match result {
        StepResult::Done => RequestFate::Proceed,
        _ => RequestFate::AnswerEmpty,
    }
}

/// The fate of a request after a step of slot-based authoring: a parent
/// that cannot be built on, an unclaimed slot, missing inherent data or a
/// block that failed to import all end in an answer without a collation, as
/// does any error.
pub fn slot_authoring_request_fate(result: StepResult) -> (fate: RequestFate)
    ensures
        fate == slot_authoring_fate(result),
{
    match result {
        StepResult::Done => RequestFate::Proceed,
        _ => RequestFate::AnswerEmpty,
    }
}

/// The answer that completes a collation request of slot-based authoring,
/// from the outcome of collating for it: the collation found, if any; no
/// collation when collating failed.
pub fn slot_authoring_answer<E>(outcome: Result<Option<Collation>, E>) -> (answer: Option<Collation>)
    ensures
        answer == match outcome {
            Ok(found) => found,
            Err(_) => None::<Collation>,
        },
{
    match outcome {
        Ok(found) => found,
        Err(_) => None,
    }
}

/// Slot-based authoring leaves no request unanswered, whatever step stops it.
pub proof fn law_slot_authoring_answers_every_request(result: StepResult)
    ensures
        slot_authoring_fate(result) != RequestFate::Abandon,
        result != StepResult::Done ==> slot_authoring_fate(result) == RequestFate::AnswerEmpty,
{
}

/// A message from the parachain to the relay chain.
pub type UpwardMessage = Vec<u8>;

/// What the validators receive for a parachain block.
pub struct Collation {
    pub fees: u128,
    pub upward_messages: Vec<UpwardMessage>,
    pub new_validation_code: Option<Vec<u8>>,
    pub head_data: Vec<u8>,
    /// The proof of validity: the encoded block.
    pub block_data: Vec<u8>,
}

/// What the upward-message queue of the built block held.
pub enum UpwardMessages {
    /// Nothing was queued.
    Absent,
    Decoded(Vec<UpwardMessage>),
    /// The stored bytes did not decode.
    Undecodable,
}

/// `c` carries the block, its header, no fees and the new validation code.
pub open spec fn carries(c: Collation, block_data: Vec<u8>, head_data: Vec<u8>, new_validation_code: Option<
    Vec<u8>,
>) -> bool {
    &&& c.fees == 0
    &&& c.block_data == block_data
    &&& c.head_data == head_data
    &&& c.new_validation_code == new_validation_code
}

/// The collation of a freshly built block from what its state held: its
/// encoding, its header's encoding, the upward messages and the new
/// validation code. Upward messages that do not decode give no collation.
pub fn assemble_collation(
    block_data: Vec<u8>,
    head_data: Vec<u8>,
    upward_messages: UpwardMessages,
    new_validation_code: Option<Vec<u8>>,
) -> (c: Option<Collation>)
    ensures
        upward_messages is Undecodable <==> c is None,
        c matches Some(c) ==> {
            &&& carries(c, block_data, head_data, new_validation_code)
            &&& (upward_messages matches UpwardMessages::Decoded(m) ==> c.upward_messages == m)
            &&& (upward_messages is Absent ==> c.upward_messages@.len() == 0)
        },
{
    let upward = match upward_messages {
        UpwardMessages::Absent => Vec::new(),
        UpwardMessages::Decoded(m) => m,
        UpwardMessages::Undecodable => return None,
    };
    Some(Collation { fees: 0, upward_messages: upward, new_validation_code, head_data, block_data })
}

/// The list of upward messages that SCALE-decoding `bytes` gives, or `None`
/// where they do not decode.
pub uninterp spec fn scale_decoded_upward_messages(bytes: Seq<u8>) -> Option<Seq<Seq<u8>>>;

/// `Decode::decode` of parity-scale-codec for a `Vec<Vec<u8>>`, reading from
/// the start of `bytes`. Its result depends on the bytes alone; the contract
/// names it and claims nothing more of it.
#[verifier::external_body]
fn decode_upward_messages(bytes: &[u8]) -> (r: Option<Vec<UpwardMessage>>)
    ensures
        r.deep_view() == scale_decoded_upward_messages(bytes@),
{
    Vec::<UpwardMessage>::decode(&mut &bytes[..]).ok()
}

/// The collation of a freshly built block: its encoding, its header's
/// encoding, the upward messages that its state queued (SCALE-encoded, if
/// any were) and the new validation code it holds. Upward messages that do
/// not decode give no collation.
pub fn build_collation(
    block_data: Vec<u8>,
    head_data: Vec<u8>,
    upward_messages: Option<Vec<u8>>,
    new_validation_code: Option<Vec<u8>>,
) -> (c: Option<Collation>)
    ensures
        match upward_messages {
            None => c matches Some(c) && carries(c, block_data, head_data, new_validation_code)
                && c.upward_messages@.len() == 0,
            Some(bytes) => match scale_decoded_upward_messages(bytes@) {
                None => c is None,
                Some(msgs) => c matches Some(c) && carries(c, block_data, head_data, new_validation_code)
                    && c.upward_messages.deep_view() == msgs,
            },
        },
{
    let upward = match upward_messages {
        None => UpwardMessages::Absent,
        Some(bytes) => match decode_upward_messages(bytes.as_slice()) {
            Some(m) => UpwardMessages::Decoded(m),
            None => UpwardMessages::Undecodable,
        },
    };
    assemble_collation(block_data, head_data, upward, new_validation_code)
}

} // verus!
