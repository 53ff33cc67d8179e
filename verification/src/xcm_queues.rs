//! Backpressure between the bridge hub's outbound bridge lane and the local
//! XCM queue that feeds it: when too many messages wait at the lane, the
//! inbound queue from the sending chain is suspended (its messages yield).
//!
//! Two policies are kept: one that reads the number of queued messages off
//! the outbound lane, and one that records suspended queues when messages are
//! enqueued and resumes them when deliveries are confirmed.
use crate::orml::location::{copy_junction, Junction, JunctionView, MultiLocation};
use vstd::prelude::*;

verus! {

/// Message nonces.
pub type MessageNonce = u64;

/// Identifier of a messages lane.
pub type LaneId = [u8; 4];

/// When the outbound lane holds more messages than this, the inbound queue of
/// the sending chain is suspended.
pub const MAX_ENQUEUED_MESSAGES_AT_OUTBOUND_LANE: MessageNonce = 4096u64;

/// When more messages than this are enqueued at the bridge queue, the recorded
/// suspension policy suspends the inbound queue.
pub const MAX_ENQUEUED_MESSAGES_BEFORE_SUSPENSION: MessageNonce = 300u64;

/// The state of an outbound messages lane, as far as queued messages go.
#[derive(Clone, Copy, Debug, PartialEq, Eq, Structural)]
pub struct OutboundLaneData {
    /// Nonce of the oldest message that we haven't pruned yet.
    pub oldest_unpruned_nonce: MessageNonce,
    /// Nonce of the latest message, received by the bridged chain.
    pub latest_received_nonce: MessageNonce,
    /// Nonce of the latest message, generated by us.
    pub latest_generated_nonce: MessageNonce,
}

/// The number of messages generated but not yet received by the bridged chain.
pub open spec fn spec_queued_messages(lane: OutboundLaneData) -> MessageNonce {
    if lane.latest_generated_nonce > lane.latest_received_nonce {
        (lane.latest_generated_nonce - lane.latest_received_nonce) as MessageNonce
    } else {
        0
    }
}

impl OutboundLaneData {
    /// The number of queued messages: the length of the nonce range after the
    /// latest received one up to the latest generated one (zero when empty).
    pub fn queued_messages_len(&self) -> (r: MessageNonce)
        requires
            self.latest_received_nonce < MessageNonce::MAX,
        ensures
            r == spec_queued_messages(*self),
    {
        let start = self.latest_received_nonce + 1;
        let end = self.latest_generated_nonce;
        match end.checked_sub(start) {
            Some(len) => match len.checked_add(1) {
                Some(n) => n,
                None => 0,
            },
            None => 0,
        }
    }
}

/// Whether the inbound queue from the sending chain is suspended because its
/// outbound lane is overloaded.
pub fn is_inbound_queue_suspended(lane: &OutboundLaneData) -> (r: bool)
    requires
        lane.latest_received_nonce < MessageNonce::MAX,
    ensures
        r == (spec_queued_messages(*lane) > MAX_ENQUEUED_MESSAGES_AT_OUTBOUND_LANE),
{
    lane.queued_messages_len() > MAX_ENQUEUED_MESSAGES_AT_OUTBOUND_LANE
}

/// The sending chain of a bridge and the lane its messages take.
#[derive(Debug, PartialEq, Eq)]
pub struct SenderAndLane {
    /// Sending chain relative location to the bridge hub.
    pub location: MultiLocation,
    /// Message lane, used by the sending chain.
    pub lane: LaneId,
}

impl SenderAndLane {
    /// Create new object using provided location and lane.
    pub fn new(location: MultiLocation, lane: LaneId) -> (r: Self)
        ensures
            r.location@ == location@,
            r.lane == lane,
    {
        SenderAndLane { location, lane }
    }
}

fn bytes_equal(a: &Vec<u8>, b: &Vec<u8>) -> (r: bool)
    ensures
        r == (a@ == b@),
{
    if a.len() != b.len() {
        return false;
    }
    let mut i: usize = 0;
    while i < a.len()
        invariant
            i <= a.len(),
            a.len() == b.len(),
            forall|k: int| 0 <= k < i ==> a@[k] == b@[k],
        decreases a.len() - i,
    {
        if a[i] != b[i] {
            return false;
        }
        i = i + 1;
    }
    proof {
        assert(a@ =~= b@);
    }
    true
}

fn junctions_equal(a: &Junction, b: &Junction) -> (r: bool)
    ensures
        r == (a@ == b@),
{
    match (a, b) {
        (Junction::Parent, Junction::Parent) => true,
        (Junction::Parachain(x), Junction::Parachain(y)) => *x == *y,
        (Junction::PalletInstance(x), Junction::PalletInstance(y)) => *x == *y,
        (Junction::GeneralIndex(x), Junction::GeneralIndex(y)) => *x == *y,
        (Junction::GeneralKey(x), Junction::GeneralKey(y)) => bytes_equal(x, y),
        (Junction::OnlyChild, Junction::OnlyChild) => true,
        _ => false,
    }
}

/// Whether two locations are the same.
pub fn locations_equal(a: &MultiLocation, b: &MultiLocation) -> (r: bool)
    ensures
        r == (a@ == b@),
{
    if a.junctions.len() != b.junctions.len() {
        proof {
            assert(a@.len() != b@.len());
        }
        return false;
    }
    let mut i: usize = 0;
    while i < a.junctions.len()
        invariant
            i <= a.junctions.len(),
            a.junctions.len() == b.junctions.len(),
            forall|k: int| 0 <= k < i ==> a@[k] == b@[k],
        decreases a.junctions.len() - i,
    {
        if !junctions_equal(&a.junctions[i], &b.junctions[i]) {
            proof {
                assert(a@[i as int] != b@[i as int]);
            }
            return false;
        }
        i = i + 1;
    }
    proof {
        assert(a@ =~= b@);
    }
    true
}

/// A copy of a location.
pub fn copy_location(l: &MultiLocation) -> (r: MultiLocation)
    ensures
        r@ == l@,
{
    let mut junctions: Vec<Junction> = Vec::new();
    let mut i: usize = 0;
    while i < l.junctions.len()
        invariant
            i <= l.junctions.len(),
            junctions@.map_values(|j: Junction| j@) == l@.take(i as int),
        decreases l.junctions.len() - i,
    {
        let j = copy_junction(&l.junctions[i]);
        let ghost before = junctions@;
        junctions.push(j);
        proof {
            assert(junctions@.map_values(|j: Junction| j@) =~= before.map_values(|j: Junction| j@).push(
                l@[i as int],
            ));
            assert(l@.take(i + 1) =~= l@.take(i as int).push(l@[i as int]));
        }
        i = i + 1;
    }
    proof {
        assert(l@.take(l.junctions.len() as int) =~= l@);
    }
    MultiLocation { junctions }
}

/// Whether messages from `origin` have to wait: they come from the sending
/// chain and its outbound lane is overloaded.
pub open spec fn spec_must_yield(origin: Seq<JunctionView>, sender: Seq<JunctionView>, lane: OutboundLaneData) -> bool {
    origin == sender && spec_queued_messages(lane) > MAX_ENQUEUED_MESSAGES_AT_OUTBOUND_LANE
}

/// Messages from a chain have to wait exactly when they come from the
/// sending chain and more than the allowed number of its messages have been
/// generated but not yet received over the bridge.
pub proof fn law_yield_only_when_congested(origin: Seq<JunctionView>, sender: Seq<JunctionView>, lane: OutboundLaneData)
    ensures
        spec_must_yield(origin, sender, lane) <==> (origin == sender && lane.latest_generated_nonce
            - lane.latest_received_nonce > MAX_ENQUEUED_MESSAGES_AT_OUTBOUND_LANE),
{
}

/// Whether messages from `origin` have to wait.
pub fn must_yield(origin: &MultiLocation, sender_and_lane: &SenderAndLane, lane: &OutboundLaneData) -> (r: bool)
    requires
        lane.latest_received_nonce < MessageNonce::MAX,
    ensures
        r == spec_must_yield(origin@, sender_and_lane.location@, *lane),
{
    locations_equal(origin, &sender_and_lane.location) && is_inbound_queue_suspended(lane)
}

/// Errors of message processing.
#[derive(Clone, Copy, Debug, PartialEq, Eq, Structural)]
pub enum ProcessMessageError {
    /// The message data format is unknown.
    BadFormat,
    /// The message data is corrupt.
    Corrupt,
    /// The message format is unsupported.
    Unsupported,
    /// Message processing was not attempted because it was not certain that the weight
    /// limit would be respected.
    Overweight,
    /// The queue wants to give up its current processing slot.
    Yield,
}

/// Processes messages of a queue; implemented by the runtime's inner processor.
pub trait ProcessMessage {
    /// Process the given message, using no more than the remaining weight.
    fn process_message(message: &[u8], origin: &MultiLocation) -> Result<bool, ProcessMessageError>;
}

/// Decides whether a queue is paused; implemented by the runtime's inner query.
pub trait QueuePausedQuery {
    /// Whether the queue of `origin` is paused.
    fn is_paused(origin: &MultiLocation) -> bool;
}

/// Process a message of the local XCM queue: messages from the sending chain
/// yield while its outbound lane is overloaded, without the inner processor
/// being asked; any other message, unchanged, goes to the inner processor,
/// whose answer is returned as it is.
pub fn process_message<Inner: ProcessMessage>(
    message: &[u8],
    origin: &MultiLocation,
    sender_and_lane: &SenderAndLane,
    lane: &OutboundLaneData,
) -> (r: Result<bool, ProcessMessageError>)
    requires
        lane.latest_received_nonce < MessageNonce::MAX,
    ensures
        spec_must_yield(origin@, sender_and_lane.location@, *lane) ==> r == Err::<bool, ProcessMessageError>(
            ProcessMessageError::Yield,
        ),
        !spec_must_yield(origin@, sender_and_lane.location@, *lane) ==> call_ensures(
            Inner::process_message,
            (message, origin),
            r,
        ),
{
    if must_yield(origin, sender_and_lane, lane) {
        return Err(ProcessMessageError::Yield);
    }
    Inner::process_message(message, origin)
}

/// Whether the local XCM queue of `origin` is paused, given whether the inner
/// query pauses it: the inner answer takes priority, then the overload of the
/// sending chain's outbound lane.
pub fn is_paused_given(
    inner_paused: bool,
    origin: &MultiLocation,
    sender_and_lane: &SenderAndLane,
    lane: &OutboundLaneData,
) -> (r: bool)
    requires
        lane.latest_received_nonce < MessageNonce::MAX,
    ensures
        r == (inner_paused || spec_must_yield(origin@, sender_and_lane.location@, *lane)),
{
    if inner_paused {
        return true;
    }
    must_yield(origin, sender_and_lane, lane)
}

/// Whether the local XCM queue of `origin` is paused: first the inner query
/// is asked, then the sending chain's outbound lane is looked at.
pub fn is_paused<Inner: QueuePausedQuery>(
    origin: &MultiLocation,
    sender_and_lane: &SenderAndLane,
    lane: &OutboundLaneData,
) -> (r: bool)
    requires
        lane.latest_received_nonce < MessageNonce::MAX,
    ensures
        exists|inner: bool|
            #![trigger call_ensures(Inner::is_paused, (origin,), inner)]
            call_ensures(Inner::is_paused, (origin,), inner) && r == (inner || spec_must_yield(
                origin@,
                sender_and_lane.location@,
                *lane,
            )),
{
    let inner = Inner::is_paused(origin);
    is_paused_given(inner, origin, sender_and_lane, lane)
}

/// Why a blob could not be dispatched.
#[derive(Clone, Copy, Debug, PartialEq, Eq, Structural)]
pub enum DispatchBlobError {
    Unbridgable,
    InvalidEncoding,
    UnsupportedLocationVersion,
    UnsupportedXcmVersion,
    RoutingError,
    NonUniversalDestination,
    WrongGlobal,
}

/// The result of dispatching a bridged XCM blob.
#[derive(Clone, Copy, Debug, PartialEq, Eq, Structural)]
pub enum XcmBlobMessageDispatchResult {
    InvalidPayload,
    Dispatched,
    NotDispatched(Option<DispatchBlobError>),
}

/// The dispatch result of a bridged message: its payload could not be decoded
/// (`payload_ok` false), or the blob dispatcher's answer.
pub fn dispatch_result(payload_ok: bool, dispatched: Result<(), DispatchBlobError>) -> (r:
    XcmBlobMessageDispatchResult)
    ensures
        !payload_ok ==> r == XcmBlobMessageDispatchResult::InvalidPayload,
        payload_ok ==> r == match dispatched {
            Ok(_) => XcmBlobMessageDispatchResult::Dispatched,
            Err(e) => XcmBlobMessageDispatchResult::NotDispatched(Some(e)),
        },
{
    if !payload_ok {
        return XcmBlobMessageDispatchResult::InvalidPayload;
    }
    match dispatched {
        Ok(_) => XcmBlobMessageDispatchResult::Dispatched,
        Err(e) => XcmBlobMessageDispatchResult::NotDispatched(Some(e)),
    }
}

/// The inbound queues suspended because the bridge queue they feed was
/// overloaded, by the location of their sending chain.
pub struct LocalXcmQueueManager {
    pub suspended: Vec<MultiLocation>,
}

/// Whether `l` is among the locations of `s`.
pub open spec fn holds_location(s: Seq<MultiLocation>, l: Seq<JunctionView>) -> bool {
    exists|i: int| 0 <= i < s.len() && #[trigger] s[i]@ == l
}

impl LocalXcmQueueManager {
    /// No queue suspended.
    pub fn new() -> (r: Self)
        ensures
            r.suspended@.len() == 0,
    {
        LocalXcmQueueManager { suspended: Vec::new() }
    }

    /// Whether the inbound queue with the given location is suspended.
    pub fn is_inbound_queue_suspended(&self, with: &MultiLocation) -> (r: bool)
        ensures
            r == holds_location(self.suspended@, with@),
    {
        let mut i: usize = 0;
        while i < self.suspended.len()
            invariant
                i <= self.suspended.len(),
                forall|k: int| 0 <= k < i ==> #[trigger] self.suspended@[k]@ != with@,
            decreases self.suspended.len() - i,
        {
            if locations_equal(&self.suspended[i], with) {
                return true;
            }
            i = i + 1;
        }
        false
    }

    /// A message was sent over the bridge: if more messages than allowed are
    /// enqueued at the bridge queue, suspend the inbound queue of the sending chain.
    pub fn on_bridge_message_enqueued(&mut self, sending_chain_location: &MultiLocation, enqueued_messages: MessageNonce)
        ensures
            enqueued_messages <= MAX_ENQUEUED_MESSAGES_BEFORE_SUSPENSION ==> final(self).suspended@ == old(
                self,
            ).suspended@,
            enqueued_messages > MAX_ENQUEUED_MESSAGES_BEFORE_SUSPENSION ==> holds_location(
                final(self).suspended@,
                sending_chain_location@,
            ),
            forall|l: Seq<JunctionView>|
                #[trigger] holds_location(old(self).suspended@, l) ==> holds_location(final(self).suspended@, l),
            forall|l: Seq<JunctionView>|
                #[trigger] holds_location(final(self).suspended@, l) ==> holds_location(old(self).suspended@, l)
                    || l == sending_chain_location@,
    {
        if enqueued_messages <= MAX_ENQUEUED_MESSAGES_BEFORE_SUSPENSION {
            return;
        }
        if self.is_inbound_queue_suspended(sending_chain_location) {
            return;
        }
        let ghost before = self.suspended@;
        self.suspended.push(copy_location(sending_chain_location));
        proof {
            assert(self.suspended@[before.len() as int]@ == sending_chain_location@);
            assert forall|l: Seq<JunctionView>| #[trigger] holds_location(before, l) implies holds_location(
                self.suspended@,
                l,
            ) by {
                let i = choose|i: int| 0 <= i < before.len() && #[trigger] before[i]@ == l;
                assert(self.suspended@[i] == before[i]);
            }
            assert forall|l: Seq<JunctionView>| #[trigger] holds_location(self.suspended@, l) implies holds_location(
                before,
                l,
            ) || l == sending_chain_location@ by {
                let i = choose|i: int| 0 <= i < self.suspended@.len() && #[trigger] self.suspended@[i]@ == l;
                if i < before.len() {
                    assert(self.suspended@[i] == before[i]);
                }
            }
        }
    }

    /// Deliveries were confirmed: once no more messages than allowed are
    /// enqueued, resume the inbound queue of the sending chain.
    pub fn on_bridge_messages_delivered(&mut self, sending_chain_location: &MultiLocation, enqueued_messages: MessageNonce)
        ensures
            enqueued_messages > MAX_ENQUEUED_MESSAGES_BEFORE_SUSPENSION ==> final(self).suspended@ == old(
                self,
            ).suspended@,
            enqueued_messages <= MAX_ENQUEUED_MESSAGES_BEFORE_SUSPENSION ==> !holds_location(
                final(self).suspended@,
                sending_chain_location@,
            ),
            forall|l: Seq<JunctionView>|
                #[trigger] holds_location(final(self).suspended@, l) ==> holds_location(old(self).suspended@, l),
            forall|l: Seq<JunctionView>|
                l != sending_chain_location@ ==> #[trigger] holds_location(old(self).suspended@, l)
                    ==> holds_location(final(self).suspended@, l),
    {
        if enqueued_messages > MAX_ENQUEUED_MESSAGES_BEFORE_SUSPENSION {
            return;
        }
        let ghost before = self.suspended@;
        let mut kept: Vec<MultiLocation> = Vec::new();
        let mut i: usize = 0;
        while i < self.suspended.len()
            invariant
                i <= self.suspended.len(),
                self.suspended@ == before,
                forall|k: int| 0 <= k < kept@.len() ==> #[trigger] kept@[k]@ != sending_chain_location@,
                forall|l: Seq<JunctionView>| #[trigger] holds_location(kept@, l) ==> holds_location(before, l),
                forall|k: int|
                    0 <= k < i && #[trigger] before[k]@ != sending_chain_location@ ==> holds_location(
                        kept@,
                        before[k]@,
                    ),
            decreases self.suspended.len() - i,
        {
            if !locations_equal(&self.suspended[i], sending_chain_location) {
                let ghost kept_before = kept@;
                kept.push(copy_location(&self.suspended[i]));
                proof {
                    let n = kept_before.len() as int;
                    assert(kept@[n]@ == before[i as int]@);
                    assert(holds_location(before, before[i as int]@));
                    assert forall|l: Seq<JunctionView>| #[trigger] holds_location(kept@, l) implies holds_location(
                        before,
                        l,
                    ) by {
                        let j = choose|j: int| 0 <= j < kept@.len() && #[trigger] kept@[j]@ == l;
                        if j < n {
                            assert(kept@[j] == kept_before[j]);
                            assert(holds_location(kept_before, l));
                        }
                    }
                    assert forall|k: int|
                        0 <= k < i + 1 && #[trigger] before[k]@ != sending_chain_location@ implies holds_location(
                        kept@,
                        before[k]@,
                    ) by {
                        if k < i {
                            assert(holds_location(kept_before, before[k]@));
                            let j = choose|j: int| 0 <= j < kept_before.len() && #[trigger] kept_before[j]@ == before[k]@;
                            assert(kept@[j] == kept_before[j]);
                        } else {
                            assert(kept@[n]@ == before[k]@);
                        }
                    }
                }
            }
            i = i + 1;
        }
        self.suspended = kept;
        proof {
            assert forall|l: Seq<JunctionView>|
                l != sending_chain_location@ && #[trigger] holds_location(before, l) implies holds_location(
                self.suspended@,
                l,
            ) by {
                let k = choose|k: int| 0 <= k < before.len() && #[trigger] before[k]@ == l;
                assert(before[k]@ != sending_chain_location@);
            }
        }
    }
}

} // verus!
