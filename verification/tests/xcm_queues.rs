use integritee_parachain::orml::location::{Junction, MultiLocation};
use integritee_parachain::xcm_queues::{
    dispatch_result, is_inbound_queue_suspended, is_paused, is_paused_given, process_message,
    DispatchBlobError, LocalXcmQueueManager, OutboundLaneData, ProcessMessage, ProcessMessageError,
    QueuePausedQuery, SenderAndLane, XcmBlobMessageDispatchResult, MAX_ENQUEUED_MESSAGES_AT_OUTBOUND_LANE,
};

const TEST_LANE_ID: [u8; 4] = [0, 0, 0, 1];

fn here() -> MultiLocation {
    MultiLocation { junctions: vec![] }
}

fn sibling_1000() -> MultiLocation {
    MultiLocation { junctions: vec![Junction::Parent, Junction::Parachain(1000)] }
}

fn test_sender_and_lane() -> SenderAndLane {
    SenderAndLane::new(here(), TEST_LANE_ID)
}

fn test_origin() -> MultiLocation {
    here()
}

/// The outbound lane the blob hauler sends to: every hauled blob is a new
/// message that the bridged chain has not received yet.
struct TestLane {
    data: OutboundLaneData,
}

impl TestLane {
    fn new() -> Self {
        TestLane { data: OutboundLaneData { oldest_unpruned_nonce: 1, latest_received_nonce: 0, latest_generated_nonce: 0 } }
    }

    fn haul_blob(&mut self, _blob: Vec<u8>) -> Result<(), ()> {
        self.data.latest_generated_nonce += 1;
        Ok(())
    }
}

struct TestInnerXcmQueueMessageProcessor;
impl ProcessMessage for TestInnerXcmQueueMessageProcessor {
    fn process_message(_message: &[u8], _origin: &MultiLocation) -> Result<bool, ProcessMessageError> {
        Ok(true)
    }
}

struct NotSuspended;
impl QueuePausedQuery for NotSuspended {
    fn is_paused(_: &MultiLocation) -> bool {
        false
    }
}

struct Suspended;
impl QueuePausedQuery for Suspended {
    fn is_paused(_: &MultiLocation) -> bool {
        true
    }
}

#[test]
fn inbound_xcm_queue_with_sending_chain_is_managed_by_blob_hauler() {
    let mut lane = TestLane::new();
    for _ in 0..MAX_ENQUEUED_MESSAGES_AT_OUTBOUND_LANE {
        lane.haul_blob(vec![42]).unwrap();
        assert!(!is_inbound_queue_suspended(&lane.data));
    }
    lane.haul_blob(vec![42]).unwrap();
    assert!(is_inbound_queue_suspended(&lane.data));
}

#[test]
fn inbound_xcm_message_from_sibling_is_not_processed_when_bridge_queue_is_congested() {
    let mut lane = TestLane::new();
    for _ in 0..MAX_ENQUEUED_MESSAGES_AT_OUTBOUND_LANE + 1 {
        lane.haul_blob(vec![42]).unwrap();
    }
    assert_eq!(
        process_message::<TestInnerXcmQueueMessageProcessor>(&[42], &test_origin(), &test_sender_and_lane(), &lane.data),
        Err(ProcessMessageError::Yield),
    );
}

#[test]
fn inbound_xcm_message_from_other_origin_is_processed_normally() {
    let mut lane = TestLane::new();
    for _ in 0..MAX_ENQUEUED_MESSAGES_AT_OUTBOUND_LANE + 1 {
        lane.haul_blob(vec![42]).unwrap();
    }
    assert_eq!(
        process_message::<TestInnerXcmQueueMessageProcessor>(&[42], &sibling_1000(), &test_sender_and_lane(), &lane.data),
        Ok(true),
    );
}

#[test]
fn inbound_xcm_message_from_sibling_is_processed_normally() {
    let lane = TestLane::new();
    assert_eq!(
        process_message::<TestInnerXcmQueueMessageProcessor>(&[42], &test_origin(), &test_sender_and_lane(), &lane.data),
        Ok(true),
    );
}

#[test]
fn local_xcm_queue_is_paused_when_inner_suspender_returns_paused() {
    let lane = TestLane::new();
    assert!(is_paused::<Suspended>(&test_origin(), &test_sender_and_lane(), &lane.data));
}

#[test]
fn local_xcm_queue_is_paused_when_bridge_queue_is_congested() {
    let mut lane = TestLane::new();
    for _ in 0..MAX_ENQUEUED_MESSAGES_AT_OUTBOUND_LANE + 1 {
        lane.haul_blob(vec![42]).unwrap();
    }
    assert!(is_paused::<NotSuspended>(&test_origin(), &test_sender_and_lane(), &lane.data));
}

#[test]
fn local_xcm_queue_with_other_origin_is_not_paused() {
    let lane = TestLane::new();
    assert!(!is_paused::<NotSuspended>(&sibling_1000(), &test_sender_and_lane(), &lane.data));
}

#[test]
fn local_xcm_queue_is_not_paused_normally() {
    let lane = TestLane::new();
    assert!(!is_paused::<NotSuspended>(&test_origin(), &test_sender_and_lane(), &lane.data));
}

#[test]
fn received_messages_leave_the_queue() {
    let data = OutboundLaneData { oldest_unpruned_nonce: 1, latest_received_nonce: 10, latest_generated_nonce: 4107 };
    assert_eq!(data.queued_messages_len(), 4097);
    assert!(is_inbound_queue_suspended(&data));
    let data = OutboundLaneData { latest_received_nonce: 11, ..data };
    assert_eq!(data.queued_messages_len(), 4096);
    assert!(!is_inbound_queue_suspended(&data));
    let data = OutboundLaneData { latest_received_nonce: 5000, ..data };
    assert_eq!(data.queued_messages_len(), 0);
    assert!(is_paused_given(true, &sibling_1000(), &test_sender_and_lane(), &data));
}

#[test]
fn dispatch_reports_payload_and_dispatcher_outcome() {
    assert_eq!(dispatch_result(false, Ok(())), XcmBlobMessageDispatchResult::InvalidPayload);
    assert_eq!(dispatch_result(true, Ok(())), XcmBlobMessageDispatchResult::Dispatched);
    assert_eq!(
        dispatch_result(true, Err(DispatchBlobError::RoutingError)),
        XcmBlobMessageDispatchResult::NotDispatched(Some(DispatchBlobError::RoutingError))
    );
}

#[test]
fn queue_manager_suspends_and_resumes_the_sending_chain() {
    let mut m = LocalXcmQueueManager::new();
    let sibling = sibling_1000();
    m.on_bridge_message_enqueued(&sibling, 300);
    assert!(!m.is_inbound_queue_suspended(&sibling));
    m.on_bridge_message_enqueued(&sibling, 301);
    assert!(m.is_inbound_queue_suspended(&sibling));
    assert!(!m.is_inbound_queue_suspended(&here()));
    m.on_bridge_message_enqueued(&sibling, 400);
    assert_eq!(m.suspended.len(), 1);
    m.on_bridge_messages_delivered(&sibling, 301);
    assert!(m.is_inbound_queue_suspended(&sibling));
    m.on_bridge_messages_delivered(&sibling, 300);
    assert!(!m.is_inbound_queue_suspended(&sibling));
}
