use std::collections::BTreeMap;

use integritee_parachain::message_broker::{
    create_inherent, Call, DownwardMessageHandler, HrmpMessageHandler, InboundDownwardMessage, InboundHrmpMessage, MessageBroker,
    MessageIngestion, RuntimeDbWeight, SendUpErr,
};
use integritee_parachain::origin::Origin;

#[derive(Default)]
struct Recorder {
    dmp: Vec<Vec<u8>>,
    hrmp: Vec<(u32, Vec<u8>)>,
}

impl DownwardMessageHandler for Recorder {
    fn handle_downward_message(&mut self, msg: InboundDownwardMessage) {
        self.dmp.push(msg.msg);
    }
}

impl HrmpMessageHandler for Recorder {
    fn handle_hrmp_message(&mut self, sender: u32, msg: InboundHrmpMessage) {
        self.hrmp.push((sender, msg.data));
    }
}

fn hrmp(sent_at: u32, data: u8) -> InboundHrmpMessage {
    InboundHrmpMessage { sent_at, data: vec![data] }
}

#[test]
fn ingestion_hands_out_messages_and_records_the_watermark() {
    let mut b = MessageBroker::new();
    let mut d = Recorder::default();
    let mut h = Recorder::default();
    let messages = MessageIngestion {
        dmp: vec![
            InboundDownwardMessage { sent_at: 1, msg: vec![1] },
            InboundDownwardMessage { sent_at: 2, msg: vec![2] },
        ],
        hrmp: BTreeMap::from([(300, vec![]), (200, vec![hrmp(7, 20)]), (100, vec![hrmp(3, 10), hrmp(4, 11)])]),
    };
    assert!(b.ingest_inbound_messages(Origin::Unsigned, messages, &mut d, &mut h).is_ok());
    assert_eq!(d.dmp, vec![vec![1], vec![2]]);
    assert_eq!(h.hrmp, vec![(100, vec![10]), (100, vec![11]), (200, vec![20])]);
    assert_eq!(b.processed_downward_messages, Some(2));
    assert_eq!(b.hrmp_watermark, Some(7));
}

#[test]
fn no_horizontal_message_keeps_the_watermark() {
    let mut b = MessageBroker::new();
    b.hrmp_watermark = Some(9);
    let mut d = Recorder::default();
    let mut h = Recorder::default();
    let messages = MessageIngestion { dmp: vec![], hrmp: BTreeMap::from([(1, vec![])]) };
    assert!(b.ingest_inbound_messages(Origin::Unsigned, messages, &mut d, &mut h).is_ok());
    assert_eq!(b.processed_downward_messages, Some(0));
    assert_eq!(b.hrmp_watermark, Some(9));
}

#[test]
fn only_unsigned_calls_ingest() {
    let mut b = MessageBroker::new();
    let mut d = Recorder::default();
    let mut h = Recorder::default();
    let messages = MessageIngestion { dmp: vec![InboundDownwardMessage { sent_at: 1, msg: vec![1] }], hrmp: BTreeMap::new() };
    assert!(b.ingest_inbound_messages(Origin::Signed(1), messages, &mut d, &mut h).is_err());
    assert!(d.dmp.is_empty());
    assert!(b.processed_downward_messages.is_none());
}

#[test]
fn initialization_clears_the_watermark() {
    let mut b = MessageBroker::new();
    b.hrmp_watermark = Some(3);
    assert_eq!(b.on_initialize(RuntimeDbWeight { read: 25, write: 100 }), 325);
    assert!(b.hrmp_watermark.is_none());
}

#[test]
fn blocks_carry_at_most_five_upward_messages_in_order() {
    let mut b = MessageBroker::new();
    for i in 0..7u8 {
        assert_eq!(b.send_upward_message(vec![i]), Ok::<(), SendUpErr>(()));
    }
    b.on_finalize();
    assert_eq!(b.upward_messages, Some(vec![vec![0], vec![1], vec![2], vec![3], vec![4]]));
    assert_eq!(b.pending_upward_messages, vec![vec![5], vec![6]]);
    b.on_finalize();
    assert_eq!(b.upward_messages, Some(vec![vec![5], vec![6]]));
    assert!(b.pending_upward_messages.is_empty());
    b.on_finalize();
    assert_eq!(b.upward_messages, Some(vec![]));
}

#[test]
fn the_inherent_carries_the_ingestion_data() {
    assert!(create_inherent(None).is_none());
    let data = MessageIngestion { dmp: vec![InboundDownwardMessage { sent_at: 4, msg: vec![9] }], hrmp: BTreeMap::new() };
    match create_inherent(Some(data)) {
        Some(Call::IngestInboundMessages(m)) => {
            assert_eq!(m.dmp.len(), 1);
            assert_eq!(m.dmp[0].sent_at, 4);
        },
        None => panic!("expected the inherent"),
    }
}
