use integritee_parachain::light_client_platform::{
    dial_target, ConnectError, DialAddress, Protocol, ReadState, StreamBuffers,
};

#[test]
fn ip_and_tcp_are_dialled_directly() {
    let t = dial_target(Some(vec![Protocol::Ip4([127, 0, 0, 1]), Protocol::Tcp(30333)])).unwrap();
    assert!(matches!(t.address, DialAddress::Ip4([127, 0, 0, 1], 30333)));
    assert!(!t.websocket);
    let t = dial_target(Some(vec![Protocol::Ip6([0, 0, 0, 0, 0, 0, 0, 1]), Protocol::Tcp(9944), Protocol::Ws])).unwrap();
    assert!(matches!(t.address, DialAddress::Ip6([0, 0, 0, 0, 0, 0, 0, 1], 9944)));
    assert!(t.websocket);
}

#[test]
fn domain_names_are_resolved() {
    let t = dial_target(Some(vec![Protocol::Dns4("rpc.example.org".to_string()), Protocol::Tcp(443), Protocol::Ws]))
        .unwrap();
    match t.address {
        DialAddress::Dns(name, port) => {
            assert_eq!(name, "rpc.example.org");
            assert_eq!(port, 443);
        },
        _ => panic!("expected a domain name"),
    }
    assert!(t.websocket);
}

#[test]
fn other_combinations_are_refused() {
    assert_eq!(dial_target(None).err(), Some(ConnectError::BadAddress));
    let unknown = Some(ConnectError::UnknownProtocols);
    assert_eq!(dial_target(Some(vec![Protocol::Ip4([1, 2, 3, 4])])).err(), unknown);
    assert_eq!(dial_target(Some(vec![Protocol::Tcp(1), Protocol::Tcp(2)])).err(), unknown);
    assert_eq!(dial_target(Some(vec![Protocol::Ip4([1, 2, 3, 4]), Protocol::Ws])).err(), unknown);
    assert_eq!(dial_target(Some(vec![Protocol::Ip4([1, 2, 3, 4]), Protocol::Tcp(1), Protocol::Other])).err(), unknown);
    assert_eq!(
        dial_target(Some(vec![Protocol::Ip4([1, 2, 3, 4]), Protocol::Tcp(1), Protocol::Ws, Protocol::Ws])).err(),
        unknown
    );
    assert!(ConnectError::UnknownProtocols.is_bad_addr());
    assert!(!ConnectError::Unreachable.is_bad_addr());
    assert_eq!(ConnectError::UnknownProtocols.message(), "Unknown protocols combination");
}

#[test]
fn reads_join_the_buffer_and_consumption_advances_it() {
    let mut s = StreamBuffers::new();
    assert!(!s.has_data_or_reset());
    assert_eq!(s.read(vec![vec![1, 2], vec![], vec![3]], false), ReadState::Open);
    assert_eq!(s.read_buffer, Some(vec![1, 2, 3]));
    assert!(s.has_data_or_reset());
    s.advance_read_cursor(2);
    assert_eq!(s.read_buffer, Some(vec![3]));
    assert_eq!(s.read(vec![vec![4]], true), ReadState::Reset);
    assert!(s.read_buffer.is_none());
    assert!(s.has_data_or_reset());
    assert_eq!(s.read(vec![vec![5]], false), ReadState::Reset);
    s.advance_read_cursor(7);
    assert!(s.read_buffer.is_none());
}

#[test]
fn writes_leave_in_order() {
    let mut s = StreamBuffers::new();
    s.send(&vec![1, 2, 3]);
    s.send(&vec![4]);
    assert_eq!(s.write_queue, vec![1, 2, 3, 4]);
    s.written(3);
    assert_eq!(s.write_queue, vec![4]);
    s.written(1);
    assert!(s.write_queue.is_empty());
}
