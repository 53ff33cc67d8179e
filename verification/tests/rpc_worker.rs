use integritee_parachain::rpc_worker::{
    retain_listeners, rotation_order, ClientManager, HeaderStream, HeaderWorker, Notification, SendOutcome,
    WorkerAction, WorkerKind, WorkerMessage,
};

use SendOutcome::{Delivered, Disconnected, Full};

#[test]
fn disconnected_listeners_are_dropped_in_order() {
    let kept = retain_listeners(WorkerKind::Pooled, vec!["a", "b", "c", "d"], &vec![Delivered, Disconnected, Full, Delivered]);
    assert_eq!(kept, vec!["a", "c", "d"]);
}

#[test]
fn direct_worker_drops_full_listeners_too() {
    let kept = retain_listeners(WorkerKind::Direct, vec!["a", "b", "c"], &vec![Full, Delivered, Disconnected]);
    assert_eq!(kept, vec!["b"]);
    let none: Vec<&str> = retain_listeners(WorkerKind::LightClient, vec![], &vec![]);
    assert!(none.is_empty());
}

#[test]
fn rotation_wraps_around() {
    assert_eq!(rotation_order(4, 2), vec![2, 3, 0, 1]);
    assert_eq!(rotation_order(3, 0), vec![0, 1, 2]);
    assert_eq!(rotation_order(3, 3), vec![0, 1, 2]);
    assert_eq!(rotation_order(3, 7), vec![1, 2, 0]);
    assert!(rotation_order(0, 5).is_empty());
    assert_eq!(rotation_order(2, usize::MAX), vec![1, 0]);
}

#[test]
fn client_manager_tries_the_next_server_first() {
    assert!(ClientManager::initial_order(0).is_none());
    assert_eq!(ClientManager::initial_order(3).unwrap(), vec![0, 1, 2]);
    let mut m = ClientManager::connected(3, 1);
    assert_eq!(m.reconnect_order(), vec![2, 0, 1]);
    m.switch_to(2);
    assert_eq!(m.reconnect_order(), vec![0, 1, 2]);
}

#[test]
fn registration_goes_to_the_right_stream() {
    let mut w: HeaderWorker<u32> = HeaderWorker::new(WorkerKind::LightClient);
    assert!(matches!(w.on_message::<()>(WorkerMessage::Register(HeaderStream::Best, 1)), WorkerAction::Continue));
    assert!(matches!(w.on_message::<()>(WorkerMessage::Register(HeaderStream::Finalized, 2)), WorkerAction::Continue));
    assert!(matches!(w.on_message::<()>(WorkerMessage::Register(HeaderStream::Best, 3)), WorkerAction::Continue));
    assert_eq!(w.best_header_listeners, vec![1, 3]);
    assert_eq!(w.finalized_header_listeners, vec![2]);
    assert!(w.imported_header_listeners.is_empty());
}

#[test]
fn requests_are_dispatched_and_retried_by_the_pool() {
    let mut w: HeaderWorker<u32> = HeaderWorker::new(WorkerKind::Pooled);
    match w.on_message(WorkerMessage::Request("chain_getHeader")) {
        WorkerAction::Dispatch(m) => assert_eq!(m, "chain_getHeader"),
        _ => panic!("expected a dispatch"),
    }
    assert!(matches!(w.on_request_done::<&str>(None), WorkerAction::Continue));
    assert!(!w.reset_streams);
    match w.on_request_done(Some("chain_getHeader")) {
        WorkerAction::Resend(m) => assert_eq!(m, "chain_getHeader"),
        _ => panic!("expected a resend"),
    }
    assert!(w.take_reset());
    assert!(!w.take_reset());
}

#[test]
fn closed_channel_stops_all_but_the_direct_worker() {
    let mut d: HeaderWorker<u32> = HeaderWorker::new(WorkerKind::Direct);
    assert!(matches!(d.on_message::<()>(WorkerMessage::Closed), WorkerAction::Continue));
    let mut p: HeaderWorker<u32> = HeaderWorker::new(WorkerKind::Pooled);
    assert!(matches!(p.on_message::<()>(WorkerMessage::Closed), WorkerAction::Stop));
    let mut l: HeaderWorker<u32> = HeaderWorker::new(WorkerKind::LightClient);
    assert!(matches!(l.on_message::<()>(WorkerMessage::Closed), WorkerAction::Stop));
}

#[test]
fn headers_go_to_the_listeners_that_stay() {
    let mut w: HeaderWorker<u32> = HeaderWorker::new(WorkerKind::Pooled);
    for l in [1, 2, 3] {
        w.on_message::<()>(WorkerMessage::Register(HeaderStream::Imported, l));
    }
    w.on_message::<()>(WorkerMessage::Register(HeaderStream::Best, 9));
    let a = w.on_notification::<()>(HeaderStream::Imported, Notification::Header, &vec![Delivered, Disconnected, Full]);
    assert!(matches!(a, WorkerAction::Continue));
    assert_eq!(w.imported_header_listeners, vec![1, 3]);
    assert_eq!(w.best_header_listeners, vec![9]);
    assert!(!w.reset_streams);
}

#[test]
fn failed_subscriptions_reset_the_pool_and_stop_the_others() {
    let mut p: HeaderWorker<u32> = HeaderWorker::new(WorkerKind::Pooled);
    p.on_message::<()>(WorkerMessage::Register(HeaderStream::Finalized, 4));
    assert!(matches!(p.on_notification::<()>(HeaderStream::Finalized, Notification::Closed, &vec![]), WorkerAction::Continue));
    assert!(p.reset_streams);
    assert_eq!(p.finalized_header_listeners, vec![4]);

    let mut d: HeaderWorker<u32> = HeaderWorker::new(WorkerKind::Direct);
    assert!(matches!(d.on_notification::<()>(HeaderStream::Best, Notification::Failed, &vec![]), WorkerAction::Stop));
    assert!(!d.reset_streams);
    let mut l: HeaderWorker<u32> = HeaderWorker::new(WorkerKind::LightClient);
    assert!(matches!(l.on_notification::<()>(HeaderStream::Imported, Notification::Closed, &vec![]), WorkerAction::Stop));
}
