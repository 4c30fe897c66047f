use chat::codec::{decode, DecodeResult};
use chat::hub::{Hub, RecvOutcome};
use chat::session::{
    receive_step, send_step, RecvPathAction, SendAction, SessionIdAllocator,
};
use chat::{Message, MessageError, MessageType};

#[test]
fn test_publish_without_subscribers_is_dropped() {
    let mut hub = Hub::new(8);
    let accepted = hub.publish(1, Message::from("a", MessageType::text("x")));
    assert!(!accepted);
    assert_eq!(hub.published_total(), 0);
}

#[test]
fn test_subscriber_sees_no_replay() {
    let mut hub = Hub::new(8);
    let s1 = hub.subscribe();
    hub.publish(1, Message::from("a", MessageType::text("before")));
    let s2 = hub.subscribe();
    assert!(matches!(hub.try_recv(s2), RecvOutcome::Empty));
    match hub.try_recv(s1) {
        RecvOutcome::Entry(e) => assert_eq!(e.publisher, 1),
        _ => panic!("expected the published entry"),
    }
}

#[test]
fn test_entries_arrive_in_publication_order_exactly_once() {
    let mut hub = Hub::new(8);
    let s = hub.subscribe();
    hub.publish(1, Message::from("a", MessageType::text("first")));
    hub.publish(2, Message::from("b", MessageType::text("second")));
    match hub.try_recv(s) {
        RecvOutcome::Entry(e) => {
            assert_eq!(e.publisher, 1);
            assert_eq!(e.message, Message::from("a", MessageType::text("first")));
        }
        _ => panic!("expected first entry"),
    }
    match hub.try_recv(s) {
        RecvOutcome::Entry(e) => assert_eq!(e.publisher, 2),
        _ => panic!("expected second entry"),
    }
    assert!(matches!(hub.try_recv(s), RecvOutcome::Empty));
}

#[test]
fn test_lag_is_observed_and_contained() {
    let mut hub = Hub::new(2);
    let slow = hub.subscribe();
    for i in 0..5u64 {
        hub.publish(i, Message::from("a", MessageType::text("m")));
    }
    match hub.try_recv(slow) {
        RecvOutcome::Lagged(missed) => assert_eq!(missed, 3),
        _ => panic!("expected a lag report"),
    }
    // The subscriber resumes at the oldest retained entry.
    match hub.try_recv(slow) {
        RecvOutcome::Entry(e) => assert_eq!(e.publisher, 3),
        _ => panic!("expected the oldest retained entry"),
    }
    match hub.try_recv(slow) {
        RecvOutcome::Entry(e) => assert_eq!(e.publisher, 4),
        _ => panic!("expected the newest entry"),
    }
    assert!(matches!(hub.try_recv(slow), RecvOutcome::Empty));
}

#[test]
fn test_closed_hub_drains_then_reports_closed() {
    let mut hub = Hub::new(4);
    let s = hub.subscribe();
    hub.publish(1, Message::from("a", MessageType::text("last")));
    hub.close();
    assert!(hub.is_closed());
    assert!(!hub.publish(1, Message::from("a", MessageType::text("dropped"))));
    assert!(matches!(hub.try_recv(s), RecvOutcome::Entry(_)));
    assert!(matches!(hub.try_recv(s), RecvOutcome::Closed));
}

#[test]
fn test_fanout_under_disconnect() {
    // Session B disconnecting mid-stream affects neither A's publish path
    // nor the remaining subscriber's send path.
    let mut hub = Hub::new(8);
    let a = hub.subscribe();
    let b = hub.subscribe();
    let c = hub.subscribe();
    hub.unsubscribe(b);
    let accepted = hub.publish(1, Message::from("a", MessageType::text("after")));
    assert!(accepted);
    match hub.try_recv(c) {
        RecvOutcome::Entry(e) => assert_eq!(e.publisher, 1),
        _ => panic!("expected delivery to the remaining subscriber"),
    }
    match hub.try_recv(a) {
        RecvOutcome::Entry(e) => assert_eq!(e.publisher, 1),
        _ => panic!("expected delivery to the publisher's own slot"),
    }
}

#[test]
fn test_send_step_skips_own_echo() {
    let mut hub = Hub::new(8);
    let s1 = hub.subscribe();
    let s2 = hub.subscribe();
    let msg = Message::from("alice", MessageType::text("hi"));
    hub.publish(10, msg.clone());
    let o1 = hub.try_recv(s1);
    let o2 = hub.try_recv(s2);
    assert!(matches!(send_step(10, o1), SendAction::Skip));
    match send_step(20, o2) {
        SendAction::Forward(m) => assert_eq!(m, msg),
        _ => panic!("expected the other session to forward"),
    }
}

#[test]
fn test_send_step_other_outcomes() {
    assert!(matches!(send_step(1, RecvOutcome::Empty), SendAction::Wait));
    assert!(matches!(
        send_step(1, RecvOutcome::Lagged(7)),
        SendAction::LagNoted(7)
    ));
    assert!(matches!(send_step(1, RecvOutcome::Closed), SendAction::Stop));
}

#[test]
fn test_receive_step_actions() {
    let msg = Message::from("alice", MessageType::text("hi"));
    let frame = msg.encode().unwrap();
    match receive_step(decode(&frame, false)) {
        RecvPathAction::Publish(m) => assert_eq!(m, msg),
        _ => panic!("expected a publish action"),
    }
    assert!(matches!(
        receive_step(DecodeResult::NeedMore),
        RecvPathAction::KeepReading
    ));
    assert!(matches!(
        receive_step(DecodeResult::Failed(MessageError::GracefulDisconnect)),
        RecvPathAction::StopGraceful
    ));
    assert!(matches!(
        receive_step(DecodeResult::Failed(MessageError::TransportError)),
        RecvPathAction::StopError(MessageError::TransportError)
    ));
    assert!(matches!(
        receive_step(DecodeResult::Failed(MessageError::ProtocolError)),
        RecvPathAction::StopError(MessageError::ProtocolError)
    ));
}

#[test]
fn test_session_id_allocator_unique() {
    let mut ids = SessionIdAllocator::new();
    assert!(!ids.is_exhausted());
    let a = ids.allocate();
    let b = ids.allocate();
    let c = ids.allocate();
    assert_ne!(a, b);
    assert_ne!(b, c);
    assert_ne!(a, c);
}

/// Delivers to `slot` whatever is pending, frames it as `own` would see
/// it on the wire, and returns the decoded messages it forwarded.
fn drain_session(hub: &mut Hub, slot: usize, own: u64) -> Vec<Message> {
    let mut delivered = Vec::new();
    loop {
        let outcome = hub.try_recv(slot);
        match send_step(own, outcome) {
            SendAction::Forward(m) => {
                // The send path encodes, the peer decodes: run the wire.
                let frame = m.encode().unwrap();
                match decode(&frame, false) {
                    DecodeResult::Frame { message, .. } => delivered.push(message),
                    _ => panic!("a forwarded frame must decode"),
                }
            }
            SendAction::Skip => continue,
            SendAction::Wait | SendAction::Stop => return delivered,
            SendAction::LagNoted(_) => continue,
        }
    }
}

#[test]
fn test_three_sessions_scenario() {
    // Three sessions connect in order; S1 sends Text("hi"); S2 and S3 each
    // receive it and S1 receives nothing. S2 then sends a file; S1 and S3
    // receive it verbatim, S2 does not.
    let mut hub = Hub::new(1024);
    let mut ids = SessionIdAllocator::new();
    let (id1, slot1) = (ids.allocate(), hub.subscribe());
    let (id2, slot2) = (ids.allocate(), hub.subscribe());
    let (id3, slot3) = (ids.allocate(), hub.subscribe());

    // S1's receive path decodes one frame from its socket and publishes.
    let m1 = Message::from("s1", MessageType::text("hi"));
    let frame1 = m1.encode().unwrap();
    match receive_step(decode(&frame1, false)) {
        RecvPathAction::Publish(m) => assert!(hub.publish(id1, m)),
        _ => panic!("expected a publish action"),
    }

    let got1 = drain_session(&mut hub, slot1, id1);
    let got2 = drain_session(&mut hub, slot2, id2);
    let got3 = drain_session(&mut hub, slot3, id3);
    assert_eq!(got1, Vec::<Message>::new());
    assert_eq!(got2, vec![m1.clone()]);
    assert_eq!(got3, vec![m1.clone()]);

    // S2 sends a file message.
    let m2 = Message::from("s2", MessageType::file("a.txt", &[1, 2, 3]));
    let frame2 = m2.encode().unwrap();
    match receive_step(decode(&frame2, false)) {
        RecvPathAction::Publish(m) => assert!(hub.publish(id2, m)),
        _ => panic!("expected a publish action"),
    }

    let got1 = drain_session(&mut hub, slot1, id1);
    let got2 = drain_session(&mut hub, slot2, id2);
    let got3 = drain_session(&mut hub, slot3, id3);
    assert_eq!(got1, vec![m2.clone()]);
    assert_eq!(got2, Vec::<Message>::new());
    assert_eq!(got3, vec![m2.clone()]);
}
