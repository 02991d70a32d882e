use zed_core::listener::{IoEvent, ListenerAction, PipeListener, PipeState};
use zed_core::message::{
    decode_buffer, fill_buffer, message_text, receive_message, MessageError, MAX_PAYLOAD_LEN,
    MESSAGE_BUFFER_SIZE,
};

#[test]
fn round_trip_small_message() {
    let payload = b"zed-cli://abc123".to_vec();
    let received = receive_message(&payload).unwrap();
    assert_eq!(received, payload);
    assert_eq!(message_text(&received).as_str(), "zed-cli://abc123");
}

#[test]
fn round_trip_at_limit() {
    let payload = vec![b'a'; MAX_PAYLOAD_LEN];
    let received = receive_message(&payload).unwrap();
    assert_eq!(received, payload);
}

#[test]
fn oversized_message_rejected() {
    let payload = vec![b'a'; MAX_PAYLOAD_LEN + 1];
    assert_eq!(receive_message(&payload), Err(MessageError::TooLong));
    let bigger = vec![b'a'; 500];
    assert_eq!(receive_message(&bigger), Err(MessageError::TooLong));
}

#[test]
fn message_truncated_at_terminator() {
    let payload = b"abc\0def".to_vec();
    let received = receive_message(&payload).unwrap();
    assert_eq!(received, b"abc".to_vec());
}

#[test]
fn buffer_without_terminator_rejected() {
    let buffer = vec![b'x'; MESSAGE_BUFFER_SIZE];
    assert_eq!(decode_buffer(&buffer), Err(MessageError::MissingTerminator));
}

#[test]
fn filled_buffer_keeps_payload_and_pads() {
    let payload = b"hello".to_vec();
    let buffer = fill_buffer(&payload).unwrap();
    assert_eq!(buffer.len(), MESSAGE_BUFFER_SIZE);
    assert_eq!(&buffer[..5], b"hello");
    assert!(buffer[5..].iter().all(|&b| b == 0));
}

#[test]
fn listener_delivers_one_message() {
    let mut listener = PipeListener::new();
    let connect = listener.on_event(IoEvent::ConnectCompleted);
    assert!(matches!(connect, ListenerAction::IssueRead));
    let read = listener.on_event(IoEvent::ReadCompleted(b"zed-cli://abc123".to_vec()));
    match read {
        ListenerAction::Deliver(message) => {
            assert_eq!(message, b"zed-cli://abc123".to_vec())
        },
        _ => panic!("expected a delivery"),
    }
}

#[test]
fn listener_recovers_after_disconnect() {
    let mut listener = PipeListener::new();
    assert!(matches!(listener.on_event(IoEvent::ConnectCompleted), ListenerAction::IssueRead));
    // The client goes away mid-read; the pipe must be re-armed.
    assert!(matches!(listener.on_event(IoEvent::ReadFailed), ListenerAction::Rearm));
    // An unrelated client connects next and is served normally.
    assert!(matches!(listener.on_event(IoEvent::ConnectCompleted), ListenerAction::IssueRead));
    match listener.on_event(IoEvent::ReadCompleted(b"second".to_vec())) {
        ListenerAction::Deliver(message) => assert_eq!(message, b"second".to_vec()),
        _ => panic!("expected a delivery"),
    }
}

#[test]
fn listener_pending_operations_wait() {
    let mut listener = PipeListener::new();
    assert!(matches!(listener.on_event(IoEvent::OperationPending), ListenerAction::Wait));
    assert!(matches!(listener.on_event(IoEvent::ConnectCompleted), ListenerAction::IssueRead));
    assert!(matches!(listener.on_event(IoEvent::OperationPending), ListenerAction::Wait));
}

#[test]
fn oversized_message_does_not_corrupt_next() {
    let mut listener = PipeListener::new();
    let events = vec![
        IoEvent::ConnectCompleted,
        IoEvent::ReadCompleted(vec![b'x'; 300]),
        IoEvent::ConnectCompleted,
        IoEvent::ReadCompleted(b"clean".to_vec()),
    ];
    let delivered = listener.run_events(events);
    assert_eq!(delivered, vec![b"clean".to_vec()]);
}

#[test]
fn ten_simultaneous_clients_all_delivered() {
    let mut listener = PipeListener::new();
    let mut events = Vec::new();
    let mut expected = Vec::new();
    for i in 0..10 {
        let message = format!("zed-cli://client-{}", i).into_bytes();
        events.push(IoEvent::ConnectCompleted);
        events.push(IoEvent::ReadCompleted(message.clone()));
        expected.push(message);
    }
    let delivered = listener.run_events(events);
    assert_eq!(delivered, expected);
}

#[test]
fn listener_starts_connecting() {
    let listener = PipeListener::new();
    let _ = listener;
    // The state machine's states exist and are distinct.
    assert_ne!(PipeState::Connecting, PipeState::Reading);
}
