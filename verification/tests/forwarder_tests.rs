use watcher_server::forwarder::{close_frame, ForwardAction, ForwardEvent, ForwardPhase, Forwarder, MAX_RETRIES};

#[test]
fn sends_and_waits_again() {
    let mut f: Forwarder<&str> = Forwarder::new();
    assert!(f.pending_message().is_none());
    assert!(matches!(f.step(ForwardEvent::Queued("a")), ForwardAction::Send));
    assert_eq!(f.pending_message(), Some(&"a"));
    assert!(matches!(f.step(ForwardEvent::Sent), ForwardAction::ReceiveNext));
    assert!(f.current_phase() == ForwardPhase::Waiting);
    assert!(f.pending_message().is_none());
}

#[test]
fn gives_up_after_five_retries() {
    let mut f: Forwarder<&str> = Forwarder::new();
    f.step(ForwardEvent::Queued("m"));
    for _ in 0..MAX_RETRIES {
        assert!(matches!(f.step(ForwardEvent::SendFailed), ForwardAction::RetryAfter { millis: 100 }));
        assert_eq!(f.pending_message(), Some(&"m"));
    }
    assert!(matches!(f.step(ForwardEvent::SendFailed), ForwardAction::Stop));
    assert!(f.current_phase() == ForwardPhase::Stopped);
    assert!(!f.accepts(&ForwardEvent::Queued("n")));
}

#[test]
fn no_new_message_while_one_is_pending() {
    let mut f: Forwarder<u32> = Forwarder::new();
    f.step(ForwardEvent::Queued(1));
    assert!(!f.accepts(&ForwardEvent::Queued(2)));
    assert!(!f.accepts(&ForwardEvent::QueueClosed));
    f.step(ForwardEvent::Sent);
    assert!(f.accepts(&ForwardEvent::Queued(2)));
    f.step(ForwardEvent::Queued(2));
    assert_eq!(f.pending_message(), Some(&2));
}

#[test]
fn success_resets_retries() {
    let mut f: Forwarder<u8> = Forwarder::new();
    f.step(ForwardEvent::Queued(0));
    for _ in 0..4 {
        f.step(ForwardEvent::SendFailed);
    }
    f.step(ForwardEvent::Sent);
    f.step(ForwardEvent::Queued(1));
    for _ in 0..5 {
        assert!(matches!(f.step(ForwardEvent::SendFailed), ForwardAction::RetryAfter { .. }));
    }
}

#[test]
fn closed_queue_closes_connection() {
    let mut f: Forwarder<u8> = Forwarder::new();
    match f.step(ForwardEvent::QueueClosed) {
        ForwardAction::Close(frame) => {
            assert_eq!(frame.code, 1000);
            assert_eq!(frame.reason, "Buffer was full on server-side, reconnect required");
        }
        _ => panic!("expected a close frame"),
    }
    assert!(f.current_phase() == ForwardPhase::Stopped);
}

#[test]
fn close_frame_is_normal() {
    let f = close_frame("bye");
    assert_eq!(f.code, 1000);
    assert_eq!(f.reason, "bye");
}
