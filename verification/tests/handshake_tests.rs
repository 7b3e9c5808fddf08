use watcher_server::message::{ClientType, Frame, Subscription, WsMessage};
use std::time::Duration;
use watcher_server::subscription::{Handshake, HandshakeAction, HandshakeEvent, Timeout};

fn secs(n: u64) -> Timeout {
    Timeout { secs: n, nanos: 0 }
}

fn error(a: HandshakeAction<String>) -> String {
    match a {
        HandshakeAction::Finish(Err(e)) => e,
        _ => panic!("expected an error"),
    }
}

fn node() -> Subscription<String> {
    Subscription::Node { api_key: "k".to_string(), exchange: "binance".to_string(), public_ip: "1.1.1.1".to_string() }
}

#[test]
fn timeout_error_names_peer_and_time() {
    let mut h = Handshake::new("10.0.0.1:4000".to_string(), secs(5));
    assert_eq!(error(h.step(HandshakeEvent::TimedOut)), "did not receive subscription from 10.0.0.1:4000 within 5s");
}

#[test]
fn early_failures() {
    let mut h = Handshake::new("p".to_string(), secs(5));
    assert_eq!(error(h.step(HandshakeEvent::StreamEnded)), "");
    let mut h = Handshake::new("p".to_string(), secs(5));
    assert_eq!(error(h.step(HandshakeEvent::StreamFailed)), "client p abruptly disconnected");
    let mut h = Handshake::new("p".to_string(), secs(5));
    assert_eq!(error(h.step(HandshakeEvent::Received(Frame::Binary(vec![0])))), "client p sent a message other than text");
}

#[test]
fn invalid_subscription() {
    let mut h = Handshake::new("p".to_string(), secs(5));
    h.step(HandshakeEvent::Received(Frame::Text("{}".to_string())));
    assert_eq!(error(h.step(HandshakeEvent::Invalid("missing field".to_string()))), "client p sent an invalid subscription message: missing field");
}

#[test]
fn node_subscription_is_confirmed() {
    let mut h = Handshake::new("p".to_string(), secs(5));
    match h.step(HandshakeEvent::Received(Frame::Text("{...}".to_string()))) {
        HandshakeAction::Parse(t) => assert_eq!(t, "{...}"),
        _ => panic!("expected parse"),
    }
    match h.step(HandshakeEvent::Parsed(node())) {
        HandshakeAction::SendResponse(WsMessage::Subscription { status, client_type }) => {
            assert_eq!(status, "connected");
            assert!(client_type == ClientType::Node);
        }
        _ => panic!("expected confirmation"),
    }
    match h.step(HandshakeEvent::ResponseSent) {
        HandshakeAction::Finish(Ok(Subscription::Node { exchange, .. })) => assert_eq!(exchange, "binance"),
        _ => panic!("expected the subscription"),
    }
    assert!(!h.accepts(&HandshakeEvent::ResponseSent));
}

#[test]
fn client_token_is_checked() {
    let mut h = Handshake::new("p".to_string(), secs(5));
    h.step(HandshakeEvent::Received(Frame::Text("x".to_string())));
    match h.step(HandshakeEvent::Parsed(Subscription::Client { access_token: "tok".to_string() })) {
        HandshakeAction::ValidateToken(t) => assert_eq!(t, "tok"),
        _ => panic!("expected validation"),
    }
    assert_eq!(error(h.step(HandshakeEvent::TokenRejected("expired".to_string()))), "expired");

    let mut h = Handshake::new("p".to_string(), secs(5));
    h.step(HandshakeEvent::Received(Frame::Text("x".to_string())));
    h.step(HandshakeEvent::Parsed(Subscription::Client { access_token: "tok".to_string() }));
    match h.step(HandshakeEvent::TokenAccepted) {
        HandshakeAction::SendResponse(WsMessage::Subscription { client_type, .. }) => assert!(client_type == ClientType::Client),
        _ => panic!("expected confirmation"),
    }
    assert_eq!(error(h.step(HandshakeEvent::ResponseFailed("broken pipe".to_string()))), "failed to send subscription response to p: broken pipe");
}

#[test]
fn timeout_text_matches_duration_debug() {
    let spans = [
        Duration::ZERO,
        Duration::from_secs(5),
        Duration::from_millis(1500),
        Duration::from_millis(250),
        Duration::from_micros(1),
        Duration::from_nanos(1_000_001),
        Duration::from_nanos(999),
        Duration::from_nanos(1_234_567),
        Duration::new(2, 1),
        Duration::new(10, 120_000_000),
    ];
    for d in spans {
        let mut h = Handshake::new("p".to_string(), Timeout { secs: d.as_secs(), nanos: d.subsec_nanos() });
        let expected = format!("did not receive subscription from p within {:?}", d);
        assert_eq!(error(h.step(HandshakeEvent::TimedOut)), expected);
    }
}

#[test]
fn zero_timeout_reads_zero_nanoseconds() {
    let mut h = Handshake::new("p".to_string(), Timeout { secs: 0, nanos: 0 });
    assert_eq!(error(h.step(HandshakeEvent::TimedOut)), "did not receive subscription from p within 0ns");
}
