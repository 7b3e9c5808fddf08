use std::ops::ControlFlow;
use watcher_server::delivery::DeliveryPolicy;
use watcher_server::message::{process_message, CloseFrame, Frame, WsMessage};
use watcher_server::nodes::NodeField;
use watcher_server::receiver::{ReceiveAction, ReceiveEvent, ReceivePhase, Receiver};

fn parsed(message: WsMessage<String>) -> ReceiveEvent<String, Vec<u8>> {
    ReceiveEvent::Parsed { message, serialized: "{\"raw\":1}".to_string() }
}

#[test]
fn close_frame_breaks() {
    assert!(matches!(process_message(&Frame::Close(None)), ControlFlow::Break(())));
    let f = Frame::Close(Some(CloseFrame { code: 1000, reason: "x".to_string() }));
    assert!(matches!(process_message(&f), ControlFlow::Break(())));
    assert!(matches!(process_message(&Frame::Text("t".to_string())), ControlFlow::Continue(())));
    assert!(matches!(process_message(&Frame::Ping(vec![1])), ControlFlow::Continue(())));
}

#[test]
fn text_is_parsed_and_other_frames_skipped() {
    let mut r = Receiver::new();
    match r.step(ReceiveEvent::Received(Frame::Text("hello".to_string()))) {
        ReceiveAction::Parse(t) => assert_eq!(t, "hello"),
        _ => panic!("expected parse"),
    }
    assert!(r.current_phase() == ReceivePhase::Parsing);
    assert!(matches!(r.step(ReceiveEvent::Malformed), ReceiveAction::ReceiveNext));
    assert!(matches!(r.step(ReceiveEvent::Received(Frame::Binary(vec![1, 2]))), ReceiveAction::ReceiveNext));
    assert!(matches!(r.step(ReceiveEvent::Received(Frame::Pong(vec![]))), ReceiveAction::ReceiveNext));
    assert!(matches!(r.step(ReceiveEvent::Received(Frame::Close(None))), ReceiveAction::Stop));
    assert!(r.current_phase() == ReceivePhase::Stopped);
}

#[test]
fn stream_end_and_failure_stop() {
    let mut r = Receiver::new();
    assert!(matches!(r.step(ReceiveEvent::StreamEnded), ReceiveAction::Stop));
    let mut r = Receiver::new();
    assert!(matches!(r.step(ReceiveEvent::StreamFailed), ReceiveAction::Stop));
}

#[test]
fn node_errors_are_relayed() {
    let mut r = Receiver::new();
    r.step(ReceiveEvent::Received(Frame::Text("x".to_string())));
    let m = WsMessage::NodeError { exchange: "e".to_string(), api_key: "k".to_string(), message: "m".to_string() };
    match r.step(parsed(m)) {
        ReceiveAction::Broadcast { serialized, policy } => {
            assert_eq!(serialized, "{\"raw\":1}");
            assert!(policy == DeliveryPolicy::StopAtFirstFailure);
        }
        _ => panic!("expected broadcast"),
    }
    assert!(matches!(r.step(ReceiveEvent::Delivered), ReceiveAction::ReceiveNext));
    r.step(ReceiveEvent::Received(Frame::Text("x".to_string())));
    let m = WsMessage::NodeNotification { exchange: "e".to_string(), api_key: "k".to_string(), message: "m".to_string() };
    assert!(matches!(r.step(parsed(m)), ReceiveAction::Broadcast { .. }));
    assert!(matches!(r.step(ReceiveEvent::DeliveryFailed), ReceiveAction::Stop));
}

#[test]
fn reports_are_stored_then_relayed() {
    let cases = vec![
        (WsMessage::PositionUpdate { exchange: "e".to_string(), api_key: "k".to_string(), data: "p".to_string() }, NodeField::Positions),
        (WsMessage::BalanceUpdate { exchange: "e".to_string(), api_key: "k".to_string(), data: "p".to_string() }, NodeField::Balance),
        (WsMessage::OpenOrdersUpdate { exchange: "e".to_string(), api_key: "k".to_string(), data: "p".to_string() }, NodeField::OpenOrders),
        (WsMessage::LiquidationUpdate { exchange: "e".to_string(), api_key: "k".to_string(), data: "p".to_string() }, NodeField::Liquidations),
    ];
    for (m, field) in cases {
        let mut r = Receiver::new();
        r.step(ReceiveEvent::Received(Frame::Text("x".to_string())));
        match r.step(parsed(m)) {
            ReceiveAction::StoreAndBroadcast { update, serialized, policy } => {
                assert!(policy == DeliveryPolicy::StopAtFirstFailure);
                assert!(update.field == field);
                assert_eq!(update.node.exchange, "e");
                assert_eq!(update.node.api_key, "k");
                assert_eq!(update.data, "p");
                assert_eq!(serialized, "{\"raw\":1}");
            }
            _ => panic!("expected store and broadcast"),
        }
    }
}

#[test]
fn other_messages_are_ignored() {
    for m in vec![WsMessage::Order, WsMessage::SetLeverage, WsMessage::NodeConnected, WsMessage::AccountCreated, WsMessage::AccountDeleted] {
        let mut r = Receiver::new();
        r.step(ReceiveEvent::Received(Frame::Text("x".to_string())));
        assert!(matches!(r.step(parsed(m)), ReceiveAction::ReceiveNext));
    }
}
