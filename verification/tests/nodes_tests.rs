use watcher_server::connection::{on_disconnect, on_subscribed, ConnectAction, DisconnectAction};
use watcher_server::delivery::{Delivery, DeliveryPolicy};
use watcher_server::message::{NodeId, Subscription, WsMessage};
use watcher_server::nodes::{NodeField, NodeRegistry, NodeUpdate};

fn id() -> NodeId<String> {
    NodeId { api_key: "k".to_string(), exchange: "x".to_string() }
}

#[test]
fn connect_update_disconnect() {
    let mut n = NodeRegistry::new();
    assert!(n.record(&id()).is_none());
    n.apply_update(NodeUpdate { node: id(), field: NodeField::Balance, data: "1".to_string() });
    assert!(n.record(&id()).is_none());
    n.connect(id());
    let r = n.record(&id()).unwrap();
    assert!(r.active);
    assert!(r.balance.is_none());
    n.apply_update(NodeUpdate { node: id(), field: NodeField::Balance, data: "1".to_string() });
    n.apply_update(NodeUpdate { node: id(), field: NodeField::Positions, data: "p".to_string() });
    n.set_inactive(&id());
    let r = n.record(&id()).unwrap();
    assert!(!r.active);
    assert_eq!(r.balance.as_deref(), Some("1"));
    assert_eq!(r.positions.as_deref(), Some("p"));
    assert!(r.open_orders.is_none());
    n.connect(id());
    let r = n.record(&id()).unwrap();
    assert!(r.active);
    assert_eq!(r.balance.as_deref(), Some("1"));
}

#[test]
fn nodes_are_kept_apart() {
    let mut n = NodeRegistry::new();
    let other = NodeId { api_key: "k".to_string(), exchange: "y".to_string() };
    n.connect(id());
    n.connect(other.duplicate());
    n.set_inactive(&other);
    assert!(n.record(&id()).unwrap().active);
    assert!(!n.record(&other).unwrap().active);
    assert!(id().same(&id()));
    assert!(!id().same(&other));
}

#[test]
fn subscription_bookkeeping() {
    let mut n = NodeRegistry::new();
    let client = Subscription::Client { access_token: "t".to_string() };
    assert!(matches!(on_subscribed(&client, &mut n), ConnectAction::RegisterClient));
    assert!(matches!(on_disconnect(&client, &mut n), DisconnectAction::RemoveClient));
    let node = Subscription::Node { api_key: "k".to_string(), exchange: "x".to_string(), public_ip: "ip".to_string() };
    assert!(matches!(on_subscribed(&node, &mut n), ConnectAction::NodeRecorded));
    assert!(n.record(&id()).unwrap().active);
    match on_disconnect(&node, &mut n) {
        DisconnectAction::Broadcast { message: WsMessage::NodeDisconnected { exchange, api_key }, policy } => {
            assert!(policy == DeliveryPolicy::SkipFailures);
            assert_eq!(exchange, "x");
            assert_eq!(api_key, "k");
        }
        _ => panic!("expected a broadcast"),
    }
    assert!(!n.record(&id()).unwrap().active);
}

#[test]
fn relay_stops_at_first_failure() {
    let mut d = Delivery::new(DeliveryPolicy::StopAtFirstFailure);
    assert!(d.record(true));
    assert!(d.delivered());
    assert!(!d.record(false));
    assert!(!d.delivered());
}

#[test]
fn notice_goes_on_past_failures() {
    let mut d = Delivery::new(DeliveryPolicy::SkipFailures);
    assert!(d.record(false));
    assert!(d.record(true));
    assert!(!d.delivered());
}
