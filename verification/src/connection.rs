use vstd::prelude::*;
use crate::delivery::DeliveryPolicy;
use crate::message::{NodeId, Subscription, WsMessage};
use crate::nodes::{NodeRegistry, connected, disconnected};

verus! {

/// What to do with the peer of a connection once its handshake succeeded.
pub enum ConnectAction {
    /// Add the peer to the clients that messages are broadcast to.
    RegisterClient,
    /// The peer is a node, now recorded as connected.
    NodeRecorded,
}

/// What to do once a connection has ended.
pub enum DisconnectAction<S> {
    /// Remove the peer from the clients that messages are broadcast to.
    RemoveClient,
    /// Send this message to every client, under this delivery policy.
    Broadcast { message: WsMessage<S>, policy: DeliveryPolicy },
}

impl<S: View> View for DisconnectAction<S> {
    type V = DisconnectAction<S::V>;

    open spec fn view(&self) -> DisconnectAction<S::V> {
        match self {
            DisconnectAction::RemoveClient => DisconnectAction::RemoveClient,
            DisconnectAction::Broadcast { message, policy } => DisconnectAction::Broadcast { message: message@, policy: *policy },
        }
    }
}

/// Takes in a successful handshake: a node is recorded as connected, and a
/// client is to be added to the clients.
pub fn on_subscribed(subscription: &Subscription<String>, nodes: &mut NodeRegistry) -> (a: ConnectAction)
    ensures
        match subscription@ {
            Subscription::Client { .. } => a is RegisterClient && final(nodes)@ == old(nodes)@,
            Subscription::Node { api_key, exchange, .. } => a is NodeRecorded
                && final(nodes)@ == connected(old(nodes)@, NodeId { api_key, exchange }),
        },
{
    match subscription {
        Subscription::Client { .. } => ConnectAction::RegisterClient,
        Subscription::Node { api_key, exchange, .. } => {
            nodes.connect(NodeId { api_key: api_key.clone(), exchange: exchange.clone() });
            ConnectAction::NodeRecorded
        },
    }
}

/// Takes in the end of a connection: a client is to be removed from the
/// clients; a node is recorded as inactive and every client is told that it
/// disconnected, a client that cannot be sent to not stopping the others.
pub fn on_disconnect(subscription: &Subscription<String>, nodes: &mut NodeRegistry) -> (a: DisconnectAction<String>)
    ensures
        match subscription@ {
            Subscription::Client { .. } => a is RemoveClient && final(nodes)@ == old(nodes)@,
            Subscription::Node { api_key, exchange, .. } => {
                &&& final(nodes)@ == disconnected(old(nodes)@, NodeId { api_key, exchange })
                &&& a@ == (DisconnectAction::Broadcast {
                    message: WsMessage::NodeDisconnected { exchange, api_key },
                    policy: DeliveryPolicy::SkipFailures,
                })
            },
        },
{
    match subscription {
        Subscription::Client { .. } => DisconnectAction::RemoveClient,
        Subscription::Node { api_key, exchange, .. } => {
            let id = NodeId { api_key: api_key.clone(), exchange: exchange.clone() };
            nodes.set_inactive(&id);
            DisconnectAction::Broadcast {
                message: WsMessage::NodeDisconnected { exchange: exchange.clone(), api_key: api_key.clone() },
                policy: DeliveryPolicy::SkipFailures,
            }
        },
    }
}

} // verus!
