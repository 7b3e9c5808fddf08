use vstd::prelude::*;
use core::ops::ControlFlow;

verus! {

/// The close code of a normal closure.
pub const NORMAL_CLOSURE: u16 = 1000;

/// The frame that closes a websocket, with its code and reason.
pub struct CloseFrame<S> {
    pub code: u16,
    pub reason: S,
}

/// A websocket frame, over a type of text `S` and of byte payloads `B`.
pub enum Frame<S, B> {
    Text(S),
    Binary(B),
    Ping(B),
    Pong(B),
    Close(Option<CloseFrame<S>>),
}

/// A websocket frame as it travels.
pub type Message = Frame<String, Vec<u8>>;

impl<S: View> View for CloseFrame<S> {
    type V = CloseFrame<S::V>;

    open spec fn view(&self) -> CloseFrame<S::V> {
        CloseFrame { code: self.code, reason: self.reason@ }
    }
}

impl<S: View, B: View> View for Frame<S, B> {
    type V = Frame<S::V, B::V>;

    open spec fn view(&self) -> Frame<S::V, B::V> {
        match self {
            Frame::Text(t) => Frame::Text(t@),
            Frame::Binary(b) => Frame::Binary(b@),
            Frame::Ping(b) => Frame::Ping(b@),
            Frame::Pong(b) => Frame::Pong(b@),
            Frame::Close(None) => Frame::Close(None),
            Frame::Close(Some(c)) => Frame::Close(Some(c@)),
        }
    }
}

/// Decides whether the receive loop goes on after a frame: it stops at a
/// close frame and goes on after any other.
pub fn process_message(msg: &Message) -> (flow: ControlFlow<(), ()>)
    ensures
        flow is Break <==> msg is Close,
{
    match msg {
        Frame::Close(_) => ControlFlow::Break(()),
        _ => ControlFlow::Continue(()),
    }
}

/// The kind of peer on a connection.
#[derive(PartialEq, Eq, Structural, Clone, Copy)]
pub enum ClientType {
    Client,
    Node,
}

/// The first message of a connection, which says who is connecting.
pub enum Subscription<S> {
    /// A user interface, with the token that authenticates it.
    Client { access_token: S },
    /// A trading node, named by its exchange and API key.
    Node { api_key: S, exchange: S, public_ip: S },
}

impl<S: View> View for Subscription<S> {
    type V = Subscription<S::V>;

    open spec fn view(&self) -> Subscription<S::V> {
        match self {
            Subscription::Client { access_token } => Subscription::Client { access_token: access_token@ },
            Subscription::Node { api_key, exchange, public_ip } => Subscription::Node {
                api_key: api_key@,
                exchange: exchange@,
                public_ip: public_ip@,
            },
        }
    }
}

/// The kind of peer that a subscription announces.
pub open spec fn spec_client_type<S>(s: Subscription<S>) -> ClientType {
    match s {
        Subscription::Client { .. } => ClientType::Client,
        Subscription::Node { .. } => ClientType::Node,
    }
}

impl Subscription<String> {
    /// The kind of peer that this subscription announces.
    pub fn client_type(&self) -> (t: ClientType)
        ensures
            t == spec_client_type(*self),
    {
        match self {
            Subscription::Client { .. } => ClientType::Client,
            Subscription::Node { .. } => ClientType::Node,
        }
    }
}

/// A trading node: an API key on an exchange.
pub struct NodeId<S> {
    pub api_key: S,
    pub exchange: S,
}

impl<S: View> View for NodeId<S> {
    type V = NodeId<S::V>;

    open spec fn view(&self) -> NodeId<S::V> {
        NodeId { api_key: self.api_key@, exchange: self.exchange@ }
    }
}

impl NodeId<String> {
    /// Whether two ids name the same node.
    pub fn same(&self, other: &NodeId<String>) -> (b: bool)
        ensures
            b == (self@ == other@),
    {
        self.api_key == other.api_key && self.exchange == other.exchange
    }

    /// A copy of this id.
    pub fn duplicate(&self) -> (c: NodeId<String>)
        ensures
            c == *self,
    {
        NodeId { api_key: self.api_key.clone(), exchange: self.exchange.clone() }
    }
}

/// The messages exchanged between the server, the nodes and the clients.
/// Those whose content the server does not read carry none here.
pub enum WsMessage<S> {
    Order,
    SetLeverage,
    Subscription { status: S, client_type: ClientType },
    NodeConnected,
    NodeDisconnected { exchange: S, api_key: S },
    AccountCreated,
    AccountDeleted,
    NodeError { exchange: S, api_key: S, message: S },
    NodeNotification { exchange: S, api_key: S, message: S },
    PositionUpdate { exchange: S, api_key: S, data: S },
    BalanceUpdate { exchange: S, api_key: S, data: S },
    OpenOrdersUpdate { exchange: S, api_key: S, data: S },
    LiquidationUpdate { exchange: S, api_key: S, data: S },
}

impl<S: View> View for WsMessage<S> {
    type V = WsMessage<S::V>;

    open spec fn view(&self) -> WsMessage<S::V> {
        match self {
            WsMessage::Order => WsMessage::Order,
            WsMessage::SetLeverage => WsMessage::SetLeverage,
            WsMessage::Subscription { status, client_type } => WsMessage::Subscription {
                status: status@,
                client_type: *client_type,
            },
            WsMessage::NodeConnected => WsMessage::NodeConnected,
            WsMessage::NodeDisconnected { exchange, api_key } => WsMessage::NodeDisconnected {
                exchange: exchange@,
                api_key: api_key@,
            },
            WsMessage::AccountCreated => WsMessage::AccountCreated,
            WsMessage::AccountDeleted => WsMessage::AccountDeleted,
            WsMessage::NodeError { exchange, api_key, message } => WsMessage::NodeError {
                exchange: exchange@,
                api_key: api_key@,
                message: message@,
            },
            WsMessage::NodeNotification { exchange, api_key, message } => WsMessage::NodeNotification {
                exchange: exchange@,
                api_key: api_key@,
                message: message@,
            },
            WsMessage::PositionUpdate { exchange, api_key, data } => WsMessage::PositionUpdate {
                exchange: exchange@,
                api_key: api_key@,
                data: data@,
            },
            WsMessage::BalanceUpdate { exchange, api_key, data } => WsMessage::BalanceUpdate {
                exchange: exchange@,
                api_key: api_key@,
                data: data@,
            },
            WsMessage::OpenOrdersUpdate { exchange, api_key, data } => WsMessage::OpenOrdersUpdate {
                exchange: exchange@,
                api_key: api_key@,
                data: data@,
            },
            WsMessage::LiquidationUpdate { exchange, api_key, data } => WsMessage::LiquidationUpdate {
                exchange: exchange@,
                api_key: api_key@,
                data: data@,
            },
        }
    }
}

} // verus!
