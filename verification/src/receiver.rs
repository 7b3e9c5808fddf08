use vstd::prelude::*;
use core::ops::ControlFlow;
use crate::message::{Frame, NodeId, WsMessage, process_message};
use crate::delivery::DeliveryPolicy;
use crate::nodes::{NodeField, NodeUpdate};

verus! {

/// Where the receive loop of a connection stands.
#[derive(PartialEq, Eq, Structural, Clone, Copy)]
pub enum ReceivePhase {
    /// Waiting for the next frame from the peer.
    Receiving,
    /// The text of a frame is being parsed as a message.
    Parsing,
    /// A message is being delivered to every client.
    Broadcasting,
    /// The loop has ended.
    Stopped,
}

/// What happened since the last step of the receive loop.
pub enum ReceiveEvent<S, B> {
    /// The peer's stream has ended.
    StreamEnded,
    /// Reading the peer's stream failed.
    StreamFailed,
    /// The peer sent this frame.
    Received(Frame<S, B>),
    /// The text parsed as this message, which serializes as `serialized`.
    Parsed { message: WsMessage<S>, serialized: S },
    /// The text is not a message.
    Malformed,
    /// Every client got the message.
    Delivered,
    /// Sending the message to some client failed.
    DeliveryFailed,
}

/// What the receive loop asks to be done next.
pub enum ReceiveAction<S> {
    /// Wait for the next frame.
    ReceiveNext,
    /// Parse this text as a message.
    Parse(S),
    /// Send this text to every client, under this delivery policy.
    Broadcast { serialized: S, policy: DeliveryPolicy },
    /// Record this report of a node, then send the text to every client,
    /// under this delivery policy.
    StoreAndBroadcast { update: NodeUpdate<S>, serialized: S, policy: DeliveryPolicy },
    /// End the loop.
    Stop,
}

impl<S: View, B: View> View for ReceiveEvent<S, B> {
    type V = ReceiveEvent<S::V, B::V>;

    open spec fn view(&self) -> ReceiveEvent<S::V, B::V> {
        match self {
            ReceiveEvent::StreamEnded => ReceiveEvent::StreamEnded,
            ReceiveEvent::StreamFailed => ReceiveEvent::StreamFailed,
            ReceiveEvent::Received(f) => ReceiveEvent::Received(f@),
            ReceiveEvent::Parsed { message, serialized } => ReceiveEvent::Parsed {
                message: message@,
                serialized: serialized@,
            },
            ReceiveEvent::Malformed => ReceiveEvent::Malformed,
            ReceiveEvent::Delivered => ReceiveEvent::Delivered,
            ReceiveEvent::DeliveryFailed => ReceiveEvent::DeliveryFailed,
        }
    }
}

impl<S: View> View for ReceiveAction<S> {
    type V = ReceiveAction<S::V>;

    open spec fn view(&self) -> ReceiveAction<S::V> {
        match self {
            ReceiveAction::ReceiveNext => ReceiveAction::ReceiveNext,
            ReceiveAction::Parse(t) => ReceiveAction::Parse(t@),
            ReceiveAction::Broadcast { serialized, policy } => ReceiveAction::Broadcast {
                serialized: serialized@,
                policy: *policy,
            },
            ReceiveAction::StoreAndBroadcast { update, serialized, policy } => ReceiveAction::StoreAndBroadcast {
                update: NodeUpdate { node: update.node@, field: update.field, data: update.data@ },
                serialized: serialized@,
                policy: *policy,
            },
            ReceiveAction::Stop => ReceiveAction::Stop,
        }
    }
}

/// Which events can happen in a phase.
pub open spec fn receive_accepts<S, B>(phase: ReceivePhase, event: ReceiveEvent<S, B>) -> bool {
    match phase {
        ReceivePhase::Receiving => event is StreamEnded || event is StreamFailed || event is Received,
        ReceivePhase::Parsing => event is Parsed || event is Malformed,
        ReceivePhase::Broadcasting => event is Delivered || event is DeliveryFailed,
        ReceivePhase::Stopped => false,
    }
}

/// The report of a node that a message carries, if it carries one.
pub open spec fn node_update<S>(m: WsMessage<S>) -> Option<NodeUpdate<S>> {
    match m {
        WsMessage::PositionUpdate { exchange, api_key, data } => Some(
            NodeUpdate { node: NodeId { api_key, exchange }, field: NodeField::Positions, data },
        ),
        WsMessage::BalanceUpdate { exchange, api_key, data } => Some(
            NodeUpdate { node: NodeId { api_key, exchange }, field: NodeField::Balance, data },
        ),
        WsMessage::OpenOrdersUpdate { exchange, api_key, data } => Some(
            NodeUpdate { node: NodeId { api_key, exchange }, field: NodeField::OpenOrders, data },
        ),
        WsMessage::LiquidationUpdate { exchange, api_key, data } => Some(
            NodeUpdate { node: NodeId { api_key, exchange }, field: NodeField::Liquidations, data },
        ),
        _ => None,
    }
}

/// Whether a message is relayed to the clients as it is.
pub open spec fn relayed<S>(m: WsMessage<S>) -> bool {
    m is NodeError || m is NodeNotification
}

/// One step of the receive loop. The loop ends when the stream ends or
/// fails, at a close frame, and when a delivery to a client fails. Text
/// frames are parsed; other frames, and text that is no message, are
/// skipped. Errors and notifications of nodes are relayed to every client,
/// stopping at the first client that cannot be sent to;
/// reports of positions, balances, open orders and liquidations are recorded
/// and then relayed; other messages are ignored.
pub open spec fn receive_next(phase: ReceivePhase, event: ReceiveEvent<Seq<char>, Seq<u8>>) -> (ReceivePhase, ReceiveAction<Seq<char>>) {
    match (phase, event) {
        (ReceivePhase::Receiving, ReceiveEvent::Received(Frame::Text(t))) => (ReceivePhase::Parsing, ReceiveAction::Parse(t)),
        (ReceivePhase::Receiving, ReceiveEvent::Received(Frame::Close(_))) => (ReceivePhase::Stopped, ReceiveAction::Stop),
        (ReceivePhase::Receiving, ReceiveEvent::Received(_)) => (ReceivePhase::Receiving, ReceiveAction::ReceiveNext),
        (ReceivePhase::Receiving, _) => (ReceivePhase::Stopped, ReceiveAction::Stop),
        (ReceivePhase::Parsing, ReceiveEvent::Parsed { message, serialized }) => if relayed(message) {
            (
                ReceivePhase::Broadcasting,
                ReceiveAction::Broadcast { serialized, policy: DeliveryPolicy::StopAtFirstFailure },
            )
        } else if node_update(message) is Some {
            (
                ReceivePhase::Broadcasting,
                ReceiveAction::StoreAndBroadcast {
                    update: node_update(message)->0,
                    serialized,
                    policy: DeliveryPolicy::StopAtFirstFailure,
                },
            )
        } else {
            (ReceivePhase::Receiving, ReceiveAction::ReceiveNext)
        },
        (ReceivePhase::Parsing, _) => (ReceivePhase::Receiving, ReceiveAction::ReceiveNext),
        (ReceivePhase::Broadcasting, ReceiveEvent::Delivered) => (ReceivePhase::Receiving, ReceiveAction::ReceiveNext),
        (ReceivePhase::Broadcasting, _) => (ReceivePhase::Stopped, ReceiveAction::Stop),
        (ReceivePhase::Stopped, _) => (ReceivePhase::Stopped, ReceiveAction::Stop),
    }
}

/// The receive loop of one connection.
pub struct Receiver {
    phase: ReceivePhase,
}

impl Receiver {
    /// The phase of the loop.
    pub closed spec fn phase(&self) -> ReceivePhase {
        self.phase
    }

    /// A loop that waits for its first frame.
    pub fn new() -> (r: Receiver)
        ensures
            r.phase() == ReceivePhase::Receiving,
    {
        Receiver { phase: ReceivePhase::Receiving }
    }

    /// The phase of the loop.
    pub fn current_phase(&self) -> (p: ReceivePhase)
        ensures
            p == self.phase(),
    {
        self.phase
    }

    /// Whether `event` can happen now.
    pub fn accepts(&self, event: &ReceiveEvent<String, Vec<u8>>) -> (b: bool)
        ensures
            b == receive_accepts(self.phase(), *event),
    {
        match (self.phase, event) {
            (ReceivePhase::Receiving, ReceiveEvent::StreamEnded) => true,
            (ReceivePhase::Receiving, ReceiveEvent::StreamFailed) => true,
            (ReceivePhase::Receiving, ReceiveEvent::Received(_)) => true,
            (ReceivePhase::Parsing, ReceiveEvent::Parsed { .. }) => true,
            (ReceivePhase::Parsing, ReceiveEvent::Malformed) => true,
            (ReceivePhase::Broadcasting, ReceiveEvent::Delivered) => true,
            (ReceivePhase::Broadcasting, ReceiveEvent::DeliveryFailed) => true,
            _ => false,
        }
    }

    /// Takes in what happened and says what to do next.
    pub fn step(&mut self, event: ReceiveEvent<String, Vec<u8>>) -> (a: ReceiveAction<String>)
        requires
            receive_accepts(old(self).phase(), event),
        ensures
            (final(self).phase(), a@) == receive_next(old(self).phase(), event@),
    {
        let (next, action) = match event {
            ReceiveEvent::Received(frame) => {
                match process_message(&frame) {
                    ControlFlow::Break(()) => (ReceivePhase::Stopped, ReceiveAction::Stop),
                    ControlFlow::Continue(()) => match frame {
                        Frame::Text(t) => (ReceivePhase::Parsing, ReceiveAction::Parse(t)),
                        _ => (ReceivePhase::Receiving, ReceiveAction::ReceiveNext),
                    },
                }
            },
            ReceiveEvent::StreamEnded => (ReceivePhase::Stopped, ReceiveAction::Stop),
            ReceiveEvent::StreamFailed => (ReceivePhase::Stopped, ReceiveAction::Stop),
            ReceiveEvent::Parsed { message, serialized } => match message {
                WsMessage::NodeError { .. } => (ReceivePhase::Broadcasting, ReceiveAction::Broadcast { serialized, policy: DeliveryPolicy::StopAtFirstFailure }),
                WsMessage::NodeNotification { .. } => (ReceivePhase::Broadcasting, ReceiveAction::Broadcast { serialized, policy: DeliveryPolicy::StopAtFirstFailure }),
                WsMessage::PositionUpdate { exchange, api_key, data } => (
                    ReceivePhase::Broadcasting,
                    ReceiveAction::StoreAndBroadcast {
                        update: NodeUpdate { node: NodeId { api_key, exchange }, field: NodeField::Positions, data },
                        serialized,
                        policy: DeliveryPolicy::StopAtFirstFailure,
                    },
                ),
                WsMessage::BalanceUpdate { exchange, api_key, data } => (
                    ReceivePhase::Broadcasting,
                    ReceiveAction::StoreAndBroadcast {
                        update: NodeUpdate { node: NodeId { api_key, exchange }, field: NodeField::Balance, data },
                        serialized,
                        policy: DeliveryPolicy::StopAtFirstFailure,
                    },
                ),
                WsMessage::OpenOrdersUpdate { exchange, api_key, data } => (
                    ReceivePhase::Broadcasting,
                    ReceiveAction::StoreAndBroadcast {
                        update: NodeUpdate { node: NodeId { api_key, exchange }, field: NodeField::OpenOrders, data },
                        serialized,
                        policy: DeliveryPolicy::StopAtFirstFailure,
                    },
                ),
                WsMessage::LiquidationUpdate { exchange, api_key, data } => (
                    ReceivePhase::Broadcasting,
                    ReceiveAction::StoreAndBroadcast {
                        update: NodeUpdate { node: NodeId { api_key, exchange }, field: NodeField::Liquidations, data },
                        serialized,
                        policy: DeliveryPolicy::StopAtFirstFailure,
                    },
                ),
                _ => (ReceivePhase::Receiving, ReceiveAction::ReceiveNext),
            },
            ReceiveEvent::Malformed => (ReceivePhase::Receiving, ReceiveAction::ReceiveNext),
            ReceiveEvent::Delivered => (ReceivePhase::Receiving, ReceiveAction::ReceiveNext),
            ReceiveEvent::DeliveryFailed => (ReceivePhase::Stopped, ReceiveAction::Stop),
        };
        self.phase = next;
        action
    }
}

/// The loop ends exactly when it asks to stop, and an ended loop takes in no
/// further event.
pub proof fn lemma_stops_for_good(phase: ReceivePhase, event: ReceiveEvent<Seq<char>, Seq<u8>>)
    requires
        receive_accepts(phase, event),
    ensures
        (receive_next(phase, event).0 == ReceivePhase::Stopped) <==> (receive_next(phase, event).1 is Stop),
        forall|e: ReceiveEvent<Seq<char>, Seq<u8>>| receive_next(phase, event).0 == ReceivePhase::Stopped
            ==> !receive_accepts(receive_next(phase, event).0, e),
{
}

/// Whatever a peer sends, the loop goes on unless the frame closes the
/// connection; text that is not a message is skipped.
pub proof fn lemma_only_close_ends_reception(frame: Frame<Seq<char>, Seq<u8>>)
    ensures
        (receive_next(ReceivePhase::Receiving, ReceiveEvent::Received(frame)).1 is Stop) <==> frame is Close,
        receive_next(ReceivePhase::Parsing, ReceiveEvent::<Seq<char>, Seq<u8>>::Malformed)
            == (ReceivePhase::Receiving, ReceiveAction::<Seq<char>>::ReceiveNext),
{
}

/// What is broadcast is the message as it was parsed, and a report of a node
/// is recorded, for the node and of the kind that the message names, before
/// it is broadcast.
pub proof fn lemma_broadcast_is_the_message(message: WsMessage<Seq<char>>, serialized: Seq<char>)
    ensures
        relayed(message) ==> receive_next(ReceivePhase::Parsing, ReceiveEvent::<Seq<char>, Seq<u8>>::Parsed { message, serialized }).1
            == (ReceiveAction::Broadcast { serialized, policy: DeliveryPolicy::StopAtFirstFailure }),
        node_update(message) matches Some(u) ==> receive_next(
            ReceivePhase::Parsing,
            ReceiveEvent::<Seq<char>, Seq<u8>>::Parsed { message, serialized },
        ).1 == (ReceiveAction::StoreAndBroadcast { update: u, serialized, policy: DeliveryPolicy::StopAtFirstFailure }),
        !relayed(message) && node_update(message) is None ==> receive_next(
            ReceivePhase::Parsing,
            ReceiveEvent::<Seq<char>, Seq<u8>>::Parsed { message, serialized },
        ).1 is ReceiveNext,
{
}

/// The phase of the receive loop after the first `n` events of `events`,
/// started in `start`.
pub open spec fn phase_after(start: ReceivePhase, events: Seq<ReceiveEvent<Seq<char>, Seq<u8>>>, n: nat) -> ReceivePhase
    decreases n,
{
    if n == 0 {
        start
    } else {
        receive_next(phase_after(start, events, (n - 1) as nat), events[n - 1]).0
    }
}

/// The action the receive loop asks for after the event at index `n`.
pub open spec fn action_at(start: ReceivePhase, events: Seq<ReceiveEvent<Seq<char>, Seq<u8>>>, n: nat) -> ReceiveAction<Seq<char>> {
    receive_next(phase_after(start, events, n), events[n as int]).1
}

/// Every event of the run can happen when it comes.
pub open spec fn accepted_run(start: ReceivePhase, events: Seq<ReceiveEvent<Seq<char>, Seq<u8>>>) -> bool {
    forall|n: nat| n < events.len() ==> receive_accepts(#[trigger] phase_after(start, events, n), events[n as int])
}

proof fn lemma_pending_broadcast(start: ReceivePhase, events: Seq<ReceiveEvent<Seq<char>, Seq<u8>>>, i: nat, m: nat)
    requires
        i < m <= events.len(),
        action_at(start, events, i) is Broadcast || action_at(start, events, i) is StoreAndBroadcast,
        forall|k: int| i < k < m ==> !(events[k] is Delivered),
    ensures
        phase_after(start, events, m) == ReceivePhase::Broadcasting || phase_after(start, events, m)
            == ReceivePhase::Stopped,
    decreases m,
{
    if m > i + 1 {
        lemma_pending_broadcast(start, events, i, (m - 1) as nat);
        assert(!(events[m - 1] is Delivered));
    } else {
        assert(phase_after(start, events, m) == receive_next(phase_after(start, events, i), events[i as int]).0);
    }
}

/// Frames are relayed in the order they come: once a frame has led to a
/// broadcast, no further frame is taken until the clients got it.
pub proof fn lemma_one_broadcast_at_a_time(
    start: ReceivePhase,
    events: Seq<ReceiveEvent<Seq<char>, Seq<u8>>>,
    i: nat,
    j: nat,
)
    requires
        accepted_run(start, events),
        i < j < events.len(),
        action_at(start, events, i) is Broadcast || action_at(start, events, i) is StoreAndBroadcast,
        events[j as int] is Received,
    ensures
        exists|k: int| i < k < j && events[k] is Delivered,
{
    if !(exists|k: int| i < k < j && events[k] is Delivered) {
        lemma_pending_broadcast(start, events, i, j);
        assert(receive_accepts(phase_after(start, events, j), events[j as int]));
    }
}


/// What each step of the receive loop does, for every frame and message:
/// the loop ends when the stream ends or fails, at a close frame and when a
/// delivery fails; text is parsed; binary, ping and pong frames and text that
/// is no message are skipped; errors and notifications of nodes are relayed
/// as they were parsed, and reports of nodes are recorded for the node and of
/// the kind they name, then relayed, each stopping at the first client that
/// cannot be sent to; every other message is ignored.
pub proof fn lemma_receive_steps(frame: Frame<Seq<char>, Seq<u8>>, text: Seq<char>, message: WsMessage<Seq<char>>, serialized: Seq<char>)
    ensures
        receive_next(ReceivePhase::Receiving, ReceiveEvent::<Seq<char>, Seq<u8>>::StreamEnded) == (ReceivePhase::Stopped, ReceiveAction::<Seq<char>>::Stop),
        receive_next(ReceivePhase::Receiving, ReceiveEvent::<Seq<char>, Seq<u8>>::StreamFailed) == (ReceivePhase::Stopped, ReceiveAction::<Seq<char>>::Stop),
        receive_next(ReceivePhase::Receiving, ReceiveEvent::<Seq<char>, Seq<u8>>::Received(Frame::Text(text))) == (ReceivePhase::Parsing, ReceiveAction::Parse(text)),
        frame is Close ==> receive_next(ReceivePhase::Receiving, ReceiveEvent::<Seq<char>, Seq<u8>>::Received(frame)) == (ReceivePhase::Stopped, ReceiveAction::<Seq<char>>::Stop),
        (frame is Binary || frame is Ping || frame is Pong) ==> receive_next(ReceivePhase::Receiving, ReceiveEvent::<Seq<char>, Seq<u8>>::Received(frame))
            == (ReceivePhase::Receiving, ReceiveAction::<Seq<char>>::ReceiveNext),
        receive_next(ReceivePhase::Parsing, ReceiveEvent::<Seq<char>, Seq<u8>>::Malformed) == (ReceivePhase::Receiving, ReceiveAction::<Seq<char>>::ReceiveNext),
        (message is NodeError || message is NodeNotification) ==> receive_next(ReceivePhase::Parsing, ReceiveEvent::<Seq<char>, Seq<u8>>::Parsed { message, serialized }) == (
            ReceivePhase::Broadcasting,
            ReceiveAction::Broadcast { serialized, policy: DeliveryPolicy::StopAtFirstFailure },
        ),
        message matches WsMessage::PositionUpdate { exchange, api_key, data } ==> receive_next(ReceivePhase::Parsing, ReceiveEvent::<Seq<char>, Seq<u8>>::Parsed { message, serialized }) == (
            ReceivePhase::Broadcasting,
            ReceiveAction::StoreAndBroadcast {
                update: NodeUpdate { node: NodeId { api_key, exchange }, field: NodeField::Positions, data },
                serialized,
                policy: DeliveryPolicy::StopAtFirstFailure,
            },
        ),
        message matches WsMessage::BalanceUpdate { exchange, api_key, data } ==> receive_next(ReceivePhase::Parsing, ReceiveEvent::<Seq<char>, Seq<u8>>::Parsed { message, serialized }) == (
            ReceivePhase::Broadcasting,
            ReceiveAction::StoreAndBroadcast {
                update: NodeUpdate { node: NodeId { api_key, exchange }, field: NodeField::Balance, data },
                serialized,
                policy: DeliveryPolicy::StopAtFirstFailure,
            },
        ),
        message matches WsMessage::OpenOrdersUpdate { exchange, api_key, data } ==> receive_next(ReceivePhase::Parsing, ReceiveEvent::<Seq<char>, Seq<u8>>::Parsed { message, serialized }) == (
            ReceivePhase::Broadcasting,
            ReceiveAction::StoreAndBroadcast {
                update: NodeUpdate { node: NodeId { api_key, exchange }, field: NodeField::OpenOrders, data },
                serialized,
                policy: DeliveryPolicy::StopAtFirstFailure,
            },
        ),
        message matches WsMessage::LiquidationUpdate { exchange, api_key, data } ==> receive_next(ReceivePhase::Parsing, ReceiveEvent::<Seq<char>, Seq<u8>>::Parsed { message, serialized }) == (
            ReceivePhase::Broadcasting,
            ReceiveAction::StoreAndBroadcast {
                update: NodeUpdate { node: NodeId { api_key, exchange }, field: NodeField::Liquidations, data },
                serialized,
                policy: DeliveryPolicy::StopAtFirstFailure,
            },
        ),
        (message is Order || message is SetLeverage || message is Subscription || message is NodeConnected
            || message is NodeDisconnected || message is AccountCreated || message is AccountDeleted) ==> receive_next(ReceivePhase::Parsing, ReceiveEvent::<Seq<char>, Seq<u8>>::Parsed { message, serialized })
            == (ReceivePhase::Receiving, ReceiveAction::<Seq<char>>::ReceiveNext),
        receive_next(ReceivePhase::Broadcasting, ReceiveEvent::<Seq<char>, Seq<u8>>::Delivered) == (ReceivePhase::Receiving, ReceiveAction::<Seq<char>>::ReceiveNext),
        receive_next(ReceivePhase::Broadcasting, ReceiveEvent::<Seq<char>, Seq<u8>>::DeliveryFailed) == (ReceivePhase::Stopped, ReceiveAction::<Seq<char>>::Stop),
{
}

} // verus!
