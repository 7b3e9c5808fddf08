use vstd::prelude::*;
use vstd::string::StringExecFns;
use crate::message::{CloseFrame, NORMAL_CLOSURE};

verus! {

/// How many times a failed send is retried before the connection is given up.
pub const MAX_RETRIES: u32 = 5;

/// How long to wait before a failed send is retried, in milliseconds.
pub const RETRY_DELAY_MILLIS: u64 = 100;

/// The reason given to a peer whose outgoing queue was closed.
pub open spec fn queue_closed_reason() -> Seq<char> {
    "Buffer was full on server-side, reconnect required"@
}

/// The frame that closes a connection normally, with the given reason.
pub fn close_frame(reason: &str) -> (f: CloseFrame<String>)
    ensures
        f.code == NORMAL_CLOSURE,
        f.reason@ == reason@,
{
    CloseFrame { code: NORMAL_CLOSURE, reason: String::from_str(reason) }
}

/// Where the send loop of a connection stands.
#[derive(PartialEq, Eq, Structural, Clone, Copy)]
pub enum ForwardPhase {
    /// Waiting for the next message of the outgoing queue.
    Waiting,
    /// A message is being sent to the peer.
    Sending,
    /// The loop has ended.
    Stopped,
}

/// What happened since the last step of the send loop, where `M` is the type
/// of the messages sent.
pub enum ForwardEvent<M> {
    /// The queue handed out this message.
    Queued(M),
    /// The queue is closed and empty.
    QueueClosed,
    /// The pending message was sent.
    Sent,
    /// Sending the pending message failed.
    SendFailed,
}

/// What the send loop asks to be done next.
pub enum ForwardAction<S> {
    /// Wait for the next message of the queue.
    ReceiveNext,
    /// Send the current message.
    Send,
    /// Wait this long, then send the current message again.
    RetryAfter { millis: u64 },
    /// Send this close frame to the peer, then stop.
    Close(CloseFrame<S>),
    /// Stop without a word to the peer.
    Stop,
}

impl<S: View> View for ForwardAction<S> {
    type V = ForwardAction<S::V>;

    open spec fn view(&self) -> ForwardAction<S::V> {
        match self {
            ForwardAction::ReceiveNext => ForwardAction::ReceiveNext,
            ForwardAction::Send => ForwardAction::Send,
            ForwardAction::RetryAfter { millis } => ForwardAction::RetryAfter { millis: *millis },
            ForwardAction::Close(f) => ForwardAction::Close(f@),
            ForwardAction::Stop => ForwardAction::Stop,
        }
    }
}

/// The state of the send loop: its phase, how many times the pending message
/// has been retried, and the message being sent, if any.
pub struct ForwardState<M> {
    pub phase: ForwardPhase,
    pub retries: u32,
    pub pending: Option<M>,
}

/// Which events can happen in a phase.
pub open spec fn forward_accepts<M>(phase: ForwardPhase, event: ForwardEvent<M>) -> bool {
    match phase {
        ForwardPhase::Waiting => event is Queued || event is QueueClosed,
        ForwardPhase::Sending => event is Sent || event is SendFailed,
        ForwardPhase::Stopped => false,
    }
}

/// One step of the send loop: the next state and the next action. A queued
/// message becomes the pending one and is sent; a closed queue closes the
/// connection with a normal close frame; a failed send is retried, with the
/// same pending message, after a pause until it has been retried
/// `MAX_RETRIES` times, and the next failure ends the loop; a successful send
/// clears the pending message and resets the retry count.
pub open spec fn forward_next<M>(s: ForwardState<M>, event: ForwardEvent<M>) -> (ForwardState<M>, ForwardAction<Seq<char>>) {
    match (s.phase, event) {
        (ForwardPhase::Waiting, ForwardEvent::Queued(m)) => (
            ForwardState { phase: ForwardPhase::Sending, retries: s.retries, pending: Some(m) },
            ForwardAction::Send,
        ),
        (ForwardPhase::Waiting, ForwardEvent::QueueClosed) => (
            ForwardState { phase: ForwardPhase::Stopped, ..s },
            ForwardAction::Close(CloseFrame { code: NORMAL_CLOSURE, reason: queue_closed_reason() }),
        ),
        (ForwardPhase::Sending, ForwardEvent::Sent) => (
            ForwardState { phase: ForwardPhase::Waiting, retries: 0, pending: None },
            ForwardAction::ReceiveNext,
        ),
        (ForwardPhase::Sending, ForwardEvent::SendFailed) => if s.retries == MAX_RETRIES {
            (ForwardState { phase: ForwardPhase::Stopped, ..s }, ForwardAction::Stop)
        } else {
            (
                ForwardState { retries: (s.retries + 1) as u32, ..s },
                ForwardAction::RetryAfter { millis: RETRY_DELAY_MILLIS },
            )
        },
        _ => (s, ForwardAction::Stop),
    }
}

/// The send loop of one connection.
pub struct Forwarder<M> {
    phase: ForwardPhase,
    retries: u32,
    pending: Option<M>,
}

impl<M> View for Forwarder<M> {
    type V = ForwardState<M>;

    closed spec fn view(&self) -> ForwardState<M> {
        ForwardState { phase: self.phase, retries: self.retries, pending: self.pending }
    }
}

impl<M> Forwarder<M> {
    #[verifier::type_invariant]
    spec fn bounded(self) -> bool {
        &&& self.retries <= MAX_RETRIES
        &&& self.phase == ForwardPhase::Sending ==> self.pending is Some
    }

    /// The phase of the loop.
    pub open spec fn phase(&self) -> ForwardPhase {
        self@.phase
    }

    /// How many times the pending message has been retried.
    pub open spec fn retries(&self) -> u32 {
        self@.retries
    }

    /// The message being sent, if any.
    pub open spec fn pending(&self) -> Option<M> {
        self@.pending
    }

    /// A loop that waits for its first message.
    pub fn new() -> (f: Forwarder<M>)
        ensures
            f@ == (ForwardState::<M> { phase: ForwardPhase::Waiting, retries: 0, pending: None }),
    {
        Forwarder { phase: ForwardPhase::Waiting, retries: 0, pending: None }
    }

    /// The phase of the loop.
    pub fn current_phase(&self) -> (p: ForwardPhase)
        ensures
            p == self.phase(),
    {
        self.phase
    }

    /// The message to send when the loop asks for a send or a retry.
    pub fn pending_message(&self) -> (m: Option<&M>)
        ensures
            m == match self.pending() {
                Some(p) => Some(&p),
                None => None::<&M>,
            },
            self.phase() == ForwardPhase::Sending ==> m is Some,
    {
        proof { use_type_invariant(self); }
        self.pending.as_ref()
    }

    /// Whether `event` can happen now.
    pub fn accepts(&self, event: &ForwardEvent<M>) -> (b: bool)
        ensures
            b == forward_accepts(self.phase(), *event),
    {
        match (self.phase, event) {
            (ForwardPhase::Waiting, ForwardEvent::Queued(_)) => true,
            (ForwardPhase::Waiting, ForwardEvent::QueueClosed) => true,
            (ForwardPhase::Sending, ForwardEvent::Sent) => true,
            (ForwardPhase::Sending, ForwardEvent::SendFailed) => true,
            _ => false,
        }
    }

    /// Takes in what happened and says what to do next.
    pub fn step(&mut self, event: ForwardEvent<M>) -> (a: ForwardAction<String>)
        requires
            forward_accepts(old(self).phase(), event),
        ensures
            (final(self)@, a@) == forward_next(old(self)@, event),
            final(self).retries() <= MAX_RETRIES,
    {
        proof { use_type_invariant(&*self); }
        match event {
            ForwardEvent::Queued(m) => {
                self.pending = Some(m);
                self.phase = ForwardPhase::Sending;
                ForwardAction::Send
            },
            ForwardEvent::QueueClosed => {
                self.phase = ForwardPhase::Stopped;
                let f = close_frame("Buffer was full on server-side, reconnect required");
                ForwardAction::Close(f)
            },
            ForwardEvent::Sent => {
                self.phase = ForwardPhase::Waiting;
                self.retries = 0;
                self.pending = None;
                ForwardAction::ReceiveNext
            },
            ForwardEvent::SendFailed => {
                if self.retries == MAX_RETRIES {
                    self.phase = ForwardPhase::Stopped;
                    ForwardAction::Stop
                } else {
                    self.retries = self.retries + 1;
                    ForwardAction::RetryAfter { millis: RETRY_DELAY_MILLIS }
                }
            },
        }
    }
}

/// The state of the loop, and its last action, after the message `m` met
/// `n` failed sends in a row.
pub open spec fn after_failures<M>(m: M, n: nat) -> (ForwardState<M>, ForwardAction<Seq<char>>)
    decreases n,
{
    if n == 0 {
        (ForwardState { phase: ForwardPhase::Sending, retries: 0, pending: Some(m) }, ForwardAction::Send)
    } else {
        let before = after_failures(m, (n - 1) as nat);
        if before.0.phase == ForwardPhase::Sending {
            forward_next(before.0, ForwardEvent::SendFailed)
        } else {
            before
        }
    }
}

/// A message is tried at most `MAX_RETRIES + 1` times, and always the same
/// message: each of the first `MAX_RETRIES` failures is followed by a retry of
/// it after the pause, and the next failure ends the loop without a close
/// frame.
pub proof fn lemma_retries_then_gives_up<M>(m: M, n: nat)
    requires
        n <= MAX_RETRIES + 1,
    ensures
        1 <= n <= MAX_RETRIES ==> after_failures(m, n) == (
            ForwardState { phase: ForwardPhase::Sending, retries: n as u32, pending: Some(m) },
            ForwardAction::<Seq<char>>::RetryAfter { millis: RETRY_DELAY_MILLIS },
        ),
        n == MAX_RETRIES + 1 ==> after_failures(m, n) == (
            ForwardState { phase: ForwardPhase::Stopped, retries: MAX_RETRIES, pending: Some(m) },
            ForwardAction::<Seq<char>>::Stop,
        ),
    decreases n,
{
    if n > 0 {
        lemma_retries_then_gives_up(m, (n - 1) as nat);
        assert(after_failures(m, 0) == (
            ForwardState { phase: ForwardPhase::Sending, retries: 0u32, pending: Some(m) },
            ForwardAction::<Seq<char>>::Send,
        ));
    }
}

/// The state of the send loop after the first `n` events of `events`,
/// started in `start`.
pub open spec fn state_after<M>(start: ForwardState<M>, events: Seq<ForwardEvent<M>>, n: nat) -> ForwardState<M>
    decreases n,
{
    if n == 0 {
        start
    } else {
        forward_next(state_after(start, events, (n - 1) as nat), events[n - 1]).0
    }
}

/// Every event of the run can happen when it comes.
pub open spec fn accepted_forward_run<M>(start: ForwardState<M>, events: Seq<ForwardEvent<M>>) -> bool {
    forall|n: nat| n < events.len() ==> forward_accepts(#[trigger] state_after(start, events, n).phase, events[n as int])
}

proof fn lemma_pending_until_sent<M>(start: ForwardState<M>, events: Seq<ForwardEvent<M>>, i: nat, m: M, n: nat)
    requires
        accepted_forward_run(start, events),
        i < n <= events.len(),
        events[i as int] == ForwardEvent::Queued(m),
        forall|k: int| i < k < n ==> !(events[k] is Sent),
    ensures
        state_after(start, events, n).phase == ForwardPhase::Sending || state_after(start, events, n).phase
            == ForwardPhase::Stopped,
        state_after(start, events, n).pending == Some(m),
    decreases n,
{
    if n > i + 1 {
        lemma_pending_until_sent(start, events, i, m, (n - 1) as nat);
        let p = (n - 1) as nat;
        assert(!(events[p as int] is Sent));
        if state_after(start, events, p).phase == ForwardPhase::Sending {
            assert(forward_accepts(state_after(start, events, p).phase, events[p as int]));
        }
    } else {
        assert(forward_accepts(state_after(start, events, i).phase, events[i as int]));
    }
}

/// Messages go out one at a time and in the order they were queued: from
/// the moment a message is queued until it has been sent, every send and
/// every retry is of that message, and no further message is taken from the
/// queue.
pub proof fn lemma_one_message_at_a_time<M>(start: ForwardState<M>, events: Seq<ForwardEvent<M>>, i: nat, m: M, n: nat)
    requires
        accepted_forward_run(start, events),
        i < n <= events.len(),
        events[i as int] == ForwardEvent::Queued(m),
        forall|k: int| i < k < n ==> !(events[k] is Sent),
    ensures
        state_after(start, events, n).pending == Some(m),
        n < events.len() ==> !(events[n as int] is Queued),
{
    lemma_pending_until_sent(start, events, i, m, n);
    if n < events.len() {
        assert(forward_accepts(state_after(start, events, n).phase, events[n as int]));
    }
}


/// What each step of the send loop does, for every state and message: a
/// queued message becomes the one being sent, with the retry count kept; a
/// closed queue closes the connection normally with its reason; a sent
/// message is dropped and the count reset; a failed send is retried after
/// the pause, with the same message, until it has been retried five times,
/// and the next failure ends the loop.
pub proof fn lemma_forward_steps<M>(s: ForwardState<M>, m: M)
    ensures
        s.phase == ForwardPhase::Waiting ==> forward_next(s, ForwardEvent::Queued(m)) == (
            ForwardState { phase: ForwardPhase::Sending, retries: s.retries, pending: Some(m) },
            ForwardAction::<Seq<char>>::Send,
        ),
        s.phase == ForwardPhase::Waiting ==> forward_next(s, ForwardEvent::QueueClosed) == (
            ForwardState { phase: ForwardPhase::Stopped, retries: s.retries, pending: s.pending },
            ForwardAction::Close(CloseFrame { code: 1000, reason: "Buffer was full on server-side, reconnect required"@ }),
        ),
        s.phase == ForwardPhase::Sending ==> forward_next(s, ForwardEvent::Sent) == (
            ForwardState::<M> { phase: ForwardPhase::Waiting, retries: 0, pending: None },
            ForwardAction::<Seq<char>>::ReceiveNext,
        ),
        s.phase == ForwardPhase::Sending && s.retries < 5 ==> forward_next(s, ForwardEvent::SendFailed) == (
            ForwardState { phase: ForwardPhase::Sending, retries: (s.retries + 1) as u32, pending: s.pending },
            ForwardAction::<Seq<char>>::RetryAfter { millis: 100 },
        ),
        s.phase == ForwardPhase::Sending && s.retries == 5 ==> forward_next(s, ForwardEvent::SendFailed) == (
            ForwardState { phase: ForwardPhase::Stopped, retries: 5, pending: s.pending },
            ForwardAction::<Seq<char>>::Stop,
        ),
{
}

} // verus!
