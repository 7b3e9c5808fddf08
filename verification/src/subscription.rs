use vstd::prelude::*;
use vstd::string::StringExecFns;
use crate::config::{append_decimal, decimal, digit_char, digit_str};
use crate::message::{ClientType, Frame, Subscription, WsMessage, spec_client_type};

verus! {

/// Where the opening handshake of a connection stands.
pub enum HandshakePhase<S> {
    /// Waiting for the peer's first frame.
    AwaitingFrame,
    /// The first frame's text is being parsed as a subscription.
    Parsing,
    /// The token of a client's subscription is being checked.
    Validating(Subscription<S>),
    /// The subscription is being confirmed to the peer.
    Responding(Subscription<S>),
    /// The handshake has ended.
    Done,
}

/// What happened since the last step of the handshake.
pub enum HandshakeEvent<S, B> {
    /// No frame came within the time allowed.
    TimedOut,
    /// The stream ended before any frame came.
    StreamEnded,
    /// Reading the stream failed.
    StreamFailed,
    /// The peer sent this frame.
    Received(Frame<S, B>),
    /// The text parsed as this subscription.
    Parsed(Subscription<S>),
    /// The text is no subscription, for this reason.
    Invalid(S),
    /// The client's token is valid.
    TokenAccepted,
    /// The client's token was refused, with this message.
    TokenRejected(S),
    /// The confirmation was sent.
    ResponseSent,
    /// Sending the confirmation failed, for this reason.
    ResponseFailed(S),
}

/// What the handshake asks to be done next.
pub enum HandshakeAction<S> {
    /// Parse this text as a subscription.
    Parse(S),
    /// Check this access token.
    ValidateToken(S),
    /// Send this message to the peer.
    SendResponse(WsMessage<S>),
    /// The handshake is over, with this outcome.
    Finish(Result<Subscription<S>, S>),
}

impl<S: View> View for HandshakePhase<S> {
    type V = HandshakePhase<S::V>;

    open spec fn view(&self) -> HandshakePhase<S::V> {
        match self {
            HandshakePhase::AwaitingFrame => HandshakePhase::AwaitingFrame,
            HandshakePhase::Parsing => HandshakePhase::Parsing,
            HandshakePhase::Validating(s) => HandshakePhase::Validating(s@),
            HandshakePhase::Responding(s) => HandshakePhase::Responding(s@),
            HandshakePhase::Done => HandshakePhase::Done,
        }
    }
}

impl<S: View, B: View> View for HandshakeEvent<S, B> {
    type V = HandshakeEvent<S::V, B::V>;

    open spec fn view(&self) -> HandshakeEvent<S::V, B::V> {
        match self {
            HandshakeEvent::TimedOut => HandshakeEvent::TimedOut,
            HandshakeEvent::StreamEnded => HandshakeEvent::StreamEnded,
            HandshakeEvent::StreamFailed => HandshakeEvent::StreamFailed,
            HandshakeEvent::Received(f) => HandshakeEvent::Received(f@),
            HandshakeEvent::Parsed(s) => HandshakeEvent::Parsed(s@),
            HandshakeEvent::Invalid(e) => HandshakeEvent::Invalid(e@),
            HandshakeEvent::TokenAccepted => HandshakeEvent::TokenAccepted,
            HandshakeEvent::TokenRejected(e) => HandshakeEvent::TokenRejected(e@),
            HandshakeEvent::ResponseSent => HandshakeEvent::ResponseSent,
            HandshakeEvent::ResponseFailed(e) => HandshakeEvent::ResponseFailed(e@),
        }
    }
}

impl<S: View> View for HandshakeAction<S> {
    type V = HandshakeAction<S::V>;

    open spec fn view(&self) -> HandshakeAction<S::V> {
        match self {
            HandshakeAction::Parse(t) => HandshakeAction::Parse(t@),
            HandshakeAction::ValidateToken(t) => HandshakeAction::ValidateToken(t@),
            HandshakeAction::SendResponse(m) => HandshakeAction::SendResponse(m@),
            HandshakeAction::Finish(Ok(s)) => HandshakeAction::Finish(Ok(s@)),
            HandshakeAction::Finish(Err(e)) => HandshakeAction::Finish(Err(e@)),
        }
    }
}

/// Which events can happen in a phase.
pub open spec fn handshake_accepts<S, B>(phase: HandshakePhase<S>, event: HandshakeEvent<S, B>) -> bool {
    match phase {
        HandshakePhase::AwaitingFrame => event is TimedOut || event is StreamEnded || event is StreamFailed
            || event is Received,
        HandshakePhase::Parsing => event is Parsed || event is Invalid,
        HandshakePhase::Validating(_) => event is TokenAccepted || event is TokenRejected,
        HandshakePhase::Responding(_) => event is ResponseSent || event is ResponseFailed,
        HandshakePhase::Done => false,
    }
}

/// The confirmation sent to a peer whose subscription was accepted.
pub open spec fn confirmation(t: ClientType) -> WsMessage<Seq<char>> {
    WsMessage::Subscription { status: "connected"@, client_type: t }
}

/// A span of time: whole seconds and the nanoseconds beyond them.
#[derive(PartialEq, Eq, Structural, Clone, Copy)]
pub struct Timeout {
    pub secs: u64,
    pub nanos: u32,
}

/// The last `w` decimal digits of `f`, with leading zeros.
pub open spec fn padded(f: nat, w: nat) -> Seq<char>
    decreases w,
{
    if w == 0 {
        Seq::empty()
    } else {
        padded(f / 10, (w - 1) as nat).push(digit_char(f % 10))
    }
}

/// The last `w` decimal digits of `f`, with leading zeros and without
/// trailing ones.
pub open spec fn trimmed(f: nat, w: nat) -> Seq<char>
    decreases w,
{
    if w > 0 && f % 10 == 0 {
        trimmed(f / 10, (w - 1) as nat)
    } else {
        padded(f, w)
    }
}

/// The fractional part `f` of a `w`-digit fraction: nothing when it is zero,
/// else a point and its digits without trailing zeros.
pub open spec fn fraction(f: nat, w: nat) -> Seq<char> {
    if f == 0 {
        Seq::empty()
    } else {
        "."@ + trimmed(f, w)
    }
}

/// A span of time in the largest unit below which it has a whole part:
/// seconds, milliseconds, microseconds or nanoseconds, with every nonzero
/// digit of the fraction (so `5s`, `1.5s`, `250ms`, `0ns`).
pub open spec fn duration_text(t: Timeout) -> Seq<char> {
    if t.secs > 0 {
        decimal(t.secs as nat) + fraction(t.nanos as nat, 9) + "s"@
    } else if t.nanos >= 1_000_000 {
        decimal((t.nanos / 1_000_000) as nat) + fraction((t.nanos % 1_000_000) as nat, 6) + "ms"@
    } else if t.nanos >= 1_000 {
        decimal((t.nanos / 1_000) as nat) + fraction((t.nanos % 1_000) as nat, 3) + "\u{b5}s"@
    } else {
        decimal(t.nanos as nat) + "ns"@
    }
}

fn append_padded(s: &mut String, f: u32, w: u32)
    ensures
        final(s)@ == old(s)@ + padded(f as nat, w as nat),
    decreases w,
{
    if w > 0 {
        append_padded(s, f / 10, w - 1);
        s.append(digit_str((f % 10) as u64));
    }
}

fn append_trimmed(s: &mut String, f: u32, w: u32)
    ensures
        final(s)@ == old(s)@ + trimmed(f as nat, w as nat),
    decreases w,
{
    if w > 0 && f % 10 == 0 {
        append_trimmed(s, f / 10, w - 1);
    } else {
        append_padded(s, f, w);
    }
}

fn append_fraction(s: &mut String, f: u32, w: u32)
    ensures
        final(s)@ == old(s)@ + fraction(f as nat, w as nat),
{
    if f != 0 {
        s.append(".");
        append_trimmed(s, f, w);
    } else {
        assert(old(s)@ + fraction(f as nat, w as nat) =~= old(s)@);
    }
}

/// Appends the text of the span `t` to `s`.
pub fn append_duration(s: &mut String, t: Timeout)
    ensures
        final(s)@ == old(s)@ + duration_text(t),
{
    if t.secs > 0 {
        append_decimal(s, t.secs);
        append_fraction(s, t.nanos, 9);
        s.append("s");
    } else if t.nanos >= 1_000_000 {
        append_decimal(s, (t.nanos / 1_000_000) as u64);
        append_fraction(s, t.nanos % 1_000_000, 6);
        s.append("ms");
    } else if t.nanos >= 1_000 {
        append_decimal(s, (t.nanos / 1_000) as u64);
        append_fraction(s, t.nanos % 1_000, 3);
        s.append("\u{b5}s");
    } else {
        append_decimal(s, t.nanos as u64);
        s.append("ns");
    }
}

pub open spec fn timeout_error(who: Seq<char>, timeout: Timeout) -> Seq<char> {
    "did not receive subscription from "@ + who + " within "@ + duration_text(timeout)
}

pub open spec fn not_text_error(who: Seq<char>) -> Seq<char> {
    "client "@ + who + " sent a message other than text"@
}

pub open spec fn disconnected_error(who: Seq<char>) -> Seq<char> {
    "client "@ + who + " abruptly disconnected"@
}

pub open spec fn invalid_error(who: Seq<char>, reason: Seq<char>) -> Seq<char> {
    "client "@ + who + " sent an invalid subscription message: "@ + reason
}

pub open spec fn response_error(who: Seq<char>, reason: Seq<char>) -> Seq<char> {
    "failed to send subscription response to "@ + who + ": "@ + reason
}

pub open spec fn fail(e: Seq<char>) -> (HandshakePhase<Seq<char>>, HandshakeAction<Seq<char>>) {
    (HandshakePhase::Done, HandshakeAction::Finish(Err(e)))
}

/// One step of the handshake with the peer `who`, who has `timeout` to
/// send its first frame. That frame must be text holding a subscription; a
/// client's access token must then be accepted; the subscription is
/// confirmed to the peer, and it is the outcome once the confirmation is
/// sent. Anything else ends the handshake with an error that says what went
/// wrong.
pub open spec fn handshake_next(
    who: Seq<char>,
    timeout: Timeout,
    phase: HandshakePhase<Seq<char>>,
    event: HandshakeEvent<Seq<char>, Seq<u8>>,
) -> (HandshakePhase<Seq<char>>, HandshakeAction<Seq<char>>) {
    match (phase, event) {
        (HandshakePhase::AwaitingFrame, HandshakeEvent::TimedOut) => fail(timeout_error(who, timeout)),
        (HandshakePhase::AwaitingFrame, HandshakeEvent::StreamEnded) => fail(Seq::empty()),
        (HandshakePhase::AwaitingFrame, HandshakeEvent::StreamFailed) => fail(disconnected_error(who)),
        (HandshakePhase::AwaitingFrame, HandshakeEvent::Received(Frame::Text(t))) => (
            HandshakePhase::Parsing,
            HandshakeAction::Parse(t),
        ),
        (HandshakePhase::AwaitingFrame, _) => fail(not_text_error(who)),
        (HandshakePhase::Parsing, HandshakeEvent::Parsed(s)) => match s {
            Subscription::Client { access_token } => (
                HandshakePhase::Validating(s),
                HandshakeAction::ValidateToken(access_token),
            ),
            Subscription::Node { .. } => (
                HandshakePhase::Responding(s),
                HandshakeAction::SendResponse(confirmation(ClientType::Node)),
            ),
        },
        (HandshakePhase::Parsing, HandshakeEvent::Invalid(e)) => fail(invalid_error(who, e)),
        (HandshakePhase::Validating(s), HandshakeEvent::TokenAccepted) => (
            HandshakePhase::Responding(s),
            HandshakeAction::SendResponse(confirmation(spec_client_type(s))),
        ),
        (HandshakePhase::Validating(_), HandshakeEvent::TokenRejected(e)) => fail(e),
        (HandshakePhase::Responding(s), HandshakeEvent::ResponseSent) => (
            HandshakePhase::Done,
            HandshakeAction::Finish(Ok(s)),
        ),
        (HandshakePhase::Responding(_), HandshakeEvent::ResponseFailed(e)) => fail(response_error(who, e)),
        _ => fail(Seq::empty()),
    }
}

fn concat3(a: &str, b: &str, c: &str) -> (s: String)
    ensures
        s@ == a@ + b@ + c@,
{
    let mut s = String::from_str(a);
    s.append(b);
    s.append(c);
    s
}

fn failed(e: String) -> (r: (HandshakePhase<String>, HandshakeAction<String>))
    ensures
        (r.0@, r.1@) == fail(e@),
{
    (HandshakePhase::Done, HandshakeAction::Finish(Err(e)))
}

fn confirm(t: ClientType) -> (m: WsMessage<String>)
    ensures
        m@ == confirmation(t),
{
    WsMessage::Subscription { status: String::from_str("connected"), client_type: t }
}

/// The opening handshake of one connection.
pub struct Handshake {
    who: String,
    timeout: Timeout,
    phase: HandshakePhase<String>,
}

impl Handshake {
    /// The peer.
    pub closed spec fn who(&self) -> Seq<char> {
        self.who@
    }

    /// The time the peer has to send its first frame.
    pub closed spec fn timeout(&self) -> Timeout {
        self.timeout
    }

    /// Where the handshake stands.
    pub closed spec fn phase(&self) -> HandshakePhase<Seq<char>> {
        self.phase@
    }

    /// A handshake with `who`, waiting up to `timeout` for its
    /// first frame.
    pub fn new(who: String, timeout: Timeout) -> (h: Handshake)
        ensures
            h.who() == who@,
            h.timeout() == timeout,
            h.phase() == HandshakePhase::<Seq<char>>::AwaitingFrame,
    {
        Handshake { who, timeout, phase: HandshakePhase::AwaitingFrame }
    }

    /// Whether `event` can happen now.
    pub fn accepts(&self, event: &HandshakeEvent<String, Vec<u8>>) -> (b: bool)
        ensures
            b == handshake_accepts(self.phase(), event@),
    {
        match (&self.phase, event) {
            (HandshakePhase::AwaitingFrame, HandshakeEvent::TimedOut) => true,
            (HandshakePhase::AwaitingFrame, HandshakeEvent::StreamEnded) => true,
            (HandshakePhase::AwaitingFrame, HandshakeEvent::StreamFailed) => true,
            (HandshakePhase::AwaitingFrame, HandshakeEvent::Received(_)) => true,
            (HandshakePhase::Parsing, HandshakeEvent::Parsed(_)) => true,
            (HandshakePhase::Parsing, HandshakeEvent::Invalid(_)) => true,
            (HandshakePhase::Validating(_), HandshakeEvent::TokenAccepted) => true,
            (HandshakePhase::Validating(_), HandshakeEvent::TokenRejected(_)) => true,
            (HandshakePhase::Responding(_), HandshakeEvent::ResponseSent) => true,
            (HandshakePhase::Responding(_), HandshakeEvent::ResponseFailed(_)) => true,
            _ => false,
        }
    }

    /// Takes in what happened and says what to do next.
    pub fn step(&mut self, event: HandshakeEvent<String, Vec<u8>>) -> (a: HandshakeAction<String>)
        requires
            handshake_accepts(old(self).phase(), event@),
        ensures
            final(self).who() == old(self).who(),
            final(self).timeout() == old(self).timeout(),
            (final(self).phase(), a@) == handshake_next(old(self).who(), old(self).timeout(), old(self).phase(), event@),
    {
        let mut phase = HandshakePhase::Done;
        std::mem::swap(&mut phase, &mut self.phase);
        let (next, action) = match (phase, event) {
            (HandshakePhase::AwaitingFrame, HandshakeEvent::TimedOut) => {
                let mut e = concat3("did not receive subscription from ", self.who.as_str(), " within ");
                append_duration(&mut e, self.timeout);
                failed(e)
            },
            (HandshakePhase::AwaitingFrame, HandshakeEvent::StreamEnded) => {
                let e = String::new();
                failed(e)
            },
            (HandshakePhase::AwaitingFrame, HandshakeEvent::StreamFailed) => {
                failed(concat3("client ", self.who.as_str(), " abruptly disconnected"))
            },
            (HandshakePhase::AwaitingFrame, HandshakeEvent::Received(Frame::Text(t))) => {
                (HandshakePhase::Parsing, HandshakeAction::Parse(t))
            },
            (HandshakePhase::AwaitingFrame, _) => {
                failed(concat3("client ", self.who.as_str(), " sent a message other than text"))
            },
            (HandshakePhase::Parsing, HandshakeEvent::Parsed(s)) => {
                match s {
                    Subscription::Client { access_token } => {
                        let token = access_token.clone();
                        (HandshakePhase::Validating(Subscription::Client { access_token }), HandshakeAction::ValidateToken(token))
                    },
                    Subscription::Node { api_key, exchange, public_ip } => (
                        HandshakePhase::Responding(Subscription::Node { api_key, exchange, public_ip }),
                        HandshakeAction::SendResponse(confirm(ClientType::Node)),
                    ),
                }
            },
            (HandshakePhase::Parsing, HandshakeEvent::Invalid(e)) => {
                let mut m = concat3("client ", self.who.as_str(), " sent an invalid subscription message: ");
                m.append(e.as_str());
                failed(m)
            },
            (HandshakePhase::Validating(s), HandshakeEvent::TokenAccepted) => {
                let t = s.client_type();
                (HandshakePhase::Responding(s), HandshakeAction::SendResponse(confirm(t)))
            },
            (HandshakePhase::Validating(_), HandshakeEvent::TokenRejected(e)) => failed(e),
            (HandshakePhase::Responding(s), HandshakeEvent::ResponseSent) => {
                (HandshakePhase::Done, HandshakeAction::Finish(Ok(s)))
            },
            (HandshakePhase::Responding(_), HandshakeEvent::ResponseFailed(e)) => {
                let mut m = concat3("failed to send subscription response to ", self.who.as_str(), ": ");
                m.append(e.as_str());
                failed(m)
            },
            _ => failed(String::new()),
        };
        self.phase = next;
        action
    }
}

/// A subscription is only ever the outcome once it has been confirmed to the
/// peer, and it is the one the peer sent.
pub proof fn lemma_success_only_after_confirmation(
    who: Seq<char>,
    timeout: Timeout,
    phase: HandshakePhase<Seq<char>>,
    event: HandshakeEvent<Seq<char>, Seq<u8>>,
)
    requires
        handshake_accepts(phase, event),
        handshake_next(who, timeout, phase, event).1 matches HandshakeAction::Finish(Ok(_)),
    ensures
        event is ResponseSent,
        phase matches HandshakePhase::Responding(s) && handshake_next(who, timeout, phase, event).1
            == HandshakeAction::<Seq<char>>::Finish(Ok(s)),
{
}

/// A client's subscription is confirmed only after its token was accepted;
/// a node's is confirmed as soon as it is parsed. The confirmation names the
/// kind of peer.
pub proof fn lemma_clients_need_a_valid_token(
    who: Seq<char>,
    timeout: Timeout,
    phase: HandshakePhase<Seq<char>>,
    event: HandshakeEvent<Seq<char>, Seq<u8>>,
)
    requires
        handshake_accepts(phase, event),
        handshake_next(who, timeout, phase, event).0 matches HandshakePhase::Responding(s),
    ensures
        handshake_next(who, timeout, phase, event).0 matches HandshakePhase::Responding(s) && {
            &&& s is Client ==> phase is Validating && event is TokenAccepted
            &&& handshake_next(who, timeout, phase, event).1 == HandshakeAction::SendResponse(
                confirmation(spec_client_type(s)),
            )
        },
{
}

/// Once the handshake has an outcome it takes in no further event.
pub proof fn lemma_finishes_once(
    who: Seq<char>,
    timeout: Timeout,
    phase: HandshakePhase<Seq<char>>,
    event: HandshakeEvent<Seq<char>, Seq<u8>>,
)
    requires
        handshake_accepts(phase, event),
    ensures
        (handshake_next(who, timeout, phase, event).0 is Done) <==> (handshake_next(who, timeout, phase, event).1 is Finish),
        forall|e: HandshakeEvent<Seq<char>, Seq<u8>>| handshake_next(who, timeout, phase, event).0 is Done
            ==> !handshake_accepts(handshake_next(who, timeout, phase, event).0, e),
{
}


/// What each step of the handshake does, for every peer, time limit,
/// subscription and text: the first frame must be text and is parsed; a
/// node's subscription is confirmed at once and a client's after its token is
/// accepted, the confirmation naming the kind of peer; the outcome is the very
/// subscription the peer sent; every failure ends the handshake with its own
/// message.
pub proof fn lemma_handshake_steps(
    who: Seq<char>,
    t: Timeout,
    s: Subscription<Seq<char>>,
    text: Seq<char>,
    reason: Seq<char>,
    frame: Frame<Seq<char>, Seq<u8>>,
)
    ensures
        handshake_next(who, t, HandshakePhase::AwaitingFrame, HandshakeEvent::TimedOut) == (
            HandshakePhase::<Seq<char>>::Done,
            HandshakeAction::Finish(Err("did not receive subscription from "@ + who + " within "@ + duration_text(t))),
        ),
        handshake_next(who, t, HandshakePhase::AwaitingFrame, HandshakeEvent::<Seq<char>, Seq<u8>>::StreamEnded) == (
            HandshakePhase::<Seq<char>>::Done,
            HandshakeAction::<Seq<char>>::Finish(Err(Seq::empty())),
        ),
        handshake_next(who, t, HandshakePhase::AwaitingFrame, HandshakeEvent::<Seq<char>, Seq<u8>>::StreamFailed) == (
            HandshakePhase::<Seq<char>>::Done,
            HandshakeAction::<Seq<char>>::Finish(Err("client "@ + who + " abruptly disconnected"@)),
        ),
        handshake_next(who, t, HandshakePhase::AwaitingFrame, HandshakeEvent::Received(Frame::Text(text))) == (
            HandshakePhase::<Seq<char>>::Parsing,
            HandshakeAction::Parse(text),
        ),
        !(frame is Text) ==> handshake_next(who, t, HandshakePhase::AwaitingFrame, HandshakeEvent::Received(frame)) == (
            HandshakePhase::<Seq<char>>::Done,
            HandshakeAction::<Seq<char>>::Finish(Err("client "@ + who + " sent a message other than text"@)),
        ),
        s is Node ==> handshake_next(who, t, HandshakePhase::Parsing, HandshakeEvent::<Seq<char>, Seq<u8>>::Parsed(s)) == (
            HandshakePhase::Responding(s),
            HandshakeAction::SendResponse(WsMessage::Subscription { status: "connected"@, client_type: ClientType::Node }),
        ),
        s matches Subscription::Client { access_token } ==> handshake_next(
            who,
            t,
            HandshakePhase::Parsing,
            HandshakeEvent::<Seq<char>, Seq<u8>>::Parsed(s),
        ) == (HandshakePhase::Validating(s), HandshakeAction::ValidateToken(access_token)),
        handshake_next(who, t, HandshakePhase::Parsing, HandshakeEvent::<Seq<char>, Seq<u8>>::Invalid(reason)) == (
            HandshakePhase::<Seq<char>>::Done,
            HandshakeAction::<Seq<char>>::Finish(Err("client "@ + who + " sent an invalid subscription message: "@ + reason)),
        ),
        handshake_next(who, t, HandshakePhase::Validating(s), HandshakeEvent::<Seq<char>, Seq<u8>>::TokenAccepted) == (
            HandshakePhase::Responding(s),
            HandshakeAction::SendResponse(WsMessage::Subscription {
                status: "connected"@,
                client_type: if s is Client { ClientType::Client } else { ClientType::Node },
            }),
        ),
        handshake_next(who, t, HandshakePhase::Validating(s), HandshakeEvent::<Seq<char>, Seq<u8>>::TokenRejected(reason)) == (
            HandshakePhase::<Seq<char>>::Done,
            HandshakeAction::<Seq<char>>::Finish(Err(reason)),
        ),
        handshake_next(who, t, HandshakePhase::Responding(s), HandshakeEvent::<Seq<char>, Seq<u8>>::ResponseSent) == (
            HandshakePhase::<Seq<char>>::Done,
            HandshakeAction::Finish(Ok(s)),
        ),
        handshake_next(who, t, HandshakePhase::Responding(s), HandshakeEvent::<Seq<char>, Seq<u8>>::ResponseFailed(reason)) == (
            HandshakePhase::<Seq<char>>::Done,
            HandshakeAction::<Seq<char>>::Finish(Err("failed to send subscription response to "@ + who + ": "@ + reason)),
        ),
{
}

/// The value of a sequence of decimal digits.
pub open spec fn digits_value(d: Seq<char>) -> int
    decreases d.len(),
{
    if d.len() == 0 {
        0
    } else {
        digits_value(d.drop_last()) * 10 + (d.last() as int - '0' as int)
    }
}

proof fn lemma_digit_value(d: nat)
    requires
        d < 10,
    ensures
        digit_char(d) as int - '0' as int == d,
        '0' <= digit_char(d) <= '9',
{
    assert('1' as int - '0' as int == 1);
    assert('2' as int - '0' as int == 2);
    assert('3' as int - '0' as int == 3);
    assert('4' as int - '0' as int == 4);
    assert('5' as int - '0' as int == 5);
    assert('6' as int - '0' as int == 6);
    assert('7' as int - '0' as int == 7);
    assert('8' as int - '0' as int == 8);
    assert('9' as int - '0' as int == 9);
}

/// The decimal notation of a number is made of digits, starts with a zero
/// only for zero itself, and reads back as the number.
pub proof fn lemma_decimal_reads_back(n: nat)
    ensures
        decimal(n).len() > 0,
        forall|i: int| 0 <= i < decimal(n).len() ==> '0' <= #[trigger] decimal(n)[i] <= '9',
        decimal(n)[0] == '0' ==> n == 0,
        digits_value(decimal(n)) == n,
    decreases n,
{
    if n >= 10 {
        lemma_decimal_reads_back(n / 10);
        lemma_digit_value(n % 10);
        let d = decimal(n);
        assert(d.drop_last() =~= decimal(n / 10));
        assert(d.last() == digit_char(n % 10));
        assert(d[0] == decimal(n / 10)[0]);
        assert(digits_value(d) == digits_value(decimal(n / 10)) * 10 + (n % 10));
        assert((n / 10) * 10 + n % 10 == n);
    } else {
        lemma_digit_value(n);
        assert(decimal(n).drop_last() =~= Seq::<char>::empty());
        assert(decimal(n).last() == digit_char(n));
        assert(digits_value(decimal(n)) == digits_value(decimal(n).drop_last()) * 10 + (decimal(n).last() as int - '0' as int));
    }
}

/// A whole number of seconds reads as its decimal and `s`; no time at all
/// reads `0ns`; a span under a second reads in milliseconds, microseconds or
/// nanoseconds, whichever is the largest unit it has a whole number of.
pub proof fn lemma_duration_text(secs: u64, nanos: u32)
    ensures
        secs > 0 ==> duration_text(Timeout { secs, nanos: 0 }) == decimal(secs as nat) + "s"@,
        duration_text(Timeout { secs: 0, nanos: 0 }) == decimal(0) + "ns"@,
        decimal(0) == seq!['0'],
        secs == 0 && nanos >= 1_000_000 && nanos % 1_000_000 == 0 ==> duration_text(Timeout { secs, nanos })
            == decimal((nanos / 1_000_000) as nat) + "ms"@,
        secs == 0 && nanos < 1_000 ==> duration_text(Timeout { secs, nanos }) == decimal(nanos as nat) + "ns"@,
{
    assert(fraction(0, 9) =~= Seq::<char>::empty());
    assert(fraction(0, 6) =~= Seq::<char>::empty());
    assert(decimal(secs as nat) + fraction(0, 9) =~= decimal(secs as nat));
    assert(decimal((nanos / 1_000_000) as nat) + fraction(0, 6) =~= decimal((nanos / 1_000_000) as nat));
}

} // verus!
