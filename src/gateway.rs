//! The gateway session: the decisions of connection bring-up, heartbeats and
//! acknowledgements, sequence tracking, and resumption. The caller performs
//! the I/O and hands each event to the session, which says what to do next.
use vstd::prelude::*;
use crate::model::{
    Hello, Identify, IdentifyProperties, MessageReceived, Ready, Resume, User, WsPayload,
    WsPayloadUnknownOp,
};
use crate::text::{str_equal, trim_of};
use crate::ws::message::Message as WsMessage;
use crate::ws::{accepts, RequestKey, ResponseKey};
use vstd::utf8::encode_utf8;

verus! {

/// Whether two strings are equal, ignoring case as `unicase::UniCase` does.
pub uninterp spec fn caseless_eq(a: Seq<char>, b: Seq<char>) -> bool;

/// Relies on `unicase::UniCase`'s equality: ASCII strings compare with ASCII
/// case ignored, others by Unicode case folding.
#[verifier::external_body]
fn unicase_eq(a: &str, b: &str) -> (r: bool)
    ensures
        r == caseless_eq(a@, b@),
{
    unicase::UniCase::new(a) == unicase::UniCase::new(b)
}

/// The opcode of a dispatch's acknowledgement of a heartbeat.
pub const OP_HEARTBEAT_ACK: i32 = 11;

/// The close code by which the peer asks the client to resume.
pub const CLOSE_GOING_AWAY: u16 = 1001;

/// The HTTP status of a successful upgrade.
pub const SWITCHING_PROTOCOLS: u16 = 101;

/// One kind of event that the session asks the gateway for.
#[derive(Clone, Copy, Debug, PartialEq, Eq, Structural)]
pub enum Intent {
    Guilds,
    GuildMembers,
    GuildBans,
    GuildEmojis,
    GuildIntegrations,
    GuildWebhooks,
    GuildInvites,
    GuildVoiceStates,
    GuildPresences,
    GuildMessages,
    GuildMessageReactions,
    GuildMessageTyping,
    DirectMessages,
    DirectMessageReactions,
    DirectMessageTyping,
}

impl Intent {
    pub open spec fn spec_position(self) -> i32 {
        match self {
            Intent::Guilds => 0,
            Intent::GuildMembers => 1,
            Intent::GuildBans => 2,
            Intent::GuildEmojis => 3,
            Intent::GuildIntegrations => 4,
            Intent::GuildWebhooks => 5,
            Intent::GuildInvites => 6,
            Intent::GuildVoiceStates => 7,
            Intent::GuildPresences => 8,
            Intent::GuildMessages => 9,
            Intent::GuildMessageReactions => 10,
            Intent::GuildMessageTyping => 11,
            Intent::DirectMessages => 12,
            Intent::DirectMessageReactions => 13,
            Intent::DirectMessageTyping => 14,
        }
    }

    /// The bit that stands for this intent.
    pub fn bit(&self) -> (r: i32)
        ensures
            r == 1i32 << self.spec_position(),
    {
        let p: i32 = match *self {
            Intent::Guilds => 0,
            Intent::GuildMembers => 1,
            Intent::GuildBans => 2,
            Intent::GuildEmojis => 3,
            Intent::GuildIntegrations => 4,
            Intent::GuildWebhooks => 5,
            Intent::GuildInvites => 6,
            Intent::GuildVoiceStates => 7,
            Intent::GuildPresences => 8,
            Intent::GuildMessages => 9,
            Intent::GuildMessageReactions => 10,
            Intent::GuildMessageTyping => 11,
            Intent::DirectMessages => 12,
            Intent::DirectMessageReactions => 13,
            Intent::DirectMessageTyping => 14,
        };
        1i32 << p
    }
}

/// A set of intents, held as a bit mask.
#[derive(Clone, Copy, Debug, PartialEq, Eq, Structural)]
pub struct Intents {
    bits: i32,
}

impl Intents {
    pub closed spec fn spec_bits(&self) -> i32 {
        self.bits
    }

    pub fn empty() -> (r: Intents)
        ensures
            r.spec_bits() == 0,
    {
        Intents { bits: 0 }
    }

    /// This set with `intent` added.
    pub fn with(self, intent: Intent) -> (r: Intents)
        ensures
            r.spec_bits() == self.spec_bits() | (1i32 << intent.spec_position()),
    {
        Intents { bits: self.bits | intent.bit() }
    }

    pub fn contains(&self, intent: Intent) -> (r: bool)
        ensures
            r == (self.spec_bits() & (1i32 << intent.spec_position()) != 0),
    {
        self.bits & intent.bit() != 0
    }

    /// The mask that the identify payload carries.
    pub fn bits(&self) -> (r: i32)
        ensures
            r == self.spec_bits(),
    {
        self.bits
    }
}

/// Where a session stands.
#[derive(Clone, Copy, Debug, PartialEq, Eq, Structural)]
pub enum Phase {
    /// Before the first upgrade.
    Connecting,
    /// Upgraded; the hello that gives the heartbeat interval is awaited.
    AwaitingHello,
    /// Identify sent; the ready payload is awaited.
    Identifying,
    /// Events flow.
    Ready,
    /// The peer asked to resume: reconnect, keeping the session id and
    /// sequence.
    Resuming,
    /// The connection failed: reconnect and identify afresh.
    Reconnecting,
}

/// Why the session has to be started afresh.
#[derive(Clone, Copy, Debug, PartialEq, Eq, Structural)]
pub enum SessionError {
    /// A heartbeat was due while the previous one was still unacknowledged.
    NoAck,
    /// A frame that the session protocol has no use for.
    UnexpectedWebsocketResponse,
}

/// The session as the contracts see it.
pub struct SessionView {
    pub phase: Phase,
    pub token: Seq<char>,
    pub session_id: Option<Seq<char>>,
    pub user_id: Seq<char>,
    pub last_seq: u64,
    pub pending_ack: bool,
    pub heartbeat_interval: u64,
}

/// The state of one gateway session.
#[derive(Debug)]
pub struct Session {
    phase: Phase,
    token: String,
    session_id: Option<String>,
    user_id: String,
    last_seq: u64,
    pending_ack: bool,
    heartbeat_interval: u64,
}

impl View for Session {
    type V = SessionView;

    closed spec fn view(&self) -> SessionView {
        SessionView {
            phase: self.phase,
            token: self.token@,
            session_id: match self.session_id {
                Some(s) => Some(s@),
                None => None,
            },
            user_id: self.user_id@,
            last_seq: self.last_seq,
            pending_ack: self.pending_ack,
            heartbeat_interval: self.heartbeat_interval,
        }
    }
}

/// The session after a failure: it will identify afresh, so the session id
/// and the sequence are dropped; the token stays.
pub open spec fn discarded(v: SessionView) -> SessionView {
    SessionView { phase: Phase::Reconnecting, session_id: None, last_seq: 0, pending_ack: false, ..v }
}

/// A heartbeat tick: with the previous heartbeat unacknowledged the session
/// fails; otherwise a heartbeat carrying the last sequence is owed, and an
/// acknowledgement is then awaited.
pub open spec fn tick_spec(v: SessionView) -> (SessionView, Result<u64, SessionError>) {
    if v.pending_ack {
        (discarded(v), Err(SessionError::NoAck))
    } else {
        (SessionView { pending_ack: true, ..v }, Ok(v.last_seq))
    }
}

/// A decoded payload: its sequence, if any, moves the last sequence forward
/// (never back), and an acknowledgement clears the pending heartbeat.
pub open spec fn payload_spec(v: SessionView, op: i32, s: Option<u64>) -> SessionView {
    SessionView {
        last_seq: match s {
            Some(x) => if x > v.last_seq {
                x
            } else {
                v.last_seq
            },
            None => v.last_seq,
        },
        pending_ack: if op == OP_HEARTBEAT_ACK {
            false
        } else {
            v.pending_ack
        },
        ..v
    }
}

/// Payloads handled one after another.
pub open spec fn payloads_spec(v: SessionView, ps: Seq<(i32, Option<u64>)>) -> SessionView
    decreases ps.len(),
{
    if ps.len() == 0 {
        v
    } else {
        payloads_spec(payload_spec(v, ps[0].0, ps[0].1), ps.drop_first())
    }
}

/// What to do with a frame that arrived.
#[derive(Clone, Copy, Debug, PartialEq, Eq, Structural)]
pub enum FrameAction {
    /// A text frame: decode its payload and hand it to `on_payload`.
    Decode,
    /// The peer closed with "going away": reconnect and resume.
    Resume,
    /// Anything else: the connection is lost; reconnect afresh.
    Fail(SessionError),
}

/// What a frame does to the session, and what is to be done with it.
pub open spec fn frame_spec(v: SessionView, m: WsMessage) -> (SessionView, FrameAction) {
    match m {
        WsMessage::Text(_) => (v, FrameAction::Decode),
        WsMessage::Close(Some((code, _))) => if code == CLOSE_GOING_AWAY {
            (SessionView { phase: Phase::Resuming, ..v }, FrameAction::Resume)
        } else {
            (discarded(v), FrameAction::Fail(SessionError::UnexpectedWebsocketResponse))
        },
        _ => (discarded(v), FrameAction::Fail(SessionError::UnexpectedWebsocketResponse)),
    }
}

/// What the client sends after the hello.
#[derive(Debug)]
pub enum HelloReply {
    Identify(WsPayload<Identify>),
    Resume(WsPayload<Resume>),
}

/// Which of the two wait sources to serve.
#[derive(Clone, Copy, Debug, PartialEq, Eq, Structural)]
pub enum Wake {
    Heartbeat,
    Frame,
}

/// Chooses between a due heartbeat and an arrived frame: the heartbeat first,
/// so that a burst of traffic never starves the keepalive.
pub fn choose_wake(heartbeat_due: bool, frame_ready: bool) -> (r: Option<Wake>)
    ensures
        heartbeat_due ==> r == Some(Wake::Heartbeat),
        !heartbeat_due && frame_ready ==> r == Some(Wake::Frame),
        !heartbeat_due && !frame_ready ==> r is None,
{
    if heartbeat_due {
        Some(Wake::Heartbeat)
    } else if frame_ready {
        Some(Wake::Frame)
    } else {
        None
    }
}

/// The upgrade response is acceptable: status 101, `Upgrade: websocket` and
/// `Connection: upgrade` (case ignored), and an accept key that matches the
/// nonce.
pub open spec fn handshake_ok(
    nonce: Seq<u8>,
    status: u16,
    upgrade: Option<Seq<char>>,
    connection: Option<Seq<char>>,
    accept: Option<Seq<char>>,
) -> bool {
    &&& status == SWITCHING_PROTOCOLS
    &&& upgrade matches Some(u) && caseless_eq(u, "WEBSOCKET"@)
    &&& connection matches Some(c) && caseless_eq(c, "UPGRADE"@)
    &&& accept matches Some(a) && encode_utf8(trim_of(a)).len() <= 28 && accepts(
        nonce,
        encode_utf8(trim_of(a)),
    )
}

/// Checks the server's answer to the upgrade request made with `nonce`,
/// given its status and its `Upgrade`, `Connection` and
/// `Sec-WebSocket-Accept` headers (`None` for a missing header or one that
/// is not text).
pub fn verify_ws_handshake_response(
    nonce: &RequestKey,
    status: u16,
    upgrade: Option<&str>,
    connection: Option<&str>,
    accept: Option<&str>,
) -> (r: bool)
    ensures
        r == handshake_ok(
            nonce@,
            status,
            match upgrade {
                Some(u) => Some(u@),
                None => None,
            },
            match connection {
                Some(c) => Some(c@),
                None => None,
            },
            match accept {
                Some(a) => Some(a@),
                None => None,
            },
        ),
{
    if status != SWITCHING_PROTOCOLS {
        return false;
    }
    match upgrade {
        Some(u) => {
            if !unicase_eq(u, "WEBSOCKET") {
                return false;
            }
        },
        None => return false,
    }
    match connection {
        Some(c) => {
            if !unicase_eq(c, "UPGRADE") {
                return false;
            }
        },
        None => return false,
    }
    match accept {
        Some(a) => match ResponseKey::parse(a) {
            Some(key) => nonce.verify(key),
            None => false,
        },
        None => false,
    }
}

impl Session {
    /// A session about to connect for the first time, with the bot's token.
    pub fn new(token: String) -> (r: Session)
        ensures
            r@.phase == Phase::Connecting,
            r@.token == token@,
            r@.session_id is None,
            r@.user_id.len() == 0,
            r@.last_seq == 0,
            !r@.pending_ack,
            r@.heartbeat_interval == 0,
    {
        Session {
            phase: Phase::Connecting,
            token,
            session_id: None,
            user_id: String::new(),
            last_seq: 0,
            pending_ack: false,
            heartbeat_interval: 0,
        }
    }

    pub fn phase(&self) -> (r: Phase)
        ensures
            r == self@.phase,
    {
        self.phase
    }

    pub fn last_seq(&self) -> (r: u64)
        ensures
            r == self@.last_seq,
    {
        self.last_seq
    }

    pub fn pending_ack(&self) -> (r: bool)
        ensures
            r == self@.pending_ack,
    {
        self.pending_ack
    }

    /// The heartbeat interval in milliseconds, as the hello gave it.
    pub fn heartbeat_interval(&self) -> (r: u64)
        ensures
            r == self@.heartbeat_interval,
    {
        self.heartbeat_interval
    }

    pub fn user_id(&self) -> (r: &str)
        ensures
            r@ == self@.user_id,
    {
        self.user_id.as_str()
    }

    pub fn session_id(&self) -> (r: Option<&str>)
        ensures
            match r {
                Some(s) => self@.session_id == Some(s@),
                None => self@.session_id is None,
            },
    {
        match &self.session_id {
            Some(s) => Some(s.as_str()),
            None => None,
        }
    }

    /// The upgrade succeeded: the hello is awaited next.
    pub fn upgraded(&mut self)
        ensures
            final(self)@ == (SessionView { phase: Phase::AwaitingHello, ..old(self)@ }),
    {
        self.phase = Phase::AwaitingHello;
    }

    /// The connection failed in a way that no resume covers.
    pub fn fail(&mut self)
        ensures
            final(self)@ == discarded(old(self)@),
    {
        self.phase = Phase::Reconnecting;
        self.session_id = None;
        self.last_seq = 0;
        self.pending_ack = false;
    }

    /// The hello arrived. Arms the heartbeat with its interval and answers
    /// with a resume when there is a session to resume (its id and last
    /// sequence carried over), or with an identify otherwise.
    pub fn on_hello(&mut self, hello: &Hello, intents: Option<Intents>) -> (r: HelloReply)
        ensures
            final(self)@.heartbeat_interval == hello.heartbeat_interval,
            !final(self)@.pending_ack,
            final(self)@.token == old(self)@.token,
            final(self)@.session_id == old(self)@.session_id,
            final(self)@.user_id == old(self)@.user_id,
            final(self)@.last_seq == old(self)@.last_seq,
            match old(self)@.session_id {
                Some(sid) => final(self)@.phase == Phase::Ready && (r matches HelloReply::Resume(p)
                    && p.op == 6 && p.d.token@ == old(self)@.token && p.d.session_id@ == sid
                    && p.d.seq == old(self)@.last_seq && p.s is None && p.t is None),
                None => final(self)@.phase == Phase::Identifying && (r matches HelloReply::Identify(
                    p,
                ) && p.op == 2 && p.d.token@ == old(self)@.token && p.d.intents == match intents {
                    Some(i) => Some(i.spec_bits()),
                    None => None::<i32>,
                } && p.d.properties.os@ == "linux"@ && p.d.properties.browser@ == "tokio"@
                    && p.d.properties.device@ == "server"@ && p.d.compress == Some(false)
                    && p.d.guild_subscriptions == Some(false) && p.d.large_threshold is None
                    && p.d.shard is None && p.d.presence is None && p.s is None && p.t is None),
            },
    {
        self.heartbeat_interval = hello.heartbeat_interval;
        self.pending_ack = false;
        match &self.session_id {
            Some(sid) => {
                let d = Resume {
                    token: self.token.clone(),
                    session_id: sid.clone(),
                    seq: self.last_seq,
                };
                self.phase = Phase::Ready;
                HelloReply::Resume(WsPayload { op: 6, d, s: None, t: None })
            },
            None => {
                let d = Identify {
                    token: self.token.clone(),
                    properties: IdentifyProperties {
                        os: String::from_str("linux"),
                        browser: String::from_str("tokio"),
                        device: String::from_str("server"),
                    },
                    compress: Some(false),
                    large_threshold: None,
                    shard: None,
                    presence: None,
                    guild_subscriptions: Some(false),
                    intents: match intents {
                        Some(i) => Some(i.bits()),
                        None => None,
                    },
                };
                self.phase = Phase::Identifying;
                HelloReply::Identify(WsPayload { op: 2, d, s: None, t: None })
            },
        }
    }

    /// The ready payload confirmed the identify: the session id, the user id
    /// and the sequence come from it.
    pub fn on_ready(&mut self, ready: WsPayload<Ready>)
        ensures
            final(self)@ == (SessionView {
                phase: Phase::Ready,
                session_id: Some(ready.d.session_id@),
                user_id: ready.d.user.id@,
                last_seq: match ready.s {
                    Some(s) => s,
                    None => 0,
                },
                ..old(self)@
            }),
    {
        self.session_id = Some(ready.d.session_id);
        self.user_id = ready.d.user.id;
        self.last_seq = match ready.s {
            Some(s) => s,
            None => 0,
        };
        self.phase = Phase::Ready;
    }

    /// The heartbeat timer fired: the heartbeat to send, or `NoAck` when the
    /// previous one was never acknowledged.
    pub fn on_tick(&mut self) -> (r: Result<WsPayload<u64>, SessionError>)
        ensures
            final(self)@ == tick_spec(old(self)@).0,
            match tick_spec(old(self)@).1 {
                Ok(seq) => r matches Ok(p) && p.op == 1 && p.d == seq && p.s is None && p.t is None,
                Err(e) => r matches Err(e2) && e2 == e,
            },
    {
        if self.pending_ack {
            self.fail();
            Err(SessionError::NoAck)
        } else {
            self.pending_ack = true;
            Ok(WsPayload { op: 1, d: self.last_seq, s: None, t: None })
        }
    }

    /// A frame arrived on the gateway connection.
    pub fn on_frame(&mut self, msg: &WsMessage) -> (r: FrameAction)
        ensures
            (final(self)@, r) == frame_spec(old(self)@, *msg),
    {
        match *msg {
            WsMessage::Text(_) => FrameAction::Decode,
            WsMessage::Close(Some((code, _))) => {
                if code == CLOSE_GOING_AWAY {
                    self.phase = Phase::Resuming;
                    FrameAction::Resume
                } else {
                    self.fail();
                    FrameAction::Fail(SessionError::UnexpectedWebsocketResponse)
                }
            },
            _ => {
                self.fail();
                FrameAction::Fail(SessionError::UnexpectedWebsocketResponse)
            },
        }
    }

    /// A text frame decoded to this envelope. Returns whether it is a
    /// message-create dispatch, whose data the caller decodes next and hands
    /// to `event`; every other payload is absorbed.
    pub fn on_payload(&mut self, p: &WsPayloadUnknownOp) -> (r: bool)
        ensures
            final(self)@ == payload_spec(old(self)@, p.op, p.s),
            r == (p.t matches Some(t) && t@ == "MESSAGE_CREATE"@),
    {
        if let Some(s) = p.s {
            if s > self.last_seq {
                self.last_seq = s;
            }
        }
        if p.op == OP_HEARTBEAT_ACK {
            self.pending_ack = false;
        }
        match &p.t {
            Some(t) => str_equal(t.as_str(), "MESSAGE_CREATE"),
            None => false,
        }
    }

    /// The caller-facing event for a message-create dispatch.
    pub fn event(&self, msg: MessageReceived) -> (r: Message)
        ensures
            r.from_received(msg, self@.user_id),
    {
        Message::from_message_received(msg, self.user_id.as_str())
    }
}

/// What happened in the gateway loop.
pub enum GatewayEvent<'a> {
    /// The heartbeat timer fired.
    Tick,
    /// A frame arrived.
    Frame(WsMessage<'a>),
    /// A text frame decoded to this envelope.
    Payload(&'a WsPayloadUnknownOp),
}

/// What the gateway loop is to do next.
#[derive(Debug, PartialEq, Eq)]
pub enum GatewayAction {
    /// Send this heartbeat.
    Heartbeat(WsPayload<u64>),
    /// Decode the text frame's envelope and hand it back as a payload.
    Decode,
    /// Decode the message-create dispatch and hand it to `event`.
    DecodeMessage,
    /// Nothing to do: wait for the next event.
    Continue,
    /// Reconnect and resume the session.
    Resume,
    /// The connection is lost: start the session afresh.
    Fail(SessionError),
}

/// One step of the gateway loop: the session after `e`, and what to do.
pub open spec fn next_spec(v: SessionView, e: GatewayEvent) -> (SessionView, GatewayAction) {
    match e {
        GatewayEvent::Tick => match tick_spec(v) {
            (w, Ok(seq)) => (w, GatewayAction::Heartbeat(WsPayload { op: 1, d: seq, s: None, t: None })),
            (w, Err(err)) => (w, GatewayAction::Fail(err)),
        },
        GatewayEvent::Frame(m) => match frame_spec(v, m) {
            (w, FrameAction::Decode) => (w, GatewayAction::Decode),
            (w, FrameAction::Resume) => (w, GatewayAction::Resume),
            (w, FrameAction::Fail(err)) => (w, GatewayAction::Fail(err)),
        },
        GatewayEvent::Payload(p) => (
            payload_spec(v, p.op, p.s),
            if p.t matches Some(t) && t@ == "MESSAGE_CREATE"@ {
                GatewayAction::DecodeMessage
            } else {
                GatewayAction::Continue
            },
        ),
    }
}

/// Events that neither fail the session nor acknowledge a heartbeat: text
/// frames, and payloads other than an acknowledgement.
pub open spec fn quiet(e: GatewayEvent) -> bool {
    match e {
        GatewayEvent::Frame(WsMessage::Text(_)) => true,
        GatewayEvent::Payload(p) => p.op != OP_HEARTBEAT_ACK,
        _ => false,
    }
}

/// The session after a run of events.
pub open spec fn run_events(v: SessionView, es: Seq<GatewayEvent>) -> SessionView
    decreases es.len(),
{
    if es.len() == 0 {
        v
    } else {
        run_events(next_spec(v, es[0]).0, es.drop_first())
    }
}

proof fn lemma_quiet_keeps_pending(v: SessionView, es: Seq<GatewayEvent>)
    requires
        v.pending_ack,
        forall|i: int| 0 <= i < es.len() ==> quiet(#[trigger] es[i]),
    ensures
        run_events(v, es).pending_ack,
    decreases es.len(),
{
    if es.len() > 0 {
        let rest = es.drop_first();
        assert(quiet(es[0]));
        assert forall|i: int| 0 <= i < rest.len() implies quiet(#[trigger] rest[i]) by {
            assert(rest[i] == es[i + 1]);
        }
        lemma_quiet_keeps_pending(next_spec(v, es[0]).0, rest);
    }
}

/// In the gateway loop, a tick that sends a heartbeat, then any run of text
/// frames and payloads with no acknowledgement among them, then a second
/// tick: the second tick fails the session with `NoAck`, sending nothing.
pub proof fn lemma_loop_second_tick_without_ack(v: SessionView, es: Seq<GatewayEvent>)
    requires
        next_spec(v, GatewayEvent::Tick).1 is Heartbeat,
        forall|i: int| 0 <= i < es.len() ==> quiet(#[trigger] es[i]),
    ensures
        next_spec(run_events(next_spec(v, GatewayEvent::Tick).0, es), GatewayEvent::Tick).1
            == GatewayAction::Fail(SessionError::NoAck),
{
    lemma_quiet_keeps_pending(next_spec(v, GatewayEvent::Tick).0, es);
}

/// In the gateway loop, a close with code 1001 asks to resume: the session
/// keeps its id, sequence and token, and the next hello answers with a
/// resume. Any other close code fails the session, which then identifies
/// afresh.
pub proof fn lemma_loop_close_codes(v: SessionView, code: u16, reason: &str)
    ensures
        code == CLOSE_GOING_AWAY ==> ({
            let (w, a) = next_spec(v, GatewayEvent::Frame(WsMessage::Close(Some((code, reason)))));
            a == GatewayAction::Resume && w.phase == Phase::Resuming && w.session_id
                == v.session_id && w.last_seq == v.last_seq && w.token == v.token
        }),
        code != CLOSE_GOING_AWAY ==> ({
            let (w, a) = next_spec(v, GatewayEvent::Frame(WsMessage::Close(Some((code, reason)))));
            a == GatewayAction::Fail(SessionError::UnexpectedWebsocketResponse) && w.phase
                == Phase::Reconnecting && w.session_id is None
        }),
{
}

impl Session {
    /// One step of the gateway loop: takes what happened and says what to
    /// do next.
    pub fn next(&mut self, event: GatewayEvent) -> (r: GatewayAction)
        ensures
            (final(self)@, r) == next_spec(old(self)@, event),
    {
        match event {
            GatewayEvent::Tick => match self.on_tick() {
                Ok(beat) => GatewayAction::Heartbeat(beat),
                Err(e) => GatewayAction::Fail(e),
            },
            GatewayEvent::Frame(m) => match self.on_frame(&m) {
                FrameAction::Decode => GatewayAction::Decode,
                FrameAction::Resume => GatewayAction::Resume,
                FrameAction::Fail(e) => GatewayAction::Fail(e),
            },
            GatewayEvent::Payload(p) => {
                if self.on_payload(p) {
                    GatewayAction::DecodeMessage
                } else {
                    GatewayAction::Continue
                }
            },
        }
    }
}

/// A heartbeat tick that found its predecessor acknowledged, followed by any
/// payloads none of which is an acknowledgement, makes the next tick fail
/// with `NoAck`.
pub proof fn lemma_second_tick_without_ack(v: SessionView, ps: Seq<(i32, Option<u64>)>)
    requires
        tick_spec(v).1 is Ok,
        forall|i: int| 0 <= i < ps.len() ==> (#[trigger] ps[i]).0 != OP_HEARTBEAT_ACK,
    ensures
        tick_spec(payloads_spec(tick_spec(v).0, ps)).1 == Err::<u64, SessionError>(
            SessionError::NoAck,
        ),
    decreases ps.len(),
{
    lemma_pending_survives(tick_spec(v).0, ps);
}

proof fn lemma_pending_survives(v: SessionView, ps: Seq<(i32, Option<u64>)>)
    requires
        v.pending_ack,
        forall|i: int| 0 <= i < ps.len() ==> (#[trigger] ps[i]).0 != OP_HEARTBEAT_ACK,
    ensures
        payloads_spec(v, ps).pending_ack,
    decreases ps.len(),
{
    if ps.len() > 0 {
        let rest = ps.drop_first();
        assert(ps[0].0 != OP_HEARTBEAT_ACK);
        assert forall|i: int| 0 <= i < rest.len() implies (#[trigger] rest[i]).0
            != OP_HEARTBEAT_ACK by {
            assert(rest[i] == ps[i + 1]);
        }
        lemma_pending_survives(payload_spec(v, ps[0].0, ps[0].1), rest);
    }
}

/// The sequence never goes back, whatever payloads arrive.
pub proof fn lemma_sequence_monotonic(v: SessionView, ps: Seq<(i32, Option<u64>)>)
    ensures
        payloads_spec(v, ps).last_seq >= v.last_seq,
    decreases ps.len(),
{
    if ps.len() > 0 {
        lemma_sequence_monotonic(payload_spec(v, ps[0].0, ps[0].1), ps.drop_first());
    }
}

/// A message as the caller receives it.
#[derive(Debug)]
pub struct Message {
    channel_id: String,
    guild_id: Option<String>,
    content: String,
    author_id: String,
    message_id: String,
    mentioned: bool,
    is_me: bool,
}

/// Some mention in the list is of the user `uid`.
pub open spec fn mentions_user(mentions: Seq<User>, uid: Seq<char>) -> bool {
    exists|i: int| 0 <= i < mentions.len() && (#[trigger] mentions[i]).id@ == uid
}

impl Message {
    /// This message is the one built from `msg` for the user `uid`: the ids
    /// and the text are those of `msg`, it is the user's own when the user
    /// wrote it, and it mentions the user when some mention names the user.
    pub open spec fn from_received(&self, msg: MessageReceived, uid: Seq<char>) -> bool {
        &&& self.spec_channel_id() == msg.channel_id@
        &&& self.spec_guild_id() == match msg.guild_id {
            Some(g) => Some(g@),
            None => None::<Seq<char>>,
        }
        &&& self.spec_content() == msg.content@
        &&& self.spec_author_id() == msg.author.id@
        &&& self.spec_message_id() == msg.id@
        &&& self.spec_is_me() == (msg.author.id@ == uid)
        &&& self.spec_mentioned() == mentions_user(msg.mentions@, uid)
    }

    pub closed spec fn spec_channel_id(&self) -> Seq<char> {
        self.channel_id@
    }

    pub closed spec fn spec_guild_id(&self) -> Option<Seq<char>> {
        match self.guild_id {
            Some(g) => Some(g@),
            None => None,
        }
    }

    pub closed spec fn spec_content(&self) -> Seq<char> {
        self.content@
    }

    pub closed spec fn spec_author_id(&self) -> Seq<char> {
        self.author_id@
    }

    pub closed spec fn spec_message_id(&self) -> Seq<char> {
        self.message_id@
    }

    pub closed spec fn spec_is_me(&self) -> bool {
        self.is_me
    }

    pub closed spec fn spec_mentioned(&self) -> bool {
        self.mentioned
    }

    /// Builds the event for the user `uid`: whether the user wrote it, and
    /// whether it mentions the user.
    pub fn from_message_received(msg: MessageReceived, uid: &str) -> (r: Message)
        ensures
            r.from_received(msg, uid@),
    {
        let is_me = str_equal(msg.author.id.as_str(), uid);
        let mut mentioned = false;
        let mut i: usize = 0;
        while i < msg.mentions.len()
            invariant
                i <= msg.mentions@.len(),
                mentioned == exists|j: int| 0 <= j < i && (#[trigger] msg.mentions@[j]).id@ == uid@,
            decreases msg.mentions@.len() - i,
        {
            if str_equal(msg.mentions[i].id.as_str(), uid) {
                mentioned = true;
            }
            i = i + 1;
        }
        let MessageReceived { id, channel_id, guild_id, content, mentions, author } = msg;
        Message {
            channel_id,
            guild_id,
            content,
            author_id: author.id,
            message_id: id,
            mentioned,
            is_me,
        }
    }

    pub fn channel_id(&self) -> (r: &str)
        ensures
            r@ == self.spec_channel_id(),
    {
        self.channel_id.as_str()
    }

    pub fn channel_id_buf(&self) -> (r: &[u8])
        ensures
            r@ == encode_utf8(self.spec_channel_id()),
    {
        self.channel_id.as_str().as_bytes()
    }

    pub fn guild_id(&self) -> (r: Option<&str>)
        ensures
            match r {
                Some(g) => self.spec_guild_id() == Some(g@),
                None => self.spec_guild_id() is None,
            },
    {
        match &self.guild_id {
            Some(g) => Some(g.as_str()),
            None => None,
        }
    }

    pub fn guild_id_buf(&self) -> (r: Option<&[u8]>)
        ensures
            match r {
                Some(g) => self.spec_guild_id() matches Some(h) && g@ == encode_utf8(h),
                None => self.spec_guild_id() is None,
            },
    {
        match &self.guild_id {
            Some(g) => Some(g.as_str().as_bytes()),
            None => None,
        }
    }

    pub fn message_id(&self) -> (r: &str)
        ensures
            r@ == self.spec_message_id(),
    {
        self.message_id.as_str()
    }

    pub fn message_id_buf(&self) -> (r: &[u8])
        ensures
            r@ == encode_utf8(self.spec_message_id()),
    {
        self.message_id.as_str().as_bytes()
    }

    /// The text of the message.
    pub fn message(&self) -> (r: &str)
        ensures
            r@ == self.spec_content(),
    {
        self.content.as_str()
    }

    pub fn message_buf(&self) -> (r: &[u8])
        ensures
            r@ == encode_utf8(self.spec_content()),
    {
        self.content.as_str().as_bytes()
    }

    pub fn author_id(&self) -> (r: &str)
        ensures
            r@ == self.spec_author_id(),
    {
        self.author_id.as_str()
    }

    pub fn author_id_buf(&self) -> (r: &[u8])
        ensures
            r@ == encode_utf8(self.spec_author_id()),
    {
        self.author_id.as_str().as_bytes()
    }

    /// Whether the message mentions the session's user.
    pub fn mentioned(&self) -> (r: bool)
        ensures
            r == self.spec_mentioned(),
    {
        self.mentioned
    }

    /// Whether the session's user wrote the message.
    pub fn is_me(&self) -> (r: bool)
        ensures
            r == self.spec_is_me(),
    {
        self.is_me
    }
}

} // verus!
