use discord_bots::api::{auth_header, gateway_url, success_body};
use discord_bots::gateway::{
    choose_wake, verify_ws_handshake_response, FrameAction, GatewayAction, GatewayEvent, HelloReply,
    Intent, Intents, Message,
    Phase, Session, SessionError, Wake,
};
use discord_bots::history::{ChannelMessages, PageStep};
use discord_bots::model::{Hello, MessageReceived, Ready, User, WsPayload, WsPayloadUnknownOp};
use discord_bots::transport::{destination_port, Prebuffer};
use discord_bots::ws::message::{Message as WsMessage, Owned};
use discord_bots::ws::{RequestKey, ResponseKey};

#[test]
fn zero_nonce_golden_vector() {
    let req = RequestKey::from_nonce([0u8; 16]);
    assert_eq!(req.as_bytes(), b"AAAAAAAAAAAAAAAAAAAAAA==");
    let resp = ResponseKey::from_request(&req);
    assert_eq!(resp.as_bytes(), b"ICX+Yqv66kxgM0FcWaLWlFLwTAI=");
    assert!(req.verify(resp));
}

#[test]
fn sample_nonce_accept_key() {
    let req = RequestKey::parse("dGhlIHNhbXBsZSBub25jZQ==").unwrap();
    let resp = ResponseKey::parse(" s3pPLMBiTxaQ9kYGzzhZRbK+xOo= ").unwrap();
    assert_eq!(resp.as_bytes(), b"s3pPLMBiTxaQ9kYGzzhZRbK+xOo=");
    assert!(req.verify(resp));
    assert_eq!(ResponseKey::from_request(&req), resp);
}

#[test]
fn derived_key_is_deterministic_and_accepted() {
    let req = RequestKey::generate().unwrap();
    assert_eq!(req.as_bytes().len(), 24);
    let a = ResponseKey::from_request(&req);
    let b = ResponseKey::from_request(&req);
    assert_eq!(a, b);
    assert!(req.verify(a));
}

#[test]
fn altered_accept_key_is_refused() {
    let req = RequestKey::from_nonce([7u8; 16]);
    let good = ResponseKey::from_request(&req);
    let text = std::str::from_utf8(good.as_bytes()).unwrap().to_string();
    for i in 0..text.len() {
        let mut bytes = text.clone().into_bytes();
        bytes[i] = if bytes[i] == b'A' { b'B' } else { b'A' };
        let altered = ResponseKey::parse(std::str::from_utf8(&bytes).unwrap()).unwrap();
        assert!(!req.verify(altered));
    }
}

#[test]
fn overlong_keys_are_refused() {
    assert!(RequestKey::parse("0123456789012345678901234").is_none());
    assert!(ResponseKey::parse("01234567890123456789012345678").is_none());
    assert!(ResponseKey::parse("0123456789012345678901234567").is_some());
}

#[test]
fn handshake_response_checks() {
    let nonce = RequestKey::from_nonce([0u8; 16]);
    let accept = "ICX+Yqv66kxgM0FcWaLWlFLwTAI=";
    assert!(verify_ws_handshake_response(&nonce, 101, Some("WebSocket"), Some("Upgrade"), Some(accept)));
    assert!(!verify_ws_handshake_response(&nonce, 200, Some("websocket"), Some("upgrade"), Some(accept)));
    assert!(!verify_ws_handshake_response(&nonce, 101, Some("h2c"), Some("upgrade"), Some(accept)));
    assert!(!verify_ws_handshake_response(&nonce, 101, Some("websocket"), None, Some(accept)));
    assert!(!verify_ws_handshake_response(&nonce, 101, Some("websocket"), Some("upgrade"), None));
    assert!(!verify_ws_handshake_response(
        &nonce,
        101,
        Some("websocket"),
        Some("upgrade"),
        Some("s3pPLMBiTxaQ9kYGzzhZRbK+xOo=")
    ));
}

fn ready_session() -> Session {
    let mut s = Session::new("tok".to_string());
    s.upgraded();
    let reply = s.on_hello(&Hello { heartbeat_interval: 41250 }, Some(Intents::empty().with(Intent::GuildMessages)));
    match reply {
        HelloReply::Identify(p) => {
            assert_eq!(p.op, 2);
            assert_eq!(p.d.token, "tok");
            assert_eq!(p.d.intents, Some(1 << 9));
            assert_eq!(p.d.properties.os, "linux");
        }
        HelloReply::Resume(_) => panic!("a fresh session identifies"),
    }
    assert_eq!(s.phase(), Phase::Identifying);
    s.on_ready(WsPayload {
        op: 0,
        d: Ready { session_id: "sess".to_string(), user: User { id: "42".to_string() } },
        s: Some(1),
        t: Some("READY".to_string()),
    });
    assert_eq!(s.phase(), Phase::Ready);
    assert_eq!(s.session_id(), Some("sess"));
    assert_eq!(s.user_id(), "42");
    assert_eq!(s.heartbeat_interval(), 41250);
    s
}

#[test]
fn two_ticks_without_ack_fail() {
    let mut s = ready_session();
    let hb = s.on_tick().unwrap();
    assert_eq!((hb.op, hb.d), (1, 1));
    assert!(s.pending_ack());
    let other = WsPayloadUnknownOp { op: 0, s: Some(5), t: Some("TYPING_START".to_string()) };
    assert!(!s.on_payload(&other));
    assert_eq!(s.on_tick().unwrap_err(), SessionError::NoAck);
    assert_eq!(s.phase(), Phase::Reconnecting);
    assert_eq!(s.session_id(), None);
}

#[test]
fn ack_between_ticks_keeps_session() {
    let mut s = ready_session();
    s.on_tick().unwrap();
    s.on_payload(&WsPayloadUnknownOp { op: 11, s: None, t: None });
    assert!(!s.pending_ack());
    let hb = s.on_tick().unwrap();
    assert_eq!(hb.d, 1);
}

#[test]
fn sequence_moves_forward_only() {
    let mut s = ready_session();
    assert!(s.on_payload(&WsPayloadUnknownOp { op: 0, s: Some(9), t: Some("MESSAGE_CREATE".to_string()) }));
    assert_eq!(s.last_seq(), 9);
    s.on_payload(&WsPayloadUnknownOp { op: 0, s: Some(3), t: None });
    assert_eq!(s.last_seq(), 9);
}

#[test]
fn close_going_away_resumes() {
    let mut s = ready_session();
    let bytes = [0x88u8, 0x02, 0x03, 0xe9];
    let (owned, _) = Owned::read(&bytes).unwrap();
    assert_eq!(s.on_frame(&owned.message()), FrameAction::Resume);
    assert_eq!(s.phase(), Phase::Resuming);
    s.upgraded();
    match s.on_hello(&Hello { heartbeat_interval: 1000 }, None) {
        HelloReply::Resume(p) => {
            assert_eq!(p.op, 6);
            assert_eq!(p.d.session_id, "sess");
            assert_eq!(p.d.seq, 1);
            assert_eq!(p.d.token, "tok");
        }
        HelloReply::Identify(_) => panic!("a resumed session resumes"),
    }
    assert_eq!(s.phase(), Phase::Ready);
}

#[test]
fn close_normal_reconnects() {
    let mut s = ready_session();
    let bytes = [0x88u8, 0x02, 0x03, 0xe8];
    let (owned, _) = Owned::read(&bytes).unwrap();
    assert_eq!(
        s.on_frame(&owned.message()),
        FrameAction::Fail(SessionError::UnexpectedWebsocketResponse)
    );
    assert_eq!(s.phase(), Phase::Reconnecting);
    assert_eq!(s.session_id(), None);
    assert_eq!(s.on_frame(&WsMessage::Text("{}")), FrameAction::Decode);
}

#[test]
fn heartbeat_has_priority() {
    assert_eq!(choose_wake(true, true), Some(Wake::Heartbeat));
    assert_eq!(choose_wake(false, true), Some(Wake::Frame));
    assert_eq!(choose_wake(false, false), None);
}

fn received(id: &str, author: &str, mentions: &[&str]) -> MessageReceived {
    MessageReceived {
        id: id.to_string(),
        channel_id: "c1".to_string(),
        guild_id: Some("g1".to_string()),
        content: format!("text {}", id),
        mentions: mentions.iter().map(|m| User { id: m.to_string() }).collect(),
        author: User { id: author.to_string() },
    }
}

#[test]
fn events_know_author_and_mentions() {
    let m = Message::from_message_received(received("1", "42", &["7", "42"]), "42");
    assert!(m.is_me());
    assert!(m.mentioned());
    assert_eq!(m.message_id(), "1");
    assert_eq!(m.channel_id(), "c1");
    assert_eq!(m.guild_id(), Some("g1"));
    assert_eq!(m.message(), "text 1");
    assert_eq!(m.message_buf(), b"text 1");
    assert_eq!(m.author_id(), "42");
    let m = Message::from_message_received(received("2", "7", &["8"]), "42");
    assert!(!m.is_me());
    assert!(!m.mentioned());
}

fn page(from: usize, n: usize) -> Vec<MessageReceived> {
    (from..from + n).map(|i| received(&i.to_string(), "1", &[])).collect()
}

#[test]
fn history_reads_pages_until_short_page() {
    let mut reader = ChannelMessages::new("42".to_string(), None, None);
    let pages = vec![page(0, 100), page(100, 100), page(200, 37)];
    let mut served = pages.into_iter();
    let mut ids = Vec::new();
    let mut requests = Vec::new();
    loop {
        match reader.next() {
            PageStep::Item(m) => ids.push(m.message_id().to_string()),
            PageStep::Fetch { limit, before, wait } => {
                requests.push((limit, before, wait));
                reader.deliver_received(served.next().expect("no request after the short page"));
            }
            PageStep::Done => break,
        }
    }
    let expected: Vec<String> = (0..237).map(|i| i.to_string()).collect();
    assert_eq!(ids, expected);
    assert_eq!(
        requests,
        vec![
            (100, None, false),
            (100, Some("99".to_string()), true),
            (100, Some("199".to_string()), true)
        ]
    );
}

#[test]
fn history_respects_budget() {
    let mut reader = ChannelMessages::new("42".to_string(), Some(150), Some("500".to_string()));
    match reader.next() {
        PageStep::Fetch { limit, before, wait } => {
            assert_eq!((limit, before, wait), (100, Some("500".to_string()), false));
        }
        _ => panic!("a page is needed first"),
    }
    reader.deliver_received(page(0, 100));
    for _ in 0..100 {
        assert!(matches!(reader.next(), PageStep::Item(_)));
    }
    match reader.next() {
        PageStep::Fetch { limit, .. } => assert_eq!(limit, 50),
        _ => panic!("a second page is needed"),
    }
    reader.deliver_received(page(100, 50));
    for _ in 0..50 {
        assert!(matches!(reader.next(), PageStep::Item(_)));
    }
    assert!(matches!(reader.next(), PageStep::Done));
}

#[test]
fn empty_budget_is_done_at_once() {
    let mut reader = ChannelMessages::new("42".to_string(), Some(0), None);
    assert!(matches!(reader.next(), PageStep::Done));
}

#[test]
fn intents_bits() {
    let i = Intents::empty().with(Intent::GuildMessages).with(Intent::DirectMessages);
    assert_eq!(i.bits(), (1 << 9) | (1 << 12));
    assert!(i.contains(Intent::DirectMessages));
    assert!(!i.contains(Intent::Guilds));
    assert_eq!(Intent::DirectMessageTyping.bit(), 1 << 14);
}

#[test]
fn port_defaults_to_tls() {
    assert_eq!(destination_port(None), 443);
    assert_eq!(destination_port(Some(8443)), 8443);
}

#[test]
fn prebuffer_drains_first() {
    let mut p = Prebuffer::new(vec![1, 2, 3, 4, 5]);
    assert_eq!(p.take(2), vec![1, 2]);
    assert!(!p.is_empty());
    assert_eq!(p.take(10), vec![3, 4, 5]);
    assert!(p.is_empty());
    assert_eq!(p.take(1), Vec::<u8>::new());
}

#[test]
fn rest_helpers() {
    assert_eq!(auth_header("abc"), b"Bot abc".to_vec());
    assert_eq!(gateway_url("wss://gw"), b"wss://gw?v=6&encoding=json".to_vec());
    assert_eq!(success_body(204, b"x".to_vec()), Ok(b"x".to_vec()));
    assert_eq!(success_body(404, b"nope".to_vec()), Err(b"nope".to_vec()));
}

#[test]
fn loop_second_tick_without_ack_fails() {
    let mut s = ready_session();
    match s.next(GatewayEvent::Tick) {
        GatewayAction::Heartbeat(p) => assert_eq!((p.op, p.d), (1, 1)),
        other => panic!("expected a heartbeat, got {:?}", other),
    }
    assert_eq!(s.next(GatewayEvent::Frame(WsMessage::Text("{}"))), GatewayAction::Decode);
    let typing = WsPayloadUnknownOp { op: 0, s: Some(2), t: Some("TYPING_START".to_string()) };
    assert_eq!(s.next(GatewayEvent::Payload(&typing)), GatewayAction::Continue);
    assert_eq!(s.next(GatewayEvent::Tick), GatewayAction::Fail(SessionError::NoAck));
}

#[test]
fn loop_ack_then_tick_sends_heartbeat() {
    let mut s = ready_session();
    assert!(matches!(s.next(GatewayEvent::Tick), GatewayAction::Heartbeat(_)));
    let ack = WsPayloadUnknownOp { op: 11, s: None, t: None };
    assert_eq!(s.next(GatewayEvent::Payload(&ack)), GatewayAction::Continue);
    let create = WsPayloadUnknownOp { op: 0, s: Some(4), t: Some("MESSAGE_CREATE".to_string()) };
    assert_eq!(s.next(GatewayEvent::Payload(&create)), GatewayAction::DecodeMessage);
    match s.next(GatewayEvent::Tick) {
        GatewayAction::Heartbeat(p) => assert_eq!(p.d, 4),
        other => panic!("expected a heartbeat, got {:?}", other),
    }
}

#[test]
fn loop_close_codes() {
    let mut s = ready_session();
    assert_eq!(s.next(GatewayEvent::Frame(WsMessage::Close(Some((1001, ""))))), GatewayAction::Resume);
    assert_eq!(s.phase(), Phase::Resuming);
    assert_eq!(s.session_id(), Some("sess"));
    let mut s = ready_session();
    assert_eq!(
        s.next(GatewayEvent::Frame(WsMessage::Close(Some((1000, ""))))),
        GatewayAction::Fail(SessionError::UnexpectedWebsocketResponse)
    );
    assert_eq!(s.phase(), Phase::Reconnecting);
}

#[test]
fn accept_keys_are_28_characters() {
    for b in [0u8, 1, 200, 255] {
        let req = RequestKey::from_nonce([b; 16]);
        assert_eq!(ResponseKey::from_request(&req).as_bytes().len(), 28);
    }
}

#[test]
fn event_carries_message_fields() {
    let mut s = ready_session();
    let m = s.event(received("9", "5", &[]));
    assert_eq!(m.channel_id(), "c1");
    assert_eq!(m.guild_id(), Some("g1"));
    assert_eq!(m.author_id(), "5");
    assert_eq!(m.message(), "text 9");
    assert!(!m.is_me());
    let _ = &mut s;
}
