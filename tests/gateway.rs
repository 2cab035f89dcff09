use discord_gateway::codec::{
    decode, encode, heartbeat_frame, identify_frame, message_event, read_frame, DecodeError,
    DispatchEvent, Inbound, IDENTIFY_INTENTS,
};
use discord_gateway::discord::{ConnectionProperties, GatewayEvent, Identify};
use discord_gateway::gateway::{authorization_header, heartbeat_delay, Client};
use discord_gateway::session::{Action, Event, GatewayError, Phase, Session};

const HELLO: &str = r#"{"op":10,"d":{"heartbeat_interval":41250},"s":null,"t":null}"#;

fn identified_client() -> Client {
    let mut c = Client::new("secret-token").unwrap();
    assert_eq!(c.receive_hello_event(Some(HELLO.to_string())), Ok(41250));
    c
}

#[test]
fn first_heartbeat_is_jittered_within_interval() {
    for _ in 0..1000 {
        let d = heartbeat_delay(41250, 0);
        assert!(d < 41250);
    }
    assert_eq!(heartbeat_delay(1, 0), 0);
}

#[test]
fn later_heartbeats_follow_the_interval() {
    let first = heartbeat_delay(41250, 0);
    let mut t = first;
    let mut times = vec![t];
    for k in 1..4u64 {
        t += heartbeat_delay(41250, k);
        times.push(t);
    }
    assert_eq!(times, vec![first, first + 41250, first + 82500, first + 123750]);
}

#[test]
fn dispatch_then_ack_sets_cursor() {
    let mut c = identified_client();
    let a = c.handle_text_websocket_message(
        r#"{"op":0,"d":{"id":"1","channel_id":"2","content":"hi"},"s":12,"t":"MESSAGE_CREATE"}"#
            .to_string(),
    );
    match a {
        Action::Deliver(m) => {
            assert_eq!(m.id, "1");
            assert_eq!(m.channel_id, "2");
            assert_eq!(m.content, "hi");
        }
        _ => panic!("message not delivered"),
    }
    assert_eq!(c.sequence_number(), Some(12));
    let a = c.handle_text_websocket_message(r#"{"op":11,"d":null}"#.to_string());
    assert!(matches!(a, Action::Skip));
    assert_eq!(c.sequence_number(), Some(12));
}

#[test]
fn malformed_frame_mid_stream_is_skipped() {
    let mut c = identified_client();
    c.handle_text_websocket_message(r#"{"op":0,"d":{},"s":3,"t":"READY"}"#.to_string());
    let a = c.handle_text_websocket_message("not json".to_string());
    assert!(matches!(a, Action::Warn));
    assert_eq!(c.sequence_number(), Some(3));
    assert!(matches!(c.session().phase, Phase::Identified { heartbeat_interval: 41250 }));
    let a = c.handle_text_websocket_message(
        r#"{"op":0,"d":{"id":"7","channel_id":"8","content":"after"},"s":4,"t":"MESSAGE_CREATE"}"#
            .to_string(),
    );
    assert!(matches!(a, Action::Deliver(ref m) if m.content == "after"));
    assert_eq!(c.sequence_number(), Some(4));
}

#[test]
fn unknown_event_name_is_not_an_error() {
    let mut c = identified_client();
    c.handle_text_websocket_message(r#"{"op":0,"d":null,"s":5,"t":"GUILD_CREATE"}"#.to_string());
    assert_eq!(c.sequence_number(), Some(5));
    let a = c.handle_text_websocket_message(r#"{"op":0,"d":{},"t":"BRAND_NEW_EVENT"}"#.to_string());
    assert!(matches!(a, Action::Skip));
    assert_eq!(c.sequence_number(), Some(5));
    let a = c.handle_text_websocket_message(r#"{"op":0,"d":{},"s":9,"t":"BRAND_NEW_EVENT"}"#.to_string());
    assert!(matches!(a, Action::Skip));
    assert_eq!(c.sequence_number(), Some(9));
}

#[test]
fn unknown_opcode_is_ignored() {
    let mut c = identified_client();
    let a = c.handle_text_websocket_message(r#"{"op":42,"d":[1,2],"s":77}"#.to_string());
    assert!(matches!(a, Action::Skip));
    assert_eq!(c.sequence_number(), None);
    assert!(matches!(read_frame(r#"{"op":42,"d":null}"#), Inbound::Other { op: 42 }));
}

#[test]
fn cursor_is_the_largest_seen() {
    let mut s = Session::new();
    s.handle(Event::Frame(Inbound::Hello { heartbeat_interval: 10 }));
    assert!(matches!(s.handle(Event::HeartbeatDue), Action::Heartbeat { seq: None }));
    for k in [4i64, 9, 7] {
        s.handle(Event::Frame(Inbound::Dispatch { event: DispatchEvent::Other(None), s: Some(k) }));
    }
    s.handle(Event::Frame(Inbound::Dispatch { event: DispatchEvent::Other(None), s: None }));
    assert_eq!(s.sequence, Some(9));
    assert!(matches!(s.handle(Event::HeartbeatDue), Action::Heartbeat { seq: Some(9) }));
    assert!(s.awaiting_ack);
    s.handle(Event::Frame(Inbound::HeartbeatAck));
    assert!(!s.awaiting_ack);
}

#[test]
fn identify_is_sent_once_and_first() {
    let mut s = Session::new();
    assert!(matches!(s.handle(Event::HeartbeatDue), Action::Skip));
    assert!(matches!(
        s.handle(Event::Frame(Inbound::Hello { heartbeat_interval: 5 })),
        Action::Identify { heartbeat_interval: 5 }
    ));
    assert!(matches!(s.handle(Event::Frame(Inbound::Hello { heartbeat_interval: 6 })), Action::Skip));
    assert!(matches!(s.handle(Event::HeartbeatDue), Action::Heartbeat { seq: None }));
    assert!(matches!(s.handle(Event::Closed), Action::Stop));
    assert!(matches!(s.handle(Event::Frame(Inbound::Hello { heartbeat_interval: 5 })), Action::Stop));
}

#[test]
fn handshake_fails_without_hello() {
    let mut c = Client::new("t").unwrap();
    let r = c.receive_hello_event(Some(r#"{"op":0,"d":{},"s":1,"t":"READY"}"#.to_string()));
    assert_eq!(r, Err(GatewayError::HandshakeFailed));
    assert_eq!(c.session().phase, Phase::Closed);

    let mut c = Client::new("t").unwrap();
    assert_eq!(c.receive_hello_event(None), Err(GatewayError::HandshakeFailed));

    let mut c = Client::new("t").unwrap();
    assert_eq!(c.receive_hello_event(Some("garbage".to_string())), Err(GatewayError::HandshakeFailed));

    let mut c = Client::new("t").unwrap();
    let zero = r#"{"op":10,"d":{"heartbeat_interval":0}}"#.to_string();
    assert_eq!(c.receive_hello_event(Some(zero)), Err(GatewayError::HandshakeFailed));
}

#[test]
fn handshake_accepts_hello() {
    let mut c = Client::new("t").unwrap();
    assert_eq!(c.receive_hello_event(Some(HELLO.to_string())), Ok(41250));
    assert_eq!(c.session().phase, Phase::Identified { heartbeat_interval: 41250 });
    assert_eq!(c.sequence_number(), None);
}

#[test]
fn decode_errors() {
    assert!(matches!(decode("not json"), Err(DecodeError::Syntax)));
    assert!(matches!(decode("[1,2]"), Err(DecodeError::Envelope)));
    assert!(matches!(decode(r#"{"d":null}"#), Err(DecodeError::Envelope)));
    assert!(matches!(decode(r#"{"op":1}"#), Err(DecodeError::Envelope)));
    assert!(matches!(decode(r#"{"op":70000,"d":null}"#), Err(DecodeError::Envelope)));
    assert!(matches!(decode(r#"{"op":0,"d":null,"s":"x"}"#), Err(DecodeError::Envelope)));
    assert!(matches!(decode(r#"{"op":0,"d":null,"t":5}"#), Err(DecodeError::Envelope)));
    let e = decode(r#"{"op":0,"d":{"a":1},"s":7,"t":"X","extra":true}"#).unwrap();
    assert_eq!(e.op, 0);
    assert_eq!(e.s, Some(7));
    assert_eq!(e.t.as_deref(), Some("X"));
    assert_eq!(e.d.to_string(), r#"{"a":1}"#);
}

#[test]
fn encode_leaves_out_absent_fields() {
    let e = GatewayEvent { op: 1, d: serde_json::Value::Null, s: None, t: None };
    assert_eq!(encode(e), r#"{"d":null,"op":1}"#);
    let e = GatewayEvent { op: 0, d: serde_json::Value::from(3), s: Some(4), t: Some("T".to_string()) };
    assert_eq!(encode(e), r#"{"d":3,"op":0,"s":4,"t":"T"}"#);
}

#[test]
fn round_trip_of_an_envelope() {
    let text = encode(GatewayEvent { op: 0, d: serde_json::Value::from(-2), s: Some(8), t: Some("E".to_string()) });
    let e = decode(&text).unwrap();
    assert_eq!((e.op, e.s, e.t.as_deref()), (0, Some(8), Some("E")));
    assert_eq!(e.d.to_string(), "-2");
}

#[test]
fn heartbeat_frames_carry_the_cursor() {
    assert_eq!(heartbeat_frame(None), r#"{"d":null,"op":1}"#);
    assert_eq!(heartbeat_frame(Some(251)), r#"{"d":251,"op":1}"#);
    let mut c = identified_client();
    assert_eq!(c.heartbeat_frame(), r#"{"d":null,"op":1}"#);
    c.handle_text_websocket_message(r#"{"op":0,"d":null,"s":33,"t":"A"}"#.to_string());
    assert_eq!(c.heartbeat_frame(), r#"{"d":33,"op":1}"#);
}

#[test]
fn identify_frame_text() {
    assert_eq!(IDENTIFY_INTENTS, 34304);
    let expected = r#"{"d":{"intents":34304,"properties":{"browser":"","device":"","os":""},"token":"abc\"d"},"op":2}"#;
    assert_eq!(identify_frame("abc\"d"), expected);
    let c = Client::new("abc\"d").unwrap();
    assert_eq!(c.identify_frame(), expected);
}

#[test]
fn credential_checks() {
    assert!(matches!(Client::new("a\nb"), Err(GatewayError::Credential)));
    assert!(matches!(Client::new("a\u{7f}"), Err(GatewayError::Credential)));
    assert!(Client::new("tab\tand é").is_ok());
    let h = authorization_header("xyz").unwrap();
    assert_eq!(h.to_str().unwrap(), "Bot xyz");
    assert_eq!(authorization_header("x\r"), Err(GatewayError::Credential));
    let c = Client::new("tok.en-1").unwrap();
    assert_eq!(c.authorization().to_str().unwrap(), "Bot tok.en-1");
    let h = authorization_header("é").unwrap();
    assert_eq!(h.as_bytes(), "Bot é".as_bytes());
}

#[test]
fn message_payloads() {
    let d = serde_json::from_str::<serde_json::Value>(r#"{"id":"1","channel_id":"2","content":"c","extra":0}"#).unwrap();
    let m = message_event(&d).unwrap();
    assert_eq!((m.id.as_str(), m.channel_id.as_str(), m.content.as_str()), ("1", "2", "c"));
    let d = serde_json::from_str::<serde_json::Value>(r#"{"id":1,"channel_id":"2","content":"c"}"#).unwrap();
    assert!(message_event(&d).is_none());
    let a = read_frame(r#"{"op":0,"d":{"id":1},"s":2,"t":"MESSAGE_CREATE"}"#);
    assert!(matches!(a, Inbound::Dispatch { event: DispatchEvent::MalformedMessage, s: Some(2) }));
}

#[test]
fn reconnect_forgets_the_cursor() {
    let mut c = identified_client();
    c.handle_text_websocket_message(r#"{"op":0,"d":null,"s":3,"t":"A"}"#.to_string());
    c.reconnect();
    assert_eq!(c.sequence_number(), None);
    assert_eq!(c.session().phase, Phase::AwaitingHello);
}

#[test]
fn identify_payload_as_json() {
    let id = Identify {
        token: "tok".to_string(),
        intents: 7,
        properties: ConnectionProperties {
            os: "linux".to_string(),
            browser: "b".to_string(),
            device: "d".to_string(),
        },
    };
    assert_eq!(
        id.to_json().to_string(),
        r#"{"intents":7,"properties":{"browser":"b","device":"d","os":"linux"},"token":"tok"}"#
    );
}

#[test]
fn hello_frames_read_as_hello() {
    assert!(matches!(read_frame(HELLO), Inbound::Hello { heartbeat_interval: 41250 }));
    assert!(matches!(read_frame(r#"{"op":10,"d":{}}"#), Inbound::Other { op: 10 }));
    assert!(matches!(read_frame(r#"{"op":10,"d":{"heartbeat_interval":-5}}"#), Inbound::Other { op: 10 }));
    assert!(matches!(read_frame(r#"{"op":11,"d":null}"#), Inbound::HeartbeatAck));
    assert!(matches!(read_frame("{"), Inbound::Undecodable));
}
