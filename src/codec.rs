//! The wire codec: Gateway envelopes to and from JSON text.
use vstd::prelude::*;

use crate::discord::{ConnectionProperties, GatewayEvent, Hello, Identify, Message};
use crate::json::{
    json_as_i64, json_as_str, json_as_u64, json_get, json_insert, json_int, json_is_null, json_is_object,
    json_model, json_object, json_parse, json_string, json_text, json_to_text, json_uint,
    parse_json, JsonModel,
};

verus! {

pub assume_specification[ <serde_json::Value as Clone>::clone ](v: &serde_json::Value) -> (r:
    serde_json::Value)
    ensures
        r == *v,
;

/// Why a text frame is not an envelope.
#[derive(Clone, Copy, PartialEq, Eq, Debug, Structural)]
pub enum DecodeError {
    /// The text is not a JSON document.
    Syntax,
    /// The document is JSON but lacks `op` or `d`, or holds a field of the wrong type.
    Envelope,
}

/// An envelope as data.
pub struct EnvelopeModel {
    pub op: int,
    pub d: JsonModel,
    pub s: Option<int>,
    pub t: Option<Seq<char>>,
}

pub open spec fn envelope_view(e: GatewayEvent<serde_json::Value>) -> EnvelopeModel {
    EnvelopeModel {
        op: e.op as int,
        d: json_model(e.d),
        s: match e.s {
            Some(k) => Some(k as int),
            None => None,
        },
        t: match e.t {
            Some(x) => Some(x@),
            None => None,
        },
    }
}

/// A member that is an integer.
pub open spec fn member_int(m: Map<Seq<char>, JsonModel>, key: Seq<char>) -> Option<int> {
    if m.contains_key(key) && m[key] is Int {
        Some(m[key]->Int_0)
    } else {
        None
    }
}

/// An optional integer member: absent or `null` reads as `None`; an integer
/// in `i64` as itself; anything else makes the envelope invalid.
pub open spec fn optional_int(m: Map<Seq<char>, JsonModel>, key: Seq<char>) -> Option<Option<int>> {
    if !m.contains_key(key) {
        Some(None)
    } else {
        match m[key] {
            JsonModel::Null => Some(None),
            JsonModel::Int(i) => if i64::MIN <= i <= i64::MAX {
                Some(Some(i))
            } else {
                None
            },
            _ => None,
        }
    }
}

/// An optional string member, read as `optional_int` reads integers.
pub open spec fn optional_str(m: Map<Seq<char>, JsonModel>, key: Seq<char>) -> Option<
    Option<Seq<char>>,
> {
    if !m.contains_key(key) {
        Some(None)
    } else {
        match m[key] {
            JsonModel::Null => Some(None),
            JsonModel::Str(x) => Some(Some(x)),
            _ => None,
        }
    }
}

/// The envelope that a JSON document holds: an object with an integer `op`
/// that fits in `i16`, any `d`, and optional `s` and `t`. Other members are
/// ignored.
pub open spec fn envelope_of(doc: JsonModel) -> Option<EnvelopeModel> {
    match doc {
        JsonModel::Object(m) => match member_int(m, "op"@) {
            Some(op) => if i16::MIN <= op <= i16::MAX && m.contains_key("d"@) && optional_int(
                m,
                "s"@,
            ) is Some && optional_str(m, "t"@) is Some {
                Some(
                    EnvelopeModel {
                        op,
                        d: m["d"@],
                        s: optional_int(m, "s"@)->Some_0,
                        t: optional_str(m, "t"@)->Some_0,
                    },
                )
            } else {
                None
            },
            None => None,
        },
        _ => None,
    }
}

/// The envelope that a text frame holds.
pub open spec fn decoded(text: Seq<char>) -> Option<EnvelopeModel> {
    match json_parse(text) {
        Some(doc) => envelope_of(doc),
        None => None,
    }
}

/// The JSON document of an envelope: `s` and `t` are left out when absent.
pub open spec fn envelope_json(e: EnvelopeModel) -> JsonModel {
    let base = map!["op"@ => JsonModel::Int(e.op), "d"@ => e.d];
    let with_s = match e.s {
        Some(k) => base.insert("s"@, JsonModel::Int(k)),
        None => base,
    };
    let with_t = match e.t {
        Some(x) => with_s.insert("t"@, JsonModel::Str(x)),
        None => with_s,
    };
    JsonModel::Object(with_t)
}

fn read_optional_int(v: &serde_json::Value, key: &str) -> (r: Option<Option<i64>>)
    requires
        json_model(*v) is Object,
    ensures
        match r {
            Some(Some(k)) => optional_int(json_model(*v)->Object_0, key@) == Some(Some(k as int)),
            Some(None) => optional_int(json_model(*v)->Object_0, key@) == Some(None::<int>),
            None => optional_int(json_model(*v)->Object_0, key@) is None,
        },
{
    match json_get(v, key) {
        None => Some(None),
        Some(x) => {
            if json_is_null(x) {
                Some(None)
            } else {
                match json_as_i64(x) {
                    Some(k) => Some(Some(k)),
                    None => None,
                }
            }
        },
    }
}

fn read_optional_str(v: &serde_json::Value, key: &str) -> (r: Option<Option<String>>)
    requires
        json_model(*v) is Object,
    ensures
        match r {
            Some(Some(x)) => optional_str(json_model(*v)->Object_0, key@) == Some(Some(x@)),
            Some(None) => optional_str(json_model(*v)->Object_0, key@) == Some(None::<Seq<char>>),
            None => optional_str(json_model(*v)->Object_0, key@) is None,
        },
{
    match json_get(v, key) {
        None => Some(None),
        Some(x) => {
            if json_is_null(x) {
                Some(None)
            } else {
                match json_as_str(x) {
                    Some(t) => Some(Some(t.to_owned())),
                    None => None,
                }
            }
        },
    }
}

/// Reads one text frame as an envelope. The payload is kept as it came, so an
/// unknown opcode or event name still decodes.
pub fn decode(text: &str) -> (r: Result<GatewayEvent<serde_json::Value>, DecodeError>)
    ensures
        match r {
            Ok(e) => decoded(text@) == Some(envelope_view(e)),
            Err(DecodeError::Syntax) => json_parse(text@) is None,
            Err(DecodeError::Envelope) => json_parse(text@) is Some && decoded(text@) is None,
        },
{
    let doc = match parse_json(text) {
        Some(doc) => doc,
        None => return Err(DecodeError::Syntax),
    };
    if !json_is_object(&doc) {
        return Err(DecodeError::Envelope);
    }
    let op = match json_get(&doc, "op") {
        Some(x) => match json_as_i64(x) {
            Some(k) => k,
            None => return Err(DecodeError::Envelope),
        },
        None => return Err(DecodeError::Envelope),
    };
    if op < -32768 || op > 32767 {
        return Err(DecodeError::Envelope);
    }
    let d = match json_get(&doc, "d") {
        Some(x) => x.clone(),
        None => return Err(DecodeError::Envelope),
    };
    let s = match read_optional_int(&doc, "s") {
        Some(s) => s,
        None => return Err(DecodeError::Envelope),
    };
    let t = match read_optional_str(&doc, "t") {
        Some(t) => t,
        None => return Err(DecodeError::Envelope),
    };
    Ok(GatewayEvent { op: op as i16, d, s, t })
}

} // verus!

verus! {

/// Writes an envelope as JSON text; absent `s` and `t` are left out.
pub fn encode(e: GatewayEvent<serde_json::Value>) -> (r: String)
    ensures
        r@ == json_text(envelope_json(envelope_view(e))),
{
    let ghost view = envelope_view(e);
    let mut obj = json_object();
    json_insert(&mut obj, "op".to_owned(), json_int(e.op as i64));
    json_insert(&mut obj, "d".to_owned(), e.d);
    let ghost base = json_model(obj)->Object_0;
    assert(base =~= map!["op"@ => JsonModel::Int(view.op), "d"@ => view.d]);
    match e.s {
        Some(k) => json_insert(&mut obj, "s".to_owned(), json_int(k)),
        None => {},
    }
    match e.t {
        Some(x) => json_insert(&mut obj, "t".to_owned(), json_string(x)),
        None => {},
    }
    assert(json_model(obj) == envelope_json(view));
    json_to_text(&obj)
}

/// The payload of the Identify frame, as a JSON document.
pub open spec fn identify_json(id: Identify) -> JsonModel {
    JsonModel::Object(
        map![
            "token"@ => JsonModel::Str(id.token@),
            "intents"@ => JsonModel::Int(id.intents as int),
            "properties"@ => JsonModel::Object(map![
                "os"@ => JsonModel::Str(id.properties.os@),
                "browser"@ => JsonModel::Str(id.properties.browser@),
                "device"@ => JsonModel::Str(id.properties.device@),
            ]),
        ],
    )
}

impl Identify {
    /// The payload as a JSON value.
    pub fn to_json(self) -> (r: serde_json::Value)
        ensures
            json_model(r) == identify_json(self),
    {
        let ghost id = self;
        let mut props = json_object();
        json_insert(&mut props, "os".to_owned(), json_string(self.properties.os));
        json_insert(&mut props, "browser".to_owned(), json_string(self.properties.browser));
        json_insert(&mut props, "device".to_owned(), json_string(self.properties.device));
        let ghost pm = json_model(props);
        let mut obj = json_object();
        json_insert(&mut obj, "token".to_owned(), json_string(self.token));
        json_insert(&mut obj, "intents".to_owned(), json_uint(self.intents));
        json_insert(&mut obj, "properties".to_owned(), props);
        assert(json_model(obj)->Object_0 =~= identify_json(id)->Object_0) by {
            assert(pm->Object_0 =~= identify_json(id)->Object_0["properties"@]->Object_0);
        }
        obj
    }
}

/// The heartbeat interval that a Hello envelope announces: opcode 10, and a
/// positive integer `heartbeat_interval` in the payload.
pub open spec fn hello_of(e: EnvelopeModel) -> Option<u64> {
    if e.op == 10 && e.d is Object && e.d->Object_0.contains_key("heartbeat_interval"@)
        && e.d->Object_0["heartbeat_interval"@] is Int {
        let n = e.d->Object_0["heartbeat_interval"@]->Int_0;
        if 0 < n <= u64::MAX {
            Some(n as u64)
        } else {
            None
        }
    } else {
        None
    }
}

/// Reads the Hello payload of an envelope, if it is a Hello.
pub fn hello_event(e: &GatewayEvent<serde_json::Value>) -> (r: Option<Hello>)
    ensures
        match r {
            Some(h) => hello_of(envelope_view(*e)) == Some(h.heartbeat_interval),
            None => hello_of(envelope_view(*e)) is None,
        },
{
    if e.op != OP_HELLO {
        return None;
    }
    match json_get(&e.d, "heartbeat_interval") {
        Some(x) => match json_as_u64(x) {
            Some(n) => if n > 0 {
                Some(Hello { heartbeat_interval: n })
            } else {
                None
            },
            None => None,
        },
        None => None,
    }
}

/// The fields of a "message created" payload: an object whose `id`,
/// `channel_id` and `content` are strings.
pub open spec fn message_of(d: JsonModel) -> Option<(Seq<char>, Seq<char>, Seq<char>)> {
    match d {
        JsonModel::Object(m) => if m.contains_key("id"@) && m["id"@] is Str && m.contains_key(
            "channel_id"@,
        ) && m["channel_id"@] is Str && m.contains_key("content"@) && m["content"@] is Str {
            Some((m["id"@]->Str_0, m["channel_id"@]->Str_0, m["content"@]->Str_0))
        } else {
            None
        },
        _ => None,
    }
}

fn read_str(v: &serde_json::Value, key: &str) -> (r: Option<String>)
    ensures
        match r {
            Some(x) => json_model(*v) is Object && json_model(*v)->Object_0.contains_key(key@)
                && json_model(*v)->Object_0[key@] == JsonModel::Str(x@),
            None => !(json_model(*v) is Object && json_model(*v)->Object_0.contains_key(key@)
                && json_model(*v)->Object_0[key@] is Str),
        },
{
    match json_get(v, key) {
        Some(x) => match json_as_str(x) {
            Some(s) => Some(s.to_owned()),
            None => None,
        },
        None => None,
    }
}

/// Reads a "message created" payload.
pub fn message_event(d: &serde_json::Value) -> (r: Option<Message>)
    ensures
        match r {
            Some(msg) => message_of(json_model(*d)) == Some((msg.id@, msg.channel_id@, msg.content@)),
            None => message_of(json_model(*d)) is None,
        },
{
    let id = match read_str(d, "id") {
        Some(x) => x,
        None => return None,
    };
    let channel_id = match read_str(d, "channel_id") {
        Some(x) => x,
        None => return None,
    };
    let content = match read_str(d, "content") {
        Some(x) => x,
        None => return None,
    };
    Some(Message { id, channel_id, content })
}

} // verus!

verus! {

/// The opcodes of the protocol.
pub const OP_DISPATCH: i16 = 0;
pub const OP_HEARTBEAT: i16 = 1;
pub const OP_IDENTIFY: i16 = 2;
pub const OP_HELLO: i16 = 10;
pub const OP_HEARTBEAT_ACK: i16 = 11;

/// The event subscriptions requested at Identify: guild messages, guild
/// message reactions and message content.
pub const IDENTIFY_INTENTS: u64 = (1 << 9) | (1 << 10) | (1 << 15);

/// The event named by a dispatch frame.
pub enum DispatchEvent {
    /// A "message created" event with a readable payload.
    MessageCreate(Message),
    /// A "message created" event whose payload is not a message.
    MalformedMessage,
    /// Any other event name, or none.
    Other(Option<String>),
}

/// What an inbound text frame means to the client.
pub enum Inbound {
    Hello { heartbeat_interval: u64 },
    HeartbeatAck,
    Dispatch { event: DispatchEvent, s: Option<i64> },
    /// Any other opcode, including a Hello without a usable interval.
    Other { op: i16 },
    /// The frame is not an envelope.
    Undecodable,
}

pub open spec fn int_view(k: Option<i64>) -> Option<int> {
    match k {
        Some(k) => Some(k as int),
        None => None,
    }
}

pub open spec fn text_view(x: Option<String>) -> Option<Seq<char>> {
    match x {
        Some(x) => Some(x@),
        None => None,
    }
}

/// Whether `ev` is the event that a dispatch envelope `e` carries.
pub open spec fn dispatch_matches(ev: DispatchEvent, e: EnvelopeModel) -> bool {
    if e.t == Some("MESSAGE_CREATE"@) {
        match message_of(e.d) {
            Some(f) => ev matches DispatchEvent::MessageCreate(m) && f == (
                m.id@,
                m.channel_id@,
                m.content@,
            ),
            None => ev is MalformedMessage,
        }
    } else {
        ev matches DispatchEvent::Other(name) && text_view(name) == e.t
    }
}

/// Whether `r` is what the decoded frame `e` means.
pub open spec fn inbound_matches(r: Inbound, e: Option<EnvelopeModel>) -> bool {
    match e {
        None => r is Undecodable,
        Some(e) => if e.op == 0 {
            &&& r matches Inbound::Dispatch { event, s }
            &&& int_view(s) == e.s
            &&& dispatch_matches(event, e)
        } else if e.op == 11 {
            r is HeartbeatAck
        } else if hello_of(e) is Some {
            r == Inbound::Hello { heartbeat_interval: hello_of(e)->Some_0 }
        } else {
            r == Inbound::Other { op: e.op as i16 }
        },
    }
}

/// Reads an inbound text frame. A frame that is no envelope is reported, not
/// fatal; an unknown opcode or event name is passed through.
pub fn read_frame(text: &str) -> (r: Inbound)
    ensures
        inbound_matches(r, decoded(text@)),
{
    let e = match decode(text) {
        Ok(e) => e,
        Err(_) => return Inbound::Undecodable,
    };
    if e.op == OP_DISPATCH {
        let event = match e.t {
            Some(name) => {
                if name == "MESSAGE_CREATE".to_owned() {
                    match message_event(&e.d) {
                        Some(m) => DispatchEvent::MessageCreate(m),
                        None => DispatchEvent::MalformedMessage,
                    }
                } else {
                    DispatchEvent::Other(Some(name))
                }
            },
            None => DispatchEvent::Other(None),
        };
        Inbound::Dispatch { event, s: e.s }
    } else if e.op == OP_HEARTBEAT_ACK {
        Inbound::HeartbeatAck
    } else {
        match hello_event(&e) {
            Some(h) => Inbound::Hello { heartbeat_interval: h.heartbeat_interval },
            None => Inbound::Other { op: e.op },
        }
    }
}

/// The Identify payload for a credential: fixed intents, empty properties.
pub open spec fn identify_payload(token: Seq<char>) -> JsonModel {
    JsonModel::Object(
        map![
            "token"@ => JsonModel::Str(token),
            "intents"@ => JsonModel::Int(IDENTIFY_INTENTS as int),
            "properties"@ => JsonModel::Object(map![
                "os"@ => JsonModel::Str(Seq::empty()),
                "browser"@ => JsonModel::Str(Seq::empty()),
                "device"@ => JsonModel::Str(Seq::empty()),
            ]),
        ],
    )
}

/// The Identify envelope for a credential.
pub open spec fn identify_envelope(token: Seq<char>) -> EnvelopeModel {
    EnvelopeModel { op: 2, d: identify_payload(token), s: None, t: None }
}

/// The payload of a heartbeat: the sequence cursor, or `null`.
pub open spec fn heartbeat_envelope(seq: Option<i64>) -> EnvelopeModel {
    EnvelopeModel {
        op: 1,
        d: match seq {
            Some(k) => JsonModel::Int(k as int),
            None => JsonModel::Null,
        },
        s: None,
        t: None,
    }
}

/// The text of the Identify frame that presents `token`.
pub fn identify_frame(token: &str) -> (r: String)
    ensures
        r@ == json_text(envelope_json(identify_envelope(token@))),
{
    let id = Identify {
        token: token.to_owned(),
        intents: IDENTIFY_INTENTS,
        properties: ConnectionProperties {
            os: String::new(),
            browser: String::new(),
            device: String::new(),
        },
    };
    let d = id.to_json();
    assert(identify_json(id)->Object_0 =~= identify_payload(token@)->Object_0) by {
        assert(identify_json(id)->Object_0["properties"@]->Object_0
            =~= identify_payload(token@)->Object_0["properties"@]->Object_0);
    }
    encode(GatewayEvent { op: OP_IDENTIFY, d, s: None, t: None })
}

/// The text of a heartbeat frame carrying the sequence cursor `seq`.
pub fn heartbeat_frame(seq: Option<i64>) -> (r: String)
    ensures
        r@ == json_text(envelope_json(heartbeat_envelope(seq))),
{
    let d = match seq {
        Some(k) => json_int(k),
        None => crate::json::json_null(),
    };
    encode(GatewayEvent { op: OP_HEARTBEAT, d, s: None, t: None })
}

} // verus!

verus! {

/// A text that is not JSON reads as an undecodable frame, which the session
/// skips; it is never an error of the connection.
pub proof fn lemma_invalid_json_is_undecodable(text: Seq<char>, r: Inbound)
    requires
        json_parse(text) is None,
        inbound_matches(r, decoded(text)),
    ensures
        r is Undecodable,
{
}

/// A dispatch envelope whose event name is not a known one reads as that
/// event, passed through with its sequence number.
pub proof fn lemma_unknown_event_passes_through(e: EnvelopeModel, r: Inbound)
    requires
        e.op == 0,
        e.t != Some("MESSAGE_CREATE"@),
        inbound_matches(r, Some(e)),
    ensures
        r matches Inbound::Dispatch { event: DispatchEvent::Other(name), s } && text_view(name)
            == e.t && int_view(s) == e.s,
{
}

} // verus!
