//! The client of one Gateway connection: the credential, the heartbeat
//! schedule, and the session state that inbound frames drive.
use rand::Rng;
use vstd::prelude::*;

use crate::codec::{
    decoded, heartbeat_envelope, heartbeat_frame, hello_of, identify_envelope, identify_frame,
    envelope_json, read_frame, Inbound,
};
use crate::json::json_text;
use crate::session::{initial, step, Action, Event, GatewayError, Phase, Session};

verus! {

#[verifier::external_type_specification]
#[verifier::external_body]
pub struct ExHeaderValue(reqwest::header::HeaderValue);

#[verifier::external_type_specification]
#[verifier::external_body]
pub struct ExInvalidHeaderValue(reqwest::header::InvalidHeaderValue);

/// A character that an HTTP header value may hold: visible ASCII, a space, a
/// tab, or any character beyond ASCII.
pub open spec fn header_char(c: char) -> bool {
    (c as u32 >= 32 && c as u32 != 127) || c == '\t'
}

pub open spec fn header_safe(s: Seq<char>) -> bool {
    forall|i: int| 0 <= i < s.len() ==> header_char(#[trigger] s[i])
}

/// The text that a header value holds.
pub uninterp spec fn header_text(h: reqwest::header::HeaderValue) -> Seq<char>;

/// Relies on `HeaderValue::from_str`: it accepts a text exactly when each of
/// its UTF-8 bytes is a tab or at least 32 and not 127, and then holds those
/// bytes unchanged.
#[verifier::external_body]
fn header_value(s: &str) -> (r: Result<reqwest::header::HeaderValue, reqwest::header::InvalidHeaderValue>)
    ensures
        r is Ok <==> header_safe(s@),
        r matches Ok(h) ==> header_text(h) == s@,
{
    reqwest::header::HeaderValue::from_str(s)
}

/// The `Authorization` header that presents a bot token: `Bot ` and the token.
pub fn authorization_header(token: &str) -> (r: Result<reqwest::header::HeaderValue, GatewayError>)
    ensures
        match r {
            Ok(h) => header_safe(token@) && header_text(h) == "Bot "@ + token@,
            Err(e) => !header_safe(token@) && e == GatewayError::Credential,
        },
{
    let mut text = "Bot ".to_owned();
    text.append(token);
    proof {
        reveal_strlit("Bot ");
        let full = text@;
        assert(full =~= "Bot "@ + token@);
        if header_safe(token@) {
            assert forall|i: int| 0 <= i < full.len() implies header_char(#[trigger] full[i]) by {
                if i >= 4 {
                    assert(full[i] == token@[i - 4]);
                }
            }
        } else {
            let i = choose|i: int| 0 <= i < token@.len() && !header_char(token@[i]);
            assert(full[i + 4] == token@[i]);
        }
    }
    match header_value(text.as_str()) {
        Ok(h) => Ok(h),
        Err(_) => Err(GatewayError::Credential),
    }
}

/// Relies on `rand::Rng::gen_range` over `thread_rng`: a number drawn from
/// `0..n`, which must not be empty.
#[verifier::external_body]
fn random_below(n: u64) -> (r: u64)
    requires
        n > 0,
    ensures
        r < n,
{
    rand::thread_rng().gen_range(0..n)
}

/// How long to wait before the next heartbeat, in milliseconds, when
/// `beats_sent` heartbeats went out already: a random part of the interval
/// before the first, so that clients sharing an interval spread out, and the
/// whole interval after that.
pub fn heartbeat_delay(heartbeat_interval: u64, beats_sent: u64) -> (r: u64)
    requires
        heartbeat_interval > 0,
    ensures
        beats_sent == 0 ==> r < heartbeat_interval,
        beats_sent > 0 ==> r == heartbeat_interval,
{
    if beats_sent == 0 {
        random_below(heartbeat_interval)
    } else {
        heartbeat_interval
    }
}

/// The interval that a connection's first frame announces, if it is a Hello.
pub open spec fn hello_in(frame: Option<String>) -> Option<u64> {
    match frame {
        Some(x) => match decoded(x@) {
            Some(e) => hello_of(e),
            None => None,
        },
        None => None,
    }
}

/// A Gateway client: the credential and the state of its connection.
pub struct Client {
    token: String,
    authorization: reqwest::header::HeaderValue,
    session: Session,
}

impl Client {
    /// The header always presents the credential.
    #[verifier::type_invariant]
    spec fn header_presents_token(&self) -> bool {
        header_text(self.authorization) == "Bot "@ + self.token@
    }

    pub closed spec fn credential(&self) -> Seq<char> {
        self.token@
    }

    pub closed spec fn state(&self) -> Session {
        self.session
    }

    /// The text of the `Authorization` header the client presents.
    pub closed spec fn authorization_text(&self) -> Seq<char> {
        header_text(self.authorization)
    }

    /// A client for `token`; fails when the token cannot stand in a header.
    pub fn new(token: &str) -> (r: Result<Client, GatewayError>)
        ensures
            match r {
                Ok(c) => {
                    &&& header_safe(token@)
                    &&& c.credential() == token@
                    &&& c.authorization_text() == "Bot "@ + token@
                    &&& c.state() == initial()
                },
                Err(e) => !header_safe(token@) && e == GatewayError::Credential,
            },
    {
        let authorization = match authorization_header(token) {
            Ok(h) => h,
            Err(e) => return Err(e),
        };
        Ok(Client { token: token.to_owned(), authorization, session: Session::new() })
    }

    /// The header that presents the credential to the REST API.
    pub fn authorization(&self) -> (r: &reqwest::header::HeaderValue)
        ensures
            header_text(*r) == self.authorization_text(),
            header_text(*r) == "Bot "@ + self.credential(),
    {
        proof {
            use_type_invariant(self);
        }
        &self.authorization
    }

    pub fn session(&self) -> (r: Session)
        ensures
            r == self.state(),
    {
        self.session
    }

    /// The sequence cursor: the highest sequence number seen on this connection.
    pub fn sequence_number(&self) -> (r: Option<i64>)
        ensures
            r == self.state().sequence,
    {
        self.session.sequence
    }

    /// Starts over on a new connection: the cursor is forgotten.
    pub fn reconnect(&mut self)
        ensures
            final(self).state() == initial(),
            final(self).credential() == old(self).credential(),
    {
        proof {
            use_type_invariant(&*self);
        }
        self.session = Session::new();
    }

    /// Takes one event of the connection and says what to do about it.
    pub fn handle_event(&mut self, ev: Event) -> (a: Action)
        ensures
            (final(self).state(), a) == step(old(self).state(), ev),
            final(self).credential() == old(self).credential(),
    {
        proof {
            use_type_invariant(&*self);
        }
        let mut session = self.session;
        let a = session.handle(ev);
        self.session = session;
        a
    }

    /// Handles one inbound text frame.
    pub fn handle_text_websocket_message(&mut self, x: String) -> (a: Action)
        ensures
            exists|f: Inbound|
                crate::codec::inbound_matches(f, decoded(x@)) && (final(self).state(), a) == step(
                    old(self).state(),
                    Event::Frame(f),
                ),
            final(self).credential() == old(self).credential(),
    {
        let f = read_frame(x.as_str());
        let ghost g = f;
        proof {
            use_type_invariant(&*self);
        }
        let mut session = self.session;
        let a = session.handle(Event::Frame(f));
        self.session = session;
        assert(crate::codec::inbound_matches(g, decoded(x@)));
        a
    }

    /// Completes the handshake with the connection's first frame (`None` when
    /// the stream ended first): a Hello yields its interval and moves the
    /// session on; anything else fails the handshake and closes the session.
    pub fn receive_hello_event(&mut self, frame: Option<String>) -> (r: Result<u64, GatewayError>)
        requires
            old(self).state().phase is AwaitingHello,
        ensures
            final(self).credential() == old(self).credential(),
            final(self).state().sequence == old(self).state().sequence,
            match hello_in(frame) {
                Some(n) => r == Ok::<u64, GatewayError>(n) && final(self).state().phase
                    == Phase::Identified { heartbeat_interval: n },
                None => r == Err::<u64, GatewayError>(GatewayError::HandshakeFailed)
                    && final(self).state().phase is Closed,
            },
    {
        let ev = match frame {
            Some(x) => Event::Frame(read_frame(x.as_str())),
            None => Event::Closed,
        };
        proof {
            use_type_invariant(&*self);
        }
        let mut session = self.session;
        let a = session.handle(ev);
        self.session = session;
        match a {
            Action::Identify { heartbeat_interval } => Ok(heartbeat_interval),
            _ => Err(GatewayError::HandshakeFailed),
        }
    }

    /// The Identify frame that presents this client's credential.
    pub fn identify_frame(&self) -> (r: String)
        ensures
            r@ == json_text(envelope_json(identify_envelope(self.credential()))),
    {
        identify_frame(self.token.as_str())
    }

    /// A heartbeat frame carrying the current sequence cursor.
    pub fn heartbeat_frame(&self) -> (r: String)
        ensures
            r@ == json_text(envelope_json(heartbeat_envelope(self.state().sequence))),
    {
        heartbeat_frame(self.session.sequence)
    }
}

} // verus!
