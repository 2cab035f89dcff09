//! The decisions of one Gateway connection, as a state machine: the handshake,
//! the heartbeat, and the handling of inbound frames. The caller performs each
//! action and reports each event; nothing here waits or performs I/O.
use vstd::prelude::*;

use crate::codec::{DispatchEvent, Inbound};
use crate::discord::Message;

verus! {

/// The errors that end a session.
#[derive(Clone, Copy, PartialEq, Eq, Debug, Structural)]
pub enum GatewayError {
    /// The credential cannot be presented (it holds a control character).
    Credential,
    /// The connection did not open with a usable Hello frame.
    HandshakeFailed,
}

/// Where a connection stands.
#[derive(Clone, Copy, PartialEq, Eq, Debug, Structural)]
pub enum Phase {
    /// Open, waiting for the server's Hello.
    AwaitingHello,
    /// Identify was sent; heartbeats run at the announced interval.
    Identified { heartbeat_interval: u64 },
    /// The connection ended.
    Closed,
}

/// The state of one connection.
#[derive(Clone, Copy, PartialEq, Eq, Debug, Structural)]
pub struct Session {
    pub phase: Phase,
    /// The sequence cursor: the highest `s` seen on a dispatch frame.
    pub sequence: Option<i64>,
    /// Whether a heartbeat was sent and no acknowledgment has come since.
    pub awaiting_ack: bool,
}

/// What happened to the connection.
pub enum Event {
    /// A text frame arrived.
    Frame(Inbound),
    /// The heartbeat timer fired.
    HeartbeatDue,
    /// The inbound stream ended.
    Closed,
}

/// What the caller must do next.
pub enum Action {
    /// Send the Identify frame, then start the heartbeat timer.
    Identify { heartbeat_interval: u64 },
    /// Send a heartbeat frame carrying `seq`.
    Heartbeat { seq: Option<i64> },
    /// Hand a new message to the handlers.
    Deliver(Message),
    /// Nothing to do.
    Skip,
    /// Report a frame that could not be read, and go on.
    Warn,
    /// End the session with an error.
    Fail(GatewayError),
    /// End the session: stop the heartbeat timer.
    Stop,
}

/// The cursor after a dispatch frame with sequence number `seq`: it moves to
/// `seq` unless it already stands higher.
pub open spec fn advance(cursor: Option<i64>, seq: Option<i64>) -> Option<i64> {
    match seq {
        None => cursor,
        Some(k) => match cursor {
            Some(c) => if c >= k {
                Some(c)
            } else {
                Some(k)
            },
            None => Some(k),
        },
    }
}

/// The handling of an inbound frame on an identified connection.
pub open spec fn on_frame(s: Session, f: Inbound) -> (Session, Action) {
    match f {
        Inbound::HeartbeatAck => (Session { awaiting_ack: false, ..s }, Action::Skip),
        Inbound::Dispatch { event, s: seq } => (
            Session { sequence: advance(s.sequence, seq), ..s },
            match event {
                DispatchEvent::MessageCreate(m) => Action::Deliver(m),
                DispatchEvent::MalformedMessage => Action::Warn,
                DispatchEvent::Other(_) => Action::Skip,
            },
        ),
        Inbound::Undecodable => (s, Action::Warn),
        _ => (s, Action::Skip),
    }
}

/// One step of the connection.
pub open spec fn step(s: Session, ev: Event) -> (Session, Action) {
    match s.phase {
        Phase::AwaitingHello => match ev {
            Event::Frame(Inbound::Hello { heartbeat_interval }) => (
                Session { phase: Phase::Identified { heartbeat_interval }, ..s },
                Action::Identify { heartbeat_interval },
            ),
            Event::HeartbeatDue => (s, Action::Skip),
            _ => (Session { phase: Phase::Closed, ..s }, Action::Fail(GatewayError::HandshakeFailed)),
        },
        Phase::Identified { .. } => match ev {
            Event::Frame(f) => on_frame(s, f),
            Event::HeartbeatDue => (
                Session { awaiting_ack: true, ..s },
                Action::Heartbeat { seq: s.sequence },
            ),
            Event::Closed => (Session { phase: Phase::Closed, ..s }, Action::Stop),
        },
        Phase::Closed => (s, Action::Stop),
    }
}

/// The state after a run of events, and the action taken at each.
pub open spec fn run(s: Session, evs: Seq<Event>) -> (Session, Seq<Action>)
    decreases evs.len(),
{
    if evs.len() == 0 {
        (s, Seq::empty())
    } else {
        let (s1, a) = step(s, evs[0]);
        let (s2, rest) = run(s1, evs.drop_first());
        (s2, seq![a] + rest)
    }
}

/// A fresh connection.
pub open spec fn initial() -> Session {
    Session { phase: Phase::AwaitingHello, sequence: None, awaiting_ack: false }
}

impl Session {
    /// A session for a connection that was just opened.
    pub fn new() -> (r: Session)
        ensures
            r == initial(),
    {
        Session { phase: Phase::AwaitingHello, sequence: None, awaiting_ack: false }
    }

    /// Takes one event and says what to do about it.
    pub fn handle(&mut self, ev: Event) -> (a: Action)
        ensures
            (*final(self), a) == step(*old(self), ev),
    {
        match self.phase {
            Phase::AwaitingHello => match ev {
                Event::Frame(Inbound::Hello { heartbeat_interval }) => {
                    self.phase = Phase::Identified { heartbeat_interval };
                    Action::Identify { heartbeat_interval }
                },
                Event::HeartbeatDue => Action::Skip,
                _ => {
                    self.phase = Phase::Closed;
                    Action::Fail(GatewayError::HandshakeFailed)
                },
            },
            Phase::Identified { .. } => match ev {
                Event::Frame(f) => self.handle_frame(f),
                Event::HeartbeatDue => {
                    self.awaiting_ack = true;
                    Action::Heartbeat { seq: self.sequence }
                },
                Event::Closed => {
                    self.phase = Phase::Closed;
                    Action::Stop
                },
            },
            Phase::Closed => Action::Stop,
        }
    }

    fn handle_frame(&mut self, f: Inbound) -> (a: Action)
        ensures
            (*final(self), a) == on_frame(*old(self), f),
    {
        match f {
            Inbound::HeartbeatAck => {
                self.awaiting_ack = false;
                Action::Skip
            },
            Inbound::Dispatch { event, s } => {
                match s {
                    Some(k) => match self.sequence {
                        Some(c) => if c < k {
                            self.sequence = Some(k);
                        },
                        None => self.sequence = Some(k),
                    },
                    None => {},
                }
                match event {
                    DispatchEvent::MessageCreate(m) => Action::Deliver(m),
                    DispatchEvent::MalformedMessage => Action::Warn,
                    DispatchEvent::Other(_) => Action::Skip,
                }
            },
            Inbound::Undecodable => Action::Warn,
            _ => Action::Skip,
        }
    }
}

} // verus!

verus! {

/// Whether the first event of a run, timer events aside, is a Hello frame.
pub open spec fn opens_with_hello(evs: Seq<Event>) -> bool
    decreases evs.len(),
{
    if evs.len() == 0 {
        false
    } else {
        match evs[0] {
            Event::HeartbeatDue => opens_with_hello(evs.drop_first()),
            Event::Frame(Inbound::Hello { .. }) => true,
            _ => false,
        }
    }
}

/// The sequence numbers carried by the dispatch frames of a run, in order.
pub open spec fn observed(evs: Seq<Event>) -> Seq<i64>
    decreases evs.len(),
{
    if evs.len() == 0 {
        Seq::empty()
    } else {
        let rest = observed(evs.drop_first());
        match evs[0] {
            Event::Frame(Inbound::Dispatch { s: Some(k), .. }) => seq![k] + rest,
            _ => rest,
        }
    }
}

pub open spec fn as_seq(c: Option<i64>) -> Seq<i64> {
    match c {
        Some(k) => seq![k],
        None => Seq::empty(),
    }
}

/// `c` is the largest of `xs`, and `None` exactly when `xs` is empty.
pub open spec fn is_max_of(c: Option<i64>, xs: Seq<i64>) -> bool {
    match c {
        None => xs.len() == 0,
        Some(k) => xs.contains(k) && forall|j: int| 0 <= j < xs.len() ==> xs[j] <= k,
    }
}

pub open spec fn no_close(evs: Seq<Event>) -> bool {
    forall|i: int| 0 <= i < evs.len() ==> !(evs[i] is Closed)
}

proof fn lemma_run_len(s: Session, evs: Seq<Event>)
    ensures
        run(s, evs).1.len() == evs.len(),
    decreases evs.len(),
{
    if evs.len() > 0 {
        lemma_run_len(step(s, evs[0]).0, evs.drop_first());
    }
}

/// Once identified or closed, a connection never identifies again.
proof fn lemma_no_identify(s: Session, evs: Seq<Event>)
    requires
        !(s.phase is AwaitingHello),
    ensures
        forall|i: int| 0 <= i < evs.len() ==> !(run(s, evs).1[i] is Identify),
    decreases evs.len(),
{
    lemma_run_len(s, evs);
    if evs.len() > 0 {
        let s1 = step(s, evs[0]).0;
        lemma_no_identify(s1, evs.drop_first());
        assert forall|i: int| 0 <= i < evs.len() implies !(run(s, evs).1[i] is Identify) by {
            if i > 0 {
                assert(run(s, evs).1[i] == run(s1, evs.drop_first()).1[i - 1]);
            }
        }
    }
}

proof fn lemma_handshake_from(s: Session, evs: Seq<Event>)
    requires
        s.phase is AwaitingHello,
    ensures
        ({
            let acts = run(s, evs).1;
            &&& forall|i: int, j: int|
                0 <= i < j < acts.len() ==> !(acts[i] is Identify && acts[j] is Identify)
            &&& forall|i: int, j: int|
                0 <= i <= j < acts.len() && acts[j] is Identify ==> !(acts[i] is Heartbeat)
            &&& forall|i: int|
                0 <= i < acts.len() && acts[i] is Identify ==> (evs[i] matches Event::Frame(
                    Inbound::Hello { .. },
                ))
            &&& (exists|i: int| 0 <= i < acts.len() && acts[i] is Identify) <==> opens_with_hello(
                evs,
            )
        }),
    decreases evs.len(),
{
    lemma_run_len(s, evs);
    if evs.len() > 0 {
        let (s1, a) = step(s, evs[0]);
        let rest = evs.drop_first();
        let acts = run(s, evs).1;
        let tail = run(s1, rest).1;
        lemma_run_len(s1, rest);
        assert(acts == seq![a] + tail);
        assert forall|i: int| 0 < i < acts.len() implies acts[i] == tail[i - 1] by {}
        assert forall|i: int| 0 < i < acts.len() implies evs[i] == rest[i - 1] by {}
        match evs[0] {
            Event::HeartbeatDue => {
                lemma_handshake_from(s1, rest);
                if opens_with_hello(evs) {
                    let k = choose|k: int| 0 <= k < tail.len() && tail[k] is Identify;
                    assert(acts[k + 1] is Identify);
                }
                if exists|i: int| 0 <= i < acts.len() && acts[i] is Identify {
                    let k = choose|k: int| 0 <= k < acts.len() && acts[k] is Identify;
                    assert(tail[k - 1] is Identify);
                }
            },
            Event::Frame(Inbound::Hello { .. }) => {
                lemma_no_identify(s1, rest);
                assert(acts[0] is Identify);
            },
            _ => {
                lemma_no_identify(s1, rest);
                assert forall|i: int| 0 <= i < acts.len() implies !(acts[i] is Identify) by {
                    if i > 0 {
                        assert(!(tail[i - 1] is Identify));
                    }
                }
            },
        }
    }
}

/// On every connection, Identify is sent at most once, and exactly once when
/// the first frame is a Hello; it answers that Hello, and no heartbeat goes out
/// before it.
pub proof fn lemma_identify_once_and_first(evs: Seq<Event>)
    ensures
        ({
            let acts = run(initial(), evs).1;
            &&& forall|i: int, j: int|
                0 <= i < j < acts.len() ==> !(acts[i] is Identify && acts[j] is Identify)
            &&& forall|i: int, j: int|
                0 <= i <= j < acts.len() && acts[j] is Identify ==> !(acts[i] is Heartbeat)
            &&& forall|i: int|
                0 <= i < acts.len() && acts[i] is Identify ==> (evs[i] matches Event::Frame(
                    Inbound::Hello { .. },
                ))
            &&& (exists|i: int| 0 <= i < acts.len() && acts[i] is Identify) <==> opens_with_hello(
                evs,
            )
        }),
{
    lemma_handshake_from(initial(), evs);
}

} // verus!

verus! {

/// After any run of frames and timer events on an identified connection, the
/// connection is still identified and its cursor is the largest sequence
/// number seen so far, counting the one it held before; it is `None` only
/// while none was seen.
pub proof fn lemma_cursor_is_max(s: Session, evs: Seq<Event>)
    requires
        s.phase is Identified,
        no_close(evs),
    ensures
        run(s, evs).0.phase == s.phase,
        is_max_of(run(s, evs).0.sequence, as_seq(s.sequence) + observed(evs)),
    decreases evs.len(),
{
    let all = as_seq(s.sequence) + observed(evs);
    if evs.len() == 0 {
        assert(observed(evs) =~= Seq::empty());
        assert(all =~= as_seq(s.sequence));
        if s.sequence is Some {
            assert(all[0] == s.sequence->Some_0);
        }
    } else {
        let s1 = step(s, evs[0]).0;
        let rest = evs.drop_first();
        assert(no_close(rest)) by {
            assert forall|i: int| 0 <= i < rest.len() implies !(rest[i] is Closed) by {
                assert(rest[i] == evs[i + 1]);
            }
        }
        lemma_cursor_is_max(s1, rest);
        let c = run(s, evs).0.sequence;
        let all1 = as_seq(s1.sequence) + observed(rest);
        let head = match evs[0] {
            Event::Frame(Inbound::Dispatch { s: Some(k), .. }) => seq![k],
            _ => Seq::<i64>::empty(),
        };
        assert(observed(evs) == head + observed(rest));
        assert(all =~= as_seq(s.sequence) + head + observed(rest));
        // Each of the first two parts of `all` is at most the new cursor,
        // which is itself in `all`.
        assert forall|j: int| 0 <= j < as_seq(s.sequence).len() + head.len() implies (
        s1.sequence matches Some(m) && #[trigger] all[j] <= m) by {}
        assert(s1.sequence is None ==> as_seq(s.sequence).len() + head.len() == 0);
        if s1.sequence is Some {
            if s1.sequence == s.sequence {
                assert(all[0] == s1.sequence->Some_0);
            } else {
                assert(all[as_seq(s.sequence).len() as int] == s1.sequence->Some_0);
            }
        }
        assert(s1.sequence matches Some(m) ==> (exists|j: int|
            0 <= j < as_seq(s.sequence).len() + head.len() && all[j] == m));
        match c {
            None => {
                assert(all1.len() == 0);
                assert(all.len() == 0);
            },
            Some(k) => {
                assert forall|j: int| 0 <= j < all.len() implies all[j] <= k by {
                    let n = as_seq(s.sequence).len() + head.len();
                    if j >= n {
                        assert(all[j] == all1[j - n + as_seq(s1.sequence).len()]);
                    } else {
                        assert(all1[0] == s1.sequence->Some_0);
                    }
                }
                let j1 = choose|j1: int| 0 <= j1 < all1.len() && all1[j1] == k;
                let n1 = as_seq(s1.sequence).len();
                if j1 >= n1 {
                    let n = as_seq(s.sequence).len() + head.len();
                    assert(all[j1 - n1 + n] == k);
                } else {
                    let j = choose|j: int|
                        0 <= j < as_seq(s.sequence).len() + head.len() && all[j] == s1.sequence->Some_0;
                    assert(all[j] == k);
                }
            },
        }
    }
}

proof fn lemma_run_prefix(s: Session, evs: Seq<Event>, i: int)
    requires
        0 <= i < evs.len(),
    ensures
        run(s, evs).1[i] == step(run(s, evs.take(i)).0, evs[i]).1,
    decreases i,
{
    let s1 = step(s, evs[0]).0;
    let rest = evs.drop_first();
    lemma_run_len(s1, rest);
    if i > 0 {
        lemma_run_prefix(s1, rest, i - 1);
        assert(evs.take(i).drop_first() =~= rest.take(i - 1));
        assert(evs.take(i)[0] == evs[0]);
    } else {
        assert(evs.take(0) =~= Seq::<Event>::empty());
    }
}

/// Every heartbeat sent on an identified connection carries the cursor as it
/// stands: the largest sequence number seen before it, or none while none was
/// seen.
pub proof fn lemma_heartbeat_carries_cursor(s: Session, evs: Seq<Event>)
    requires
        s.phase is Identified,
        no_close(evs),
    ensures
        forall|i: int|
            0 <= i < evs.len() ==> (#[trigger] run(s, evs).1[i] matches Action::Heartbeat { seq } ==> is_max_of(
                seq,
                as_seq(s.sequence) + observed(evs.take(i)),
            )),
{
    lemma_run_len(s, evs);
    assert forall|i: int|
        0 <= i < evs.len() implies (#[trigger] run(s, evs).1[i] matches Action::Heartbeat { seq }
        ==> is_max_of(seq, as_seq(s.sequence) + observed(evs.take(i)))) by {
        let prefix = evs.take(i);
        assert(no_close(prefix)) by {
            assert forall|j: int| 0 <= j < prefix.len() implies !(prefix[j] is Closed) by {
                assert(prefix[j] == evs[j]);
            }
        }
        lemma_run_prefix(s, evs, i);
        lemma_cursor_is_max(s, prefix);
    }
}

/// A frame that cannot be read is reported and changes nothing: the frames
/// after it are handled as if it had not come.
pub proof fn lemma_undecodable_frame_skipped(s: Session, evs: Seq<Event>)
    requires
        s.phase is Identified,
    ensures
        run(s, seq![Event::Frame(Inbound::Undecodable)] + evs) == (
            run(s, evs).0,
            seq![Action::Warn] + run(s, evs).1,
        ),
{
    let all = seq![Event::Frame(Inbound::Undecodable)] + evs;
    assert(all.drop_first() =~= evs);
}

/// A dispatch frame with an unknown event name is no error: it is skipped, and
/// it moves the cursor only by the sequence number it carries.
pub proof fn lemma_unknown_event_skipped(s: Session, name: Option<String>, seq: Option<i64>)
    requires
        s.phase is Identified,
    ensures
        ({
            let (s1, a) = step(
                s,
                Event::Frame(Inbound::Dispatch { event: DispatchEvent::Other(name), s: seq }),
            );
            &&& a is Skip
            &&& s1 == Session { sequence: advance(s.sequence, seq), ..s }
            &&& seq is None ==> s1 == s
        }),
{
}

} // verus!
