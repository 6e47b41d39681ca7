//! The stream of events for programs: which events are told, to whom, and how.
use vstd::prelude::*;

use crate::agent::json::{kind_text, EventEnvelope, EventKind};
use crate::event::inbound::InboundEvent;
use crate::text::{self, copy_opt, join3, text_opt};
use crate::types::message::Message;

verus! {

/// The mathematical form of an [`EventEnvelope`].
pub ghost struct EnvelopeV {
    pub kind: EventKind,
    pub space_id: Seq<char>,
    pub topic_id: Option<Seq<char>>,
    pub message_id: Option<Seq<char>>,
    pub author_id: Option<Seq<char>>,
    pub text: Option<Seq<char>>,
    pub timestamp_usec: Option<u64>,
}

impl View for EventEnvelope {
    type V = EnvelopeV;

    open spec fn view(&self) -> EnvelopeV {
        EnvelopeV {
            kind: self.kind,
            space_id: self.space_id@,
            topic_id: text_opt(self.topic_id),
            message_id: text_opt(self.message_id),
            author_id: text_opt(self.author_id),
            text: text_opt(self.text),
            timestamp_usec: self.timestamp_usec,
        }
    }
}

/// What a reader of the stream wants to see. A part that is not set, or empty, lets
/// everything through.
#[derive(Debug)]
pub struct EventFilter {
    pub space_id: Option<String>,
    pub topic_id: Option<String>,
    pub kinds: Vec<EventKind>,
}

impl Default for EventFilter {
    fn default() -> (r: EventFilter)
        ensures
            r.space_id is None,
            r.topic_id is None,
            r.kinds@.len() == 0,
    {
        EventFilter { space_id: None, topic_id: None, kinds: Vec::new() }
    }
}

impl EventFilter {
    /// The event passes the filter.
    pub open spec fn passes(self, e: EnvelopeV) -> bool {
        &&& self.space_id matches Some(s) ==> e.space_id == s@
        &&& self.topic_id matches Some(t) ==> e.topic_id == Some(t@)
        &&& self.kinds@.len() > 0 ==> self.kinds@.contains(e.kind)
    }

    /// True where the event passes the filter.
    pub fn matches(&self, e: &EventEnvelope) -> (r: bool)
        ensures
            r == self.passes(e@),
    {
        match &self.space_id {
            Some(s) => if !text::same(e.space_id.as_str(), s.as_str()) {
                return false;
            },
            None => {},
        }
        match &self.topic_id {
            Some(t) => match &e.topic_id {
                Some(x) => if !text::same(x.as_str(), t.as_str()) {
                    return false;
                },
                None => {
                    return false;
                },
            },
            None => {},
        }
        self.kinds.len() == 0 || self.names(e.kind)
    }

    fn names(&self, kind: EventKind) -> (r: bool)
        ensures
            r == self.kinds@.contains(kind),
    {
        let mut i: usize = 0;
        while i < self.kinds.len()
            invariant
                i <= self.kinds@.len(),
                forall|k: int| 0 <= k < i ==> #[trigger] self.kinds@[k] != kind,
            decreases self.kinds@.len() - i,
        {
            if self.kinds[i] == kind {
                return true;
            }
            i += 1;
        }
        false
    }
}

/// A filter without parts lets every event through.
pub proof fn law_empty_filter_passes_all(f: EventFilter, e: EnvelopeV)
    requires
        f.space_id is None,
        f.topic_id is None,
        f.kinds@.len() == 0,
    ensures
        f.passes(e),
{
}

/// A filter with more parts lets no more through: what passes it passes the filter
/// without its topic and kinds.
pub proof fn law_parts_only_narrow(f: EventFilter, g: EventFilter, e: EnvelopeV)
    requires
        f.passes(e),
        g.space_id == f.space_id || g.space_id is None,
        g.topic_id == f.topic_id || g.topic_id is None,
        g.kinds == f.kinds || g.kinds@.len() == 0,
    ensures
        g.passes(e),
{
}

/// The event that tells of a message.
pub open spec fn message_event(
    kind: EventKind,
    m: Message,
    space: Seq<char>,
    topic: Option<Seq<char>>,
    id: Seq<char>,
) -> EnvelopeV {
    EnvelopeV {
        kind,
        space_id: space,
        topic_id: topic,
        message_id: Some(id),
        author_id: None,
        text: Some(m.text@),
        timestamp_usec: Some(m.timestamp.0),
    }
}

/// The event of the stream that an event of a service is told as. Only messages that are
/// posted or edited are told of: they alone carry the names that the service gave them.
pub open spec fn envelope_of(event: InboundEvent) -> Option<EnvelopeV> {
    match event {
        InboundEvent::MessagePosted { message, space_id_raw, topic_id_raw, message_id_raw } => Some(
            message_event(
                EventKind::MessagePosted,
                message,
                space_id_raw@,
                text_opt(topic_id_raw),
                message_id_raw@,
            ),
        ),
        InboundEvent::MessageEdited { message, space_id_raw, topic_id_raw, message_id_raw } => Some(
            message_event(
                EventKind::MessageEdited,
                message,
                space_id_raw@,
                text_opt(topic_id_raw),
                message_id_raw@,
            ),
        ),
        _ => None,
    }
}

fn envelope(
    kind: EventKind,
    m: &Message,
    space: &String,
    topic: &Option<String>,
    id: &String,
) -> (r: EventEnvelope)
    ensures
        r@ == message_event(kind, *m, space@, text_opt(*topic), id@),
{
    EventEnvelope {
        kind,
        space_id: space.clone(),
        topic_id: copy_opt(topic),
        message_id: Some(id.clone()),
        author_id: None,
        text: Some(m.text.clone()),
        timestamp_usec: Some(m.timestamp.0),
    }
}

/// The event of the stream that an event of a service is told as, if it is told.
pub fn envelope_from_inbound(event: &InboundEvent) -> (r: Option<EventEnvelope>)
    ensures
        match envelope_of(*event) {
            Some(v) => r matches Some(x) && x@ == v,
            None => r is None,
        },
{
    match event {
        InboundEvent::MessagePosted { message, space_id_raw, topic_id_raw, message_id_raw } => Some(
            envelope(EventKind::MessagePosted, message, space_id_raw, topic_id_raw, message_id_raw),
        ),
        InboundEvent::MessageEdited { message, space_id_raw, topic_id_raw, message_id_raw } => Some(
            envelope(EventKind::MessageEdited, message, space_id_raw, topic_id_raw, message_id_raw),
        ),
        _ => None,
    }
}

/// An event as it is written to the stream, with its JSON text.
pub open spec fn written(kind: EventKind, json: Seq<char>) -> Seq<char> {
    "event: "@ + kind_text(kind) + "\n"@ + "data: "@ + json + "\n"@ + "\n"@
}

/// An event as it is written to the stream, with its JSON text.
pub fn sse_event(kind: EventKind, json: &str) -> (r: String)
    ensures
        r@ == written(kind, json@),
{
    let mut out = join3("event: ", kind.as_str(), "\n");
    out.append("data: ");
    out.append(json);
    out.append("\n");
    out.append("\n");
    out
}

/// What is written to the stream where there is nothing to tell.
pub fn sse_keepalive() -> (r: String)
    ensures
        r@ == ": keepalive\n\n"@,
{
    ": keepalive\n\n".to_owned()
}

// ───────────────────────── a listener ─────────────────────────

/// The nanoseconds of silence after which something is written that keeps the connection
/// open.
pub const HEARTBEAT: u64 = 15_000_000_000;

/// What a listener hears next.
#[derive(Debug)]
pub enum Heard {
    /// An event, with its JSON text.
    Event { envelope: EventEnvelope, json: String },
    /// Nothing for as long as it was waited.
    Silence,
    /// There will be no more events.
    Gone,
}

/// What is done for a listener next.
#[derive(Debug)]
pub enum SseStep {
    Write(String),
    Pass,
    Stop,
}

/// The mathematical form of an [`SseStep`].
pub ghost enum SseStepV {
    Write(Seq<char>),
    Pass,
    Stop,
}

impl View for SseStep {
    type V = SseStepV;

    open spec fn view(&self) -> SseStepV {
        match *self {
            SseStep::Write(t) => SseStepV::Write(t@),
            SseStep::Pass => SseStepV::Pass,
            SseStep::Stop => SseStepV::Stop,
        }
    }
}

/// The nanoseconds to wait for an event, where so many are left to the listener: no more than
/// the heartbeat. None where the time is up.
pub fn sse_wait(left: Option<u64>) -> (r: Option<u64>)
    ensures
        r == match left {
            Some(n) => if n == 0 {
                None
            } else if n < HEARTBEAT {
                Some(n)
            } else {
                Some(HEARTBEAT)
            },
            None => Some(HEARTBEAT),
        },
{
    match left {
        Some(n) => if n == 0 {
            None
        } else if n < HEARTBEAT {
            Some(n)
        } else {
            Some(HEARTBEAT)
        },
        None => Some(HEARTBEAT),
    }
}

/// What a listener with a filter is told of what was heard: an event that passes is written, one
/// that does not is passed over, and silence is broken.
pub open spec fn step_for(filter: EventFilter, heard: Heard) -> SseStepV {
    match heard {
        Heard::Event { envelope, json } => if filter.passes(envelope@) {
            SseStepV::Write(written(envelope.kind, json@))
        } else {
            SseStepV::Pass
        },
        Heard::Silence => SseStepV::Write(": keepalive\n\n"@),
        Heard::Gone => SseStepV::Stop,
    }
}

/// What is done for a listener with a filter after what was heard.
pub fn sse_step(filter: &EventFilter, heard: &Heard) -> (r: SseStep)
    ensures
        r@ == step_for(*filter, *heard),
{
    match heard {
        Heard::Event { envelope, json } => if filter.matches(envelope) {
            SseStep::Write(sse_event(envelope.kind, json.as_str()))
        } else {
            SseStep::Pass
        },
        Heard::Silence => SseStep::Write(sse_keepalive()),
        Heard::Gone => SseStep::Stop,
    }
}

} // verus!
