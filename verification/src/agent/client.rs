//! A client of the daemon: the addresses and bodies of its requests, and what the replies
//! and the stream of events hold.
use vstd::prelude::*;
use vstd::utf8::encode_utf8;

use crate::agent::cli::{
    answer_path, ask_endpoint, question_path, reply_endpoint, search_endpoint, search_path,
};
use crate::agent::events::EventFilter;
use crate::agent::json::{kind_named, kind_text, AskRequest, EventEnvelope, EventKind, ReplyRequest};
use crate::percent::{escaped, url_encode};
use crate::text::{
    self, after, copy_opt, decimal, find, join2, join3, joined, lines, starts, text_opt, texts,
    without_prefix,
};

verus! {

broadcast use vstd::string::group_string_axioms;

/// Errors of the client.
#[derive(Debug)]
pub enum ClientError {
    Http(String),
    Status { status: u16, body: String },
    Decode(String),
    EventStream(String),
}

impl ClientError {
    pub open spec fn text(self) -> Seq<char> {
        match self {
            ClientError::Http(m) => "HTTP transport error: "@ + m@,
            ClientError::Status { status, body } => "HTTP "@ + decimal(status as nat) + ": "@
                + body@,
            ClientError::Decode(m) => "response was not valid JSON: "@ + m@,
            ClientError::EventStream(m) => "event stream parse error: "@ + m@,
        }
    }

    /// The text that is shown for the error.
    pub fn message(&self) -> (r: String)
        ensures
            r@ == self.text(),
    {
        match self {
            ClientError::Http(m) => join2("HTTP transport error: ", m.as_str()),
            ClientError::Status { status, body } => {
                let head = join3("HTTP ", text::show(*status as u64).as_str(), ": ");
                join2(head.as_str(), body.as_str())
            },
            ClientError::Decode(m) => join2("response was not valid JSON: ", m.as_str()),
            ClientError::EventStream(m) => join2("event stream parse error: ", m.as_str()),
        }
    }
}

/// A client of the daemon at one address.
#[derive(Debug)]
pub struct Client {
    pub base: String,
}

/// An address without the slash at its end.
pub open spec fn without_slash(s: Seq<char>) -> Seq<char> {
    if s.len() > 0 && s.last() == '/' {
        s.drop_last()
    } else {
        s
    }
}

/// The names of kinds of events, with commas between them.
pub open spec fn kind_list(kinds: Seq<EventKind>) -> Seq<char> {
    joined(kinds.map_values(|k: EventKind| kind_text(k)), ","@)
}

/// The query for the events that pass a filter.
pub open spec fn events_query(f: EventFilter) -> Seq<char> {
    (match f.space_id {
        Some(s) => "space_id="@ + escaped(encode_utf8(s@)) + "&"@,
        None => Seq::empty(),
    }) + (match f.topic_id {
        Some(t) => "topic_id="@ + escaped(encode_utf8(t@)) + "&"@,
        None => Seq::empty(),
    }) + (if f.kinds@.len() > 0 {
        "kinds="@ + escaped(encode_utf8(kind_list(f.kinds@))) + "&"@
    } else {
        Seq::empty()
    })
}

/// The path of the events that pass a filter.
pub open spec fn events_path(f: EventFilter) -> Seq<char> {
    "/v1/events?"@ + events_query(f)
}

fn kind_names(kinds: &Vec<EventKind>) -> (r: Vec<String>)
    ensures
        texts(r@) == kinds@.map_values(|k: EventKind| kind_text(k)),
{
    let ghost want = kinds@.map_values(|k: EventKind| kind_text(k));
    let mut out: Vec<String> = Vec::new();
    let mut i: usize = 0;
    while i < kinds.len()
        invariant
            i <= kinds@.len(),
            want == kinds@.map_values(|k: EventKind| kind_text(k)),
            texts(out@) == want.take(i as int),
        decreases kinds@.len() - i,
    {
        let ghost before = out@;
        let name = kinds[i].as_str().to_owned();
        out.push(name);
        proof {
            assert(texts(out@) =~= texts(before).push(name@));
            assert(want.take(i + 1) =~= want.take(i as int).push(want[i as int]));
        }
        i += 1;
    }
    proof {
        assert(want.take(want.len() as int) =~= want);
    }
    out
}

impl Client {
    /// A client of the daemon at this address.
    pub fn new(base_url: &str) -> (r: Client)
        ensures
            r.base@ == without_slash(base_url@),
    {
        proof {
            reveal_strlit("/");
            assert("/"@ =~= seq!['/']);
            if base_url@.len() > 0 {
                assert(base_url@.subrange(base_url@.len() - 1, base_url@.len() as int)
                    =~= seq![base_url@.last()]);
                if base_url@.last() != '/' {
                    assert(seq![base_url@.last()][0] != seq!['/'][0]);
                }
            }
        }
        let base = match text::strip_suffix(base_url, "/") {
            Some(b) => {
                proof {
                    assert(b@ =~= base_url@.drop_last());
                }
                b
            },
            None => base_url.to_owned(),
        };
        Client { base }
    }

    /// The address that tells whether the daemon is there.
    pub fn health(&self) -> (r: String)
        ensures
            r@ == self.base@ + "/v1/health"@,
    {
        join2(self.base.as_str(), "/v1/health")
    }

    /// The address that lists the spaces.
    pub fn list_spaces(&self) -> (r: String)
        ensures
            r@ == self.base@ + "/v1/spaces"@,
    {
        join2(self.base.as_str(), "/v1/spaces")
    }

    /// The address and the body of a request that posts a question.
    pub fn ask(&self, space_id: &str, text: &str, idempotency_key: &Option<String>) -> (r: (
        String,
        AskRequest,
    ))
        ensures
            r.0@ == self.base@ + question_path(space_id@),
            r.1.text@ == text@,
            r.1.idempotency_key == *idempotency_key,
    {
        let url = join2(self.base.as_str(), ask_endpoint(space_id).as_str());
        (url, AskRequest { text: text.to_owned(), idempotency_key: copy_opt(idempotency_key) })
    }

    /// The address of a search in a space for up to `top` threads.
    pub fn search(&self, space_id: &str, query: &str, top: usize) -> (r: String)
        ensures
            r@ == self.base@ + search_path(space_id@, query@, top),
    {
        join2(self.base.as_str(), search_endpoint(space_id, query, top).as_str())
    }

    /// The address and the body of a request that posts an answer in a topic.
    pub fn reply(
        &self,
        space_id: &str,
        topic_id: &str,
        text: &str,
        idempotency_key: &Option<String>,
    ) -> (r: (String, ReplyRequest))
        ensures
            r.0@ == self.base@ + answer_path(topic_id@),
            r.1.space_id@ == space_id@,
            r.1.text@ == text@,
            r.1.idempotency_key == *idempotency_key,
    {
        let url = join2(self.base.as_str(), reply_endpoint(topic_id).as_str());
        (
            url,
            ReplyRequest {
                space_id: space_id.to_owned(),
                text: text.to_owned(),
                idempotency_key: copy_opt(idempotency_key),
            },
        )
    }

    /// The address of the stream of the events that pass a filter.
    pub fn events(&self, filter: &EventFilter) -> (r: String)
        ensures
            r@ == self.base@ + events_path(*filter),
    {
        let mut url = join2(self.base.as_str(), "/v1/events?");
        let ghost head = url@;
        let space = match &filter.space_id {
            Some(s) => join3("space_id=", url_encode(s.as_str()).as_str(), "&"),
            None => String::new(),
        };
        let topic = match &filter.topic_id {
            Some(t) => join3("topic_id=", url_encode(t.as_str()).as_str(), "&"),
            None => String::new(),
        };
        let kinds = if filter.kinds.len() > 0 {
            let names = kind_names(&filter.kinds);
            proof {
                assert(texts(names@).take(names@.len() as int) =~= texts(names@));
            }
            let list = text::join(&names, names.len(), ",");
            join3("kinds=", url_encode(list.as_str()).as_str(), "&")
        } else {
            String::new()
        };
        url.append(space.as_str());
        url.append(topic.as_str());
        url.append(kinds.as_str());
        proof {
            assert(url@ =~= self.base@ + events_path(*filter));
        }
        url
    }

    /// The body of a reply, unless its status says that the request failed.
    pub fn checked(status: u16, body: String) -> (r: Result<String, ClientError>)
        ensures
            r == if 200 <= status < 300 {
                Ok::<String, ClientError>(body)
            } else {
                Err::<String, ClientError>(ClientError::Status { status, body })
            },
    {
        if status < 200 || status >= 300 {
            Err(ClientError::Status { status, body })
        } else {
            Ok(body)
        }
    }
}

impl Default for Client {
    fn default() -> (r: Client)
        ensures
            r.base@ == "http://127.0.0.1:7800"@,
    {
        Client { base: "http://127.0.0.1:7800".to_owned() }
    }
}

// ───────────────────────── the stream of events ─────────────────────────

/// What a frame of the stream holds: the name of the event, where it has a line for it,
/// and the data.
#[derive(Debug)]
pub struct SseFrame {
    pub event: Option<String>,
    pub data: String,
}

/// The last of the lines that begins with `prefix`, without it.
pub open spec fn last_field(rows: Seq<Seq<char>>, prefix: Seq<char>) -> Option<Seq<char>>
    decreases rows.len(),
{
    if rows.len() == 0 {
        None
    } else {
        match without_prefix(rows.last(), prefix) {
            Some(t) => Some(t),
            None => last_field(rows.drop_last(), prefix),
        }
    }
}

/// One of the lines is a comment.
pub open spec fn has_comment(rows: Seq<Seq<char>>) -> bool {
    exists|i: int| 0 <= i < rows.len() && starts(#[trigger] rows[i], ":"@)
}

/// The name and the data of a frame. None for a frame without data or with a comment,
/// such as those that only keep the connection open.
pub open spec fn frame_parts(frame: Seq<char>) -> Option<(Option<Seq<char>>, Seq<char>)> {
    let rows = lines(frame);
    if has_comment(rows) {
        None
    } else {
        match last_field(rows, "data: "@) {
            Some(d) => Some((last_field(rows, "event: "@), d)),
            None => None,
        }
    }
}

/// The name and the data of a frame of the stream.
pub fn split_sse_frame(frame: &str) -> (r: Option<SseFrame>)
    ensures
        match frame_parts(frame@) {
            Some((e, d)) => r matches Some(f) && text_opt(f.event) == e && f.data@ == d,
            None => r is None,
        },
{
    let rows = text::split_lines(frame);
    let ghost all = texts(rows@);
    let mut event: Option<String> = None;
    let mut data: Option<String> = None;
    let mut i: usize = 0;
    proof {
        reveal_strlit("event: ");
        reveal_strlit("data: ");
    }
    while i < rows.len()
        invariant
            i <= rows@.len(),
            all == texts(rows@),
            all == lines(frame@),
            "event: "@.len() == 7,
            "event: "@[0] == 'e',
            "data: "@.len() == 6,
            "data: "@[0] == 'd',
            forall|k: int| 0 <= k < i ==> !starts(#[trigger] all[k], ":"@),
            text_opt(event) == last_field(all.take(i as int), "event: "@),
            text_opt(data) == last_field(all.take(i as int), "data: "@),
        decreases rows@.len() - i,
    {
        let row = &rows[i];
        proof {
            assert(all[i as int] == row@);
            assert(all.take(i + 1).drop_last() =~= all.take(i as int));
            assert(all.take(i + 1).last() == row@);
        }
        if text::starts_with(row.as_str(), ":") {
            return None;
        }
        match text::strip_prefix(row.as_str(), "event: ") {
            Some(t) => {
                proof {
                    if starts(row@, "data: "@) {
                        assert(row@.subrange(0, 6)[0] == "data: "@[0]);
                        assert(row@.subrange(0, 7)[0] == "event: "@[0]);
                    }
                }
                event = Some(t);
            },
            None => match text::strip_prefix(row.as_str(), "data: ") {
                Some(t) => {
                    data = Some(t);
                },
                None => {},
            },
        }
        i += 1;
    }
    proof {
        assert(all.take(all.len() as int) =~= all);
    }
    match data {
        Some(d) => Some(SseFrame { event, data: d }),
        None => None,
    }
}

/// The name of a kind of event as the program writes it.
pub open spec fn kind_word(k: EventKind) -> Seq<char> {
    match k {
        EventKind::MessagePosted => "MessagePosted"@,
        EventKind::MessageEdited => "MessageEdited"@,
        EventKind::MessageDeleted => "MessageDeleted"@,
        EventKind::ReactionUpdated => "ReactionUpdated"@,
        EventKind::TypingStarted => "TypingStarted"@,
        EventKind::TypingStopped => "TypingStopped"@,
        EventKind::SpaceUpdated => "SpaceUpdated"@,
        EventKind::PresenceChanged => "PresenceChanged"@,
        EventKind::MembershipChanged => "MembershipChanged"@,
        EventKind::ReadStateUpdated => "ReadStateUpdated"@,
    }
}

fn word_of(k: EventKind) -> (r: &'static str)
    ensures
        r@ == kind_word(k),
{
    match k {
        EventKind::MessagePosted => "MessagePosted",
        EventKind::MessageEdited => "MessageEdited",
        EventKind::MessageDeleted => "MessageDeleted",
        EventKind::ReactionUpdated => "ReactionUpdated",
        EventKind::TypingStarted => "TypingStarted",
        EventKind::TypingStopped => "TypingStopped",
        EventKind::SpaceUpdated => "SpaceUpdated",
        EventKind::PresenceChanged => "PresenceChanged",
        EventKind::MembershipChanged => "MembershipChanged",
        EventKind::ReadStateUpdated => "ReadStateUpdated",
    }
}

/// The name of the event is that of another kind than its data says.
pub open spec fn mismatched(event: Option<Seq<char>>, kind: EventKind) -> bool {
    event matches Some(e) && kind_named(e) matches Some(k) && k != kind
}

/// An event read from the stream, unless the name in its frame is that of another kind.
/// A frame without a name, or with one that is not known, says nothing.
pub fn checked_event(event: &Option<String>, envelope: EventEnvelope) -> (r: Result<
    EventEnvelope,
    ClientError,
>)
    ensures
        if mismatched(text_opt(*event), envelope.kind) {
            r matches Err(ClientError::EventStream(m)) && m@ == "kind mismatch: header="@ + event->0@
                + ", body="@ + kind_word(envelope.kind)
        } else {
            r == Ok::<EventEnvelope, ClientError>(envelope)
        },
{
    match event {
        Some(e) => match EventKind::from_str(e.as_str()) {
            Some(k) => if k != envelope.kind {
                let head = join3("kind mismatch: header=", e.as_str(), ", body=");
                return Err(ClientError::EventStream(join2(head.as_str(), word_of(envelope.kind))));
            },
            None => {},
        },
        None => {},
    }
    Ok(envelope)
}

/// The text of the stream that has come in and has not been given out.
#[derive(Debug)]
pub struct EventStream {
    pub buf: String,
}

/// The next frame with data in a text, and the text behind it; or what is left of the
/// text where it holds no further frame with data.
pub open spec fn next_frame(buf: Seq<char>) -> (Option<(Option<Seq<char>>, Seq<char>)>, Seq<char>)
    decreases buf.len(),
{
    match find(buf, "\n\n"@) {
        Some(i) => if 0 <= i && i + 2 <= buf.len() {
            match frame_parts(buf.take(i)) {
                Some(p) => (Some(p), after(buf, i + 2)),
                None => next_frame(after(buf, i + 2)),
            }
        } else {
            (None, buf)
        },
        None => (None, buf),
    }
}

impl EventStream {
    /// A stream of which nothing has come in.
    pub fn new() -> (r: EventStream)
        ensures
            r.buf@ == Seq::<char>::empty(),
    {
        let r = EventStream { buf: String::new() };
        proof {
            assert(r.buf@ =~= Seq::empty());
        }
        r
    }

    /// Takes in text.
    pub fn feed(&mut self, more: &str)
        ensures
            final(self).buf@ == old(self).buf@ + more@,
    {
        self.buf.append(more);
    }

    /// Gives out the next frame with data, if it has come in whole. Frames without data are
    /// passed over.
    pub fn next(&mut self) -> (r: Option<SseFrame>)
        ensures
            ({
                let (p, rest) = next_frame(old(self).buf@);
                final(self).buf@ == rest && match p {
                    Some((e, d)) => r matches Some(f) && text_opt(f.event) == e && f.data@ == d,
                    None => r is None,
                }
            }),
    {
        let ghost first = self.buf@;
        proof {
            reveal_strlit("\n\n");
        }
        loop
            invariant
                "\n\n"@.len() == 2,
                first == old(self).buf@,
                next_frame(first) == next_frame(self.buf@),
            decreases self.buf@.len(),
        {
            let v = text::chars_of(self.buf.as_str());
            let n: usize = v.len();
            let i: usize = match text::find_str(self.buf.as_str(), "\n\n") {
                Some(i) => i,
                None => return None,
            };
            proof {
                text::lemma_find_from(self.buf@, "\n\n"@, 0);
            }
            let frame = text::string_of(&v, 0, i);
            let rest = text::string_of(&v, i + 2, n);
            proof {
                assert(frame@ =~= self.buf@.take(i as int));
                assert(rest@ =~= after(self.buf@, i + 2));
            }
            self.buf = rest;
            match split_sse_frame(frame.as_str()) {
                Some(f) => return Some(f),
                None => {},
            }
        }
    }
}

} // verus!
