//! The routes of the surface for programs, what their addresses ask for, and the answers
//! that are kept so that a request is not carried out twice.
use vstd::prelude::*;
use vstd::hash_map::StringHashMap;
use vstd::utf8::encode_utf8;

use crate::agent::events::EventFilter;
use crate::agent::json::{kind_named, ErrorResponse, EventKind};
use crate::error::{AppError, AuthError};
use crate::percent::{unescaped, url_decode};
use crate::text::{
    self, holds, join2, join3, natural, pieces, sides, text_opt, texts, trimmed, without_leading,
};

verus! {

broadcast use vstd::string::group_string_axioms;

// ───────────────────────── routes ─────────────────────────

/// What a request asks for.
#[derive(Debug)]
pub enum Route {
    Health,
    Spaces,
    Ask { space_id: String },
    Search { space_id: String, query: String },
    Reply { topic_id: String },
    Events { query: String },
    /// Nothing that there is, with what is told of it.
    NotFound { detail: String },
}

/// The mathematical form of a [`Route`].
pub ghost enum RouteV {
    Health,
    Spaces,
    Ask { space_id: Seq<char> },
    Search { space_id: Seq<char>, query: Seq<char> },
    Reply { topic_id: Seq<char> },
    Events { query: Seq<char> },
    NotFound { detail: Seq<char> },
}

impl View for Route {
    type V = RouteV;

    open spec fn view(&self) -> RouteV {
        match *self {
            Route::Health => RouteV::Health,
            Route::Spaces => RouteV::Spaces,
            Route::Ask { space_id } => RouteV::Ask { space_id: space_id@ },
            Route::Search { space_id, query } => RouteV::Search {
                space_id: space_id@,
                query: query@,
            },
            Route::Reply { topic_id } => RouteV::Reply { topic_id: topic_id@ },
            Route::Events { query } => RouteV::Events { query: query@ },
            Route::NotFound { detail } => RouteV::NotFound { detail: detail@ },
        }
    }
}

/// The path and the query of an address.
pub open spec fn parts(url: Seq<char>) -> (Seq<char>, Seq<char>) {
    match sides(url, '?') {
        Some((p, q)) => (p, q),
        None => (url, Seq::empty()),
    }
}

/// The route of a path that has been cut at its slashes, with the query behind it.
pub open spec fn route_of(method: Seq<char>, segs: Seq<Seq<char>>, query: Seq<char>) -> Option<RouteV> {
    if segs.len() == 2 && segs[0] == "v1"@ && segs[1] == "health"@ && method == "GET"@ {
        Some(RouteV::Health)
    } else if segs.len() == 2 && segs[0] == "v1"@ && segs[1] == "spaces"@ && method == "GET"@ {
        Some(RouteV::Spaces)
    } else if segs.len() == 4 && segs[0] == "v1"@ && segs[1] == "spaces"@ && segs[3]
        == "questions"@ && method == "POST"@ {
        Some(RouteV::Ask { space_id: segs[2] })
    } else if segs.len() == 5 && segs[0] == "v1"@ && segs[1] == "spaces"@ && segs[3] == "threads"@
        && segs[4] == "search"@ && method == "GET"@ {
        Some(RouteV::Search { space_id: segs[2], query })
    } else if segs.len() == 4 && segs[0] == "v1"@ && segs[1] == "threads"@ && segs[3] == "reply"@
        && method == "POST"@ {
        Some(RouteV::Reply { topic_id: segs[2] })
    } else if segs.len() == 2 && segs[0] == "v1"@ && segs[1] == "events"@ && method == "GET"@ {
        Some(RouteV::Events { query })
    } else {
        None
    }
}

/// The route of a request.
pub open spec fn routed(method: Seq<char>, url: Seq<char>) -> RouteV {
    let (path, query) = parts(url);
    match route_of(method, pieces(without_leading(path, '/'), '/'), query) {
        Some(r) => r,
        None => RouteV::NotFound { detail: "no route for "@ + method + " "@ + path },
    }
}

/// The route of a request.
pub fn route(method: &str, url: &str) -> (r: Route)
    ensures
        r@ == routed(method@, url@),
{
    let (path, query) = match text::split_once(url, '?') {
        Some((p, q)) => (p, q),
        None => {
            let none = String::new();
            proof {
                assert(none@ =~= Seq::empty());
            }
            (url.to_owned(), none)
        },
    };
    let bare = text::trim_start_matches(path.as_str(), '/');
    let segs = text::split(bare.as_str(), '/');
    let ghost all = texts(segs@);
    let n: usize = segs.len();
    let get = text::same(method, "GET");
    let post = text::same(method, "POST");
    proof {
        reveal_strlit("GET");
        reveal_strlit("POST");
        assert("GET"@.len() != "POST"@.len());
        assert forall|i: int| 0 <= i < n implies #[trigger] all[i] == segs@[i]@ by {}
    }
    if n >= 2 && text::same(segs[0].as_str(), "v1") {
        if get && n == 2 && text::same(segs[1].as_str(), "health") {
            return Route::Health;
        }
        if get && n == 2 && text::same(segs[1].as_str(), "spaces") {
            return Route::Spaces;
        }
        if post && n == 4 && text::same(segs[1].as_str(), "spaces") && text::same(
            segs[3].as_str(),
            "questions",
        ) {
            return Route::Ask { space_id: segs[2].clone() };
        }
        if get && n == 5 && text::same(segs[1].as_str(), "spaces") && text::same(
            segs[3].as_str(),
            "threads",
        ) && text::same(segs[4].as_str(), "search") {
            return Route::Search { space_id: segs[2].clone(), query };
        }
        if post && n == 4 && text::same(segs[1].as_str(), "threads") && text::same(
            segs[3].as_str(),
            "reply",
        ) {
            return Route::Reply { topic_id: segs[2].clone() };
        }
        if get && n == 2 && text::same(segs[1].as_str(), "events") {
            return Route::Events { query };
        }
    }
    let head = join3("no route for ", method, " ");
    Route::NotFound { detail: join2(head.as_str(), path.as_str()) }
}

// ───────────────────────── queries ─────────────────────────

/// What an encoded text stands for.
pub open spec fn plain_text(s: Seq<char>) -> Seq<char> {
    unescaped(encode_utf8(s))
}

/// The texts of a map.
pub open spec fn map_texts(m: Map<Seq<char>, String>) -> Map<Seq<char>, Seq<char>> {
    m.map_values(|s: String| s@)
}

/// The names and values of the parts of a query. A part without an equals sign is a name
/// with an empty value, an empty part is none, and of two parts with one name the later
/// one counts.
pub open spec fn query_map(parts: Seq<Seq<char>>) -> Map<Seq<char>, Seq<char>>
    decreases parts.len(),
{
    if parts.len() == 0 {
        Map::empty()
    } else {
        let before = query_map(parts.drop_last());
        let p = parts.last();
        if p.len() == 0 {
            before
        } else {
            match sides(p, '=') {
                Some((k, v)) => before.insert(plain_text(k), plain_text(v)),
                None => before.insert(plain_text(p), Seq::empty()),
            }
        }
    }
}

/// The names and values of a query.
pub fn parse_query(s: &str) -> (r: StringHashMap<String>)
    ensures
        map_texts(r@) == query_map(pieces(s@, '&')),
{
    let parts = text::split(s, '&');
    let ghost all = texts(parts@);
    let mut map: StringHashMap<String> = StringHashMap::new();
    let mut i: usize = 0;
    proof {
        assert(map_texts(map@) =~= Map::empty());
    }
    while i < parts.len()
        invariant
            i <= parts@.len(),
            all == texts(parts@),
            map_texts(map@) == query_map(all.take(i as int)),
        decreases parts@.len() - i,
    {
        let ghost before = map@;
        proof {
            assert(all.take(i + 1).drop_last() =~= all.take(i as int));
            assert(all.take(i + 1).last() == parts@[i as int]@);
        }
        if !parts[i].as_str().is_empty() {
            match text::split_once(parts[i].as_str(), '=') {
                Some((k, v)) => {
                    let name = url_decode(k.as_str());
                    let value = url_decode(v.as_str());
                    let ghost nv = name@;
                    let ghost vv = value@;
                    map.insert(name, value);
                    proof {
                        assert(map_texts(map@) =~= map_texts(before).insert(nv, vv));
                    }
                },
                None => {
                    let name = url_decode(parts[i].as_str());
                    let ghost nv = name@;
                    map.insert(name, String::new());
                    proof {
                        assert(map_texts(map@) =~= map_texts(before).insert(nv, Seq::empty()));
                    }
                },
            }
        }
        i += 1;
    }
    proof {
        assert(all.take(all.len() as int) =~= all);
    }
    map
}

/// The value that a map has for a name, if it has one.
pub open spec fn value_in(m: Map<Seq<char>, Seq<char>>, name: Seq<char>) -> Option<Seq<char>> {
    if m.dom().contains(name) {
        Some(m[name])
    } else {
        None
    }
}

fn lookup(m: &StringHashMap<String>, name: &str) -> (r: Option<String>)
    ensures
        text_opt(r) == value_in(map_texts(m@), name@),
{
    match m.get(name) {
        Some(v) => Some(v.clone()),
        None => None,
    }
}

/// A value that is there and not empty.
pub open spec fn filled(v: Option<Seq<char>>) -> Option<Seq<char>> {
    match v {
        Some(s) => if s.len() > 0 {
            Some(s)
        } else {
            None
        },
        None => None,
    }
}

fn keep_filled(v: Option<String>) -> (r: Option<String>)
    ensures
        text_opt(r) == filled(text_opt(v)),
{
    match v {
        Some(s) => if s.as_str().is_empty() {
            None
        } else {
            Some(s)
        },
        None => None,
    }
}

/// The number of threads that a search asks for: two where it does not say.
pub open spec fn wanted(v: Option<Seq<char>>) -> usize {
    match v {
        Some(t) => match natural(t, usize::MAX as nat) {
            Some(n) => n as usize,
            None => 2,
        },
        None => 2,
    }
}

/// The number of threads that a search asks for.
pub fn top_of(v: Option<String>) -> (r: usize)
    ensures
        r == wanted(text_opt(v)),
{
    match v {
        Some(t) => match text::parse_usize(t.as_str()) {
            Some(n) => n,
            None => 2,
        },
        None => 2,
    }
}

/// What a search asks for: the text and the number of threads, or what is told where the
/// text is missing.
pub fn search_params(query: &str) -> (r: Result<(String, usize), String>)
    ensures
        ({
            let m = query_map(pieces(query@, '&'));
            match filled(value_in(m, "q"@)) {
                Some(q) => r matches Ok((t, n)) && t@ == q && n == wanted(value_in(m, "top"@)),
                None => r matches Err(e) && e@ == "missing required query param `q`"@,
            }
        }),
{
    let qs = parse_query(query);
    match keep_filled(lookup(&qs, "q")) {
        Some(q) => Ok((q, top_of(lookup(&qs, "top")))),
        None => Err("missing required query param `q`".to_owned()),
    }
}

/// The kinds of events that the names stand for; what names none is left out.
pub open spec fn kinds_in(names: Seq<Seq<char>>) -> Seq<EventKind>
    decreases names.len(),
{
    if names.len() == 0 {
        Seq::empty()
    } else {
        match kind_named(trimmed(names.last())) {
            Some(k) => kinds_in(names.drop_last()).push(k),
            None => kinds_in(names.drop_last()),
        }
    }
}

fn parse_kinds(s: &str) -> (r: Vec<EventKind>)
    ensures
        r@ == kinds_in(pieces(s@, ',')),
{
    let names = text::split(s, ',');
    let ghost all = texts(names@);
    let mut out: Vec<EventKind> = Vec::new();
    let mut i: usize = 0;
    while i < names.len()
        invariant
            i <= names@.len(),
            all == texts(names@),
            out@ == kinds_in(all.take(i as int)),
        decreases names@.len() - i,
    {
        proof {
            assert(all.take(i + 1).drop_last() =~= all.take(i as int));
            assert(all.take(i + 1).last() == names@[i as int]@);
        }
        let name = text::trim(names[i].as_str());
        if let Some(k) = EventKind::from_str(name.as_str()) {
            out.push(k);
        }
        i += 1;
    }
    proof {
        assert(all.take(all.len() as int) =~= all);
    }
    out
}

/// The events that a reader of the stream asks for.
pub fn event_filter(query: &str) -> (r: EventFilter)
    ensures
        ({
            let m = query_map(pieces(query@, '&'));
            &&& text_opt(r.space_id) == filled(value_in(m, "space_id"@))
            &&& text_opt(r.topic_id) == filled(value_in(m, "topic_id"@))
            &&& r.kinds@ == match value_in(m, "kinds"@) {
                Some(v) => kinds_in(pieces(v, ',')),
                None => Seq::empty(),
            }
        }),
{
    let qs = parse_query(query);
    let kinds = match lookup(&qs, "kinds") {
        Some(v) => parse_kinds(v.as_str()),
        None => Vec::new(),
    };
    EventFilter {
        space_id: keep_filled(lookup(&qs, "space_id")),
        topic_id: keep_filled(lookup(&qs, "topic_id")),
        kinds,
    }
}

// ───────────────────────── errors ─────────────────────────

/// The status and the word for an error.
pub open spec fn error_status(e: AppError) -> (u16, Seq<char>) {
    match e {
        AppError::Auth(AuthError::SessionFetch(m)) => if holds(m@, "HTTP 401"@) || holds(
            m@,
            "expired"@,
        ) {
            (503, "auth_expired"@)
        } else {
            (503, "auth_error"@)
        },
        AppError::Auth(_) => (503, "auth_error"@),
        AppError::Api(_) => (502, "upstream_error"@),
        AppError::Config(_) => (500, "config_error"@),
        AppError::Terminal(_) => (500, "io_error"@),
        AppError::AllDisconnected => (503, "disconnected"@),
    }
}

/// What is told of an error, and with which status.
pub fn error_reply(e: &AppError) -> (r: (u16, ErrorResponse))
    ensures
        (r.0, r.1.error@) == error_status(*e),
        text_opt(r.1.detail) == Some(e.text()),
{
    let (code, word): (u16, &str) = match e {
        AppError::Auth(AuthError::SessionFetch(m)) => if text::contains(m.as_str(), "HTTP 401")
            || text::contains(m.as_str(), "expired") {
            (503, "auth_expired")
        } else {
            (503, "auth_error")
        },
        AppError::Auth(_) => (503, "auth_error"),
        AppError::Api(_) => (502, "upstream_error"),
        AppError::Config(_) => (500, "config_error"),
        AppError::Terminal(_) => (500, "io_error"),
        AppError::AllDisconnected => (503, "disconnected"),
    };
    (code, ErrorResponse { error: word.to_owned(), detail: Some(e.message()) })
}

/// What is told of a request that cannot be understood; it goes with the status 400.
pub fn bad_request(detail: String) -> (r: ErrorResponse)
    ensures
        r.error@ == "bad_request"@,
        r.detail == Some(detail),
{
    ErrorResponse { error: "bad_request".to_owned(), detail: Some(detail) }
}

/// What is wrong with a reply that is asked for in a space: the space has to be named.
pub fn reply_fault(space_id: &str) -> (r: Option<String>)
    ensures
        match r {
            Some(detail) => space_id@.len() == 0 && detail@ == "missing `space_id`"@,
            None => space_id@.len() > 0,
        },
{
    if space_id.is_empty() {
        Some("missing `space_id`".to_owned())
    } else {
        None
    }
}

/// What is told where there is no route; it goes with the status 404.
pub fn not_found(detail: String) -> (r: ErrorResponse)
    ensures
        r.error@ == "not_found"@,
        r.detail == Some(detail),
{
    ErrorResponse { error: "not_found".to_owned(), detail: Some(detail) }
}

// ───────────────────────── answers that are kept ─────────────────────────

/// The name under which the answer to a question with a key is kept.
pub open spec fn ask_name(space: Seq<char>, key: Seq<char>) -> Seq<char> {
    "ask:"@ + space + ":"@ + key
}

/// The name under which the answer to a reply with a key is kept.
pub open spec fn reply_name(topic: Seq<char>, key: Seq<char>) -> Seq<char> {
    "reply:"@ + topic + ":"@ + key
}

/// The name under which the answer to a question with a key is kept.
pub fn ask_key(space_id: &str, key: &str) -> (r: String)
    ensures
        r@ == ask_name(space_id@, key@),
{
    let head = join3("ask:", space_id, ":");
    join2(head.as_str(), key)
}

/// The name under which the answer to a reply with a key is kept.
pub fn reply_key(topic_id: &str, key: &str) -> (r: String)
    ensures
        r@ == reply_name(topic_id@, key@),
{
    let head = join3("reply:", topic_id, ":");
    join2(head.as_str(), key)
}

/// A question and a reply are never taken for one another, whatever their keys.
pub proof fn law_questions_are_no_replies(
    space: Seq<char>,
    topic: Seq<char>,
    a: Seq<char>,
    b: Seq<char>,
)
    ensures
        ask_name(space, a) != reply_name(topic, b),
{
    reveal_strlit("ask:");
    reveal_strlit("reply:");
    assert(ask_name(space, a)[0] == 'a');
    assert(reply_name(topic, b)[0] == 'r');
}

/// In one space, two questions with different keys are kept apart.
pub proof fn law_keys_tell_questions_apart(space: Seq<char>, a: Seq<char>, b: Seq<char>)
    requires
        a != b,
    ensures
        ask_name(space, a) != ask_name(space, b),
{
    let head = "ask:"@ + space + ":"@;
    if ask_name(space, a) == ask_name(space, b) {
        assert(a =~= text::after(head + a, head.len() as int));
        assert(b =~= text::after(head + b, head.len() as int));
    }
}

/// An answer: its status and its text.
pub ghost struct AnswerV {
    pub code: u16,
    pub body: Seq<char>,
}

/// The answers to requests that came with a key.
pub struct Answers {
    kept: StringHashMap<(u16, String)>,
}

impl View for Answers {
    type V = Map<Seq<char>, AnswerV>;

    closed spec fn view(&self) -> Map<Seq<char>, AnswerV> {
        self.kept@.map_values(|a: (u16, String)| AnswerV { code: a.0, body: a.1@ })
    }
}

/// The answers after a request under the name `name` was carried out.
pub open spec fn answered(
    kept: Map<Seq<char>, AnswerV>,
    name: Seq<char>,
    body: Seq<char>,
) -> Map<Seq<char>, AnswerV> {
    kept.insert(name, AnswerV { code: 201, body })
}

/// A request that was carried out is answered as it was, also after others were carried
/// out under other names.
pub proof fn law_carried_out_once(
    kept: Map<Seq<char>, AnswerV>,
    name: Seq<char>,
    body: Seq<char>,
    other: Seq<char>,
    text: Seq<char>,
)
    requires
        other != name,
    ensures
        answered(kept, name, body).dom().contains(name),
        answered(kept, name, body)[name] == (AnswerV { code: 201, body }),
        answered(answered(kept, name, body), other, text).dom().contains(name),
        answered(answered(kept, name, body), other, text)[name] == (AnswerV { code: 201, body }),
{
}

impl Answers {
    /// No answers.
    pub fn new() -> (r: Answers)
        ensures
            r@ == Map::<Seq<char>, AnswerV>::empty(),
    {
        let r = Answers { kept: StringHashMap::new() };
        proof {
            assert(r@ =~= Map::empty());
        }
        r
    }

    /// The answer that is kept under a name.
    pub fn find(&self, name: &str) -> (r: Option<(u16, String)>)
        ensures
            match r {
                Some((code, body)) => self@.dom().contains(name@) && self@[name@] == (AnswerV {
                    code,
                    body: body@,
                }),
                None => !self@.dom().contains(name@),
            },
    {
        match self.kept.get(name) {
            Some(a) => Some((a.0, a.1.clone())),
            None => None,
        }
    }

    /// Keeps an answer under a name.
    pub fn keep(&mut self, name: String, code: u16, body: String)
        ensures
            final(self)@ == old(self)@.insert(name@, (AnswerV { code, body: body@ })),
    {
        let ghost before = self.kept@;
        let ghost nv = name@;
        let ghost bv = body@;
        self.kept.insert(name, (code, body));
        proof {
            assert(self@ =~= old(self)@.insert(nv, (AnswerV { code, body: bv })));
        }
    }

    /// What is done with a request under a name: an answer that is kept is given again, and
    /// otherwise it is carried out.
    pub fn again(&self, name: &Option<String>) -> (r: Option<(u16, String)>)
        ensures
            match r {
                Some((code, body)) => name is Some && self@.dom().contains(name->0@) && self@[name->0@]
                    == (AnswerV { code, body: body@ }),
                None => name is None || !self@.dom().contains(name->0@),
            },
    {
        match name {
            Some(n) => self.find(n.as_str()),
            None => None,
        }
    }

    /// Takes note of a request that was carried out and answered with the status 201.
    pub fn done(&mut self, name: Option<String>, body: &String)
        ensures
            final(self)@ == match name {
                Some(n) => answered(old(self)@, n@, body@),
                None => old(self)@,
            },
    {
        match name {
            Some(n) => self.keep(n, 201, body.clone()),
            None => {},
        }
    }
}

} // verus!
