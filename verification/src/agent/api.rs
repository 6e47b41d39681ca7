//! What programs can ask for: the calls that are made for it, and what is told of the
//! replies.
use vstd::prelude::*;

use crate::agent::json::{
    AskResponse, HealthResponse, MessageJson, ReplyResponse, SearchResponse, SpaceInfo, SpaceKind,
    ThreadJson,
};
use crate::error::{ApiError, AppError, AuthError};
use crate::googlechat::commands::{has_header, tests_make_header};
use crate::googlechat::convert::{items_of, world_items};
use crate::googlechat::direct::{bare, reply_payload};
use crate::googlechat::proto;
use crate::googlechat::raw::user_text;
use crate::googlechat::reply::{count_member, text_member};
use crate::googlechat::search::{
    all_messages, build_search_in_space_payload, grouped, list_in, message_hits,
    parse_batchexecute_response, search_argument, space_options, text_in, thread_hits, MessageHitV,
    SearchResults, ThreadHit, ThreadHitV,
};
use crate::json::{self, parsed, printed, JsonV};
use crate::text::{
    self, copy_opt, decimal, join2, join3, or_empty, text_opt, text_or_empty, without_prefix,
};
use crate::types::space::SpaceKind as Kind;

verus! {

broadcast use vstd::string::group_string_axioms;

// ───────────────────────── spaces ─────────────────────────

/// The mathematical form of a [`SpaceInfo`].
pub ghost struct InfoV {
    pub id: Seq<char>,
    pub name: Seq<char>,
    pub kind: SpaceKind,
}

impl View for SpaceInfo {
    type V = InfoV;

    open spec fn view(&self) -> InfoV {
        InfoV { id: self.id@, name: self.name@, kind: self.kind }
    }
}

pub open spec fn infos(v: Seq<SpaceInfo>) -> Seq<InfoV> {
    v.map_values(|s: SpaceInfo| s@)
}

/// The bare name of a space, and whether it is a direct message.
pub open spec fn bare_name(g: proto::GroupId) -> Option<(Seq<char>, bool)> {
    match g.space_id {
        Some(s) => Some((or_empty(text_opt(s.space_id)), false)),
        None => match g.dm_id {
            Some(d) => Some((or_empty(text_opt(d.dm_id)), true)),
            None => None,
        },
    }
}

/// What is told of an item of the world: nothing where it has no name or an empty one.
pub open spec fn item_info(i: proto::WorldItemLite) -> Option<InfoV> {
    match i.group_id {
        Some(g) => match bare_name(g) {
            Some((id, dm)) => if id.len() == 0 {
                None
            } else {
                Some(
                    InfoV {
                        id,
                        name: match i.room_name {
                            Some(n) => n@,
                            None => id,
                        },
                        kind: if dm {
                            SpaceKind::DirectMessage
                        } else {
                            SpaceKind::Room
                        },
                    },
                )
            },
            None => None,
        },
        None => None,
    }
}

/// What is told of the items of the world, in order.
pub open spec fn item_infos(items: Seq<proto::WorldItemLite>) -> Seq<InfoV>
    decreases items.len(),
{
    if items.len() == 0 {
        Seq::empty()
    } else {
        match item_info(items.last()) {
            Some(x) => item_infos(items.drop_last()).push(x),
            None => item_infos(items.drop_last()),
        }
    }
}

fn info_of_item(i: &proto::WorldItemLite) -> (r: Option<SpaceInfo>)
    ensures
        match item_info(*i) {
            Some(v) => r matches Some(x) && x@ == v,
            None => r is None,
        },
{
    let g = match &i.group_id {
        Some(g) => g,
        None => return None,
    };
    let (id, kind) = match &g.space_id {
        Some(s) => (text_or_empty(&s.space_id), Kind::Room),
        None => match &g.dm_id {
            Some(d) => (text_or_empty(&d.dm_id), Kind::DirectMessage),
            None => return None,
        },
    };
    if id.as_str().is_empty() {
        return None;
    }
    let name = match &i.room_name {
        Some(n) => n.clone(),
        None => id.clone(),
    };
    Some(SpaceInfo { id, name, kind: SpaceKind::from(kind) })
}

/// The spaces that a reply lists.
pub fn list_spaces(resp: &proto::PaginatedWorldResponse) -> (r: Vec<SpaceInfo>)
    ensures
        infos(r@) == item_infos(world_items(*resp)),
{
    let items = items_of(resp);
    let ghost iv = world_items(*resp);
    let mut out: Vec<SpaceInfo> = Vec::new();
    let mut i: usize = 0;
    proof {
        assert(infos(out@) =~= Seq::empty());
    }
    while i < items.len()
        invariant
            i <= items@.len(),
            iv == items@.map_values(|i: &proto::WorldItemLite| *i),
            infos(out@) == item_infos(iv.take(i as int)),
        decreases items@.len() - i,
    {
        let item = items[i];
        proof {
            assert(iv.take(i + 1).drop_last() =~= iv.take(i as int));
            assert(iv.take(i + 1).last() == *item);
        }
        if let Some(x) = info_of_item(item) {
            let ghost before = out@;
            let ghost xv = x@;
            out.push(x);
            proof {
                assert(infos(out@) =~= infos(before).push(xv));
            }
        }
        i += 1;
    }
    proof {
        assert(iv.take(iv.len() as int) =~= iv);
    }
    out
}

// ───────────────────────── messages ─────────────────────────

/// `g` is the direct message that `s` names with `dm/` before it, or the room `s`.
pub open spec fn is_named_group(g: proto::GroupId, s: Seq<char>) -> bool {
    match without_prefix(s, "dm/"@) {
        Some(rest) => g.space_id is None && (g.dm_id matches Some(d) && text_opt(d.dm_id) == Some(
            rest,
        )),
        None => g.dm_id is None && (g.space_id matches Some(p) && text_opt(p.space_id) == Some(s)),
    }
}

/// The direct message or the room that a name stands for.
pub fn group_id_for(space_id: &str) -> (r: proto::GroupId)
    ensures
        is_named_group(r, space_id@),
{
    match text::strip_prefix(space_id, "dm/") {
        Some(rest) => proto::GroupId {
            space_id: None,
            dm_id: Some(proto::DmId { dm_id: Some(rest) }),
        },
        None => proto::GroupId {
            space_id: Some(proto::SpaceId { space_id: Some(space_id.to_owned()) }),
            dm_id: None,
        },
    }
}

/// The name that the sender gives a message: from the key where there is one, else from
/// the process and the second.
pub open spec fn local_name(
    prefix: Seq<char>,
    key: Option<Seq<char>>,
    process: u32,
    now: u64,
) -> Seq<char> {
    match key {
        Some(k) => prefix + k,
        None => prefix + decimal(process as nat) + "-"@ + decimal(now as nat),
    }
}

fn local_id(prefix: &str, key: &Option<String>, process: u32, now: u64) -> (r: String)
    ensures
        r@ == local_name(prefix@, text_opt(*key), process, now),
{
    match key {
        Some(k) => join2(prefix, k.as_str()),
        None => {
            let head = join3(prefix, text::show(process as u64).as_str(), "-");
            join2(head.as_str(), text::show(now).as_str())
        },
    }
}

/// The request posts the text in the space, as a topic of its own or in the topic given.
pub open spec fn is_post(
    q: proto::CreateMessageRequest,
    space: Seq<char>,
    topic: Option<Seq<char>>,
    body: Seq<char>,
    local: Seq<char>,
) -> bool {
    &&& has_header(q.request_header)
    &&& q.parent_id matches Some(p) && (p.topic_id matches Some(t) && text_opt(t.topic_id) == topic
        && (t.group_id matches Some(g) && is_named_group(g, space)))
    &&& text_opt(q.text_body) == Some(body)
    &&& text_opt(q.local_id) == Some(local)
    &&& q.message_info matches Some(i) && i.accept_format_annotations == Some(true)
}

fn post(space: &str, topic: Option<String>, body: &str, local: String) -> (r:
    proto::CreateMessageRequest)
    ensures
        is_post(r, space@, text_opt(topic), body@, local@),
{
    proto::CreateMessageRequest {
        request_header: Some(tests_make_header()),
        parent_id: Some(
            proto::MessageParentId {
                topic_id: Some(
                    proto::TopicId { group_id: Some(group_id_for(space)), topic_id: topic },
                ),
            },
        ),
        text_body: Some(body.to_owned()),
        local_id: Some(local),
        message_info: Some(proto::MessageInfo { accept_format_annotations: Some(true) }),
    }
}

/// The call that posts a question in a space, made in the process `process` at the second
/// `now`.
pub fn question_request(
    space_id: &str,
    body: &str,
    idempotency_key: &Option<String>,
    process: u32,
    now: u64,
) -> (r: proto::CreateMessageRequest)
    ensures
        is_post(
            r,
            space_id@,
            None,
            body@,
            local_name("agent-ask-"@, text_opt(*idempotency_key), process, now),
        ),
{
    post(space_id, None, body, local_id("agent-ask-", idempotency_key, process, now))
}

/// The call that posts an answer in a topic, made in the process `process` at the second
/// `now`.
pub fn answer_request(
    space_id: &str,
    topic_id: &str,
    body: &str,
    idempotency_key: &Option<String>,
    process: u32,
    now: u64,
) -> (r: proto::CreateMessageRequest)
    ensures
        is_post(
            r,
            space_id@,
            Some(topic_id@),
            body@,
            local_name("agent-reply-"@, text_opt(*idempotency_key), process, now),
        ),
{
    post(
        space_id,
        Some(topic_id.to_owned()),
        body,
        local_id("agent-reply-", idempotency_key, process, now),
    )
}

/// Two messages posted with the same key have the same name, whatever the process and the
/// time, so that the service can tell that they are one.
pub proof fn law_key_names_the_message(
    prefix: Seq<char>,
    key: Seq<char>,
    p: u32,
    q: u32,
    s: u64,
    t: u64,
)
    ensures
        local_name(prefix, Some(key), p, s) == local_name(prefix, Some(key), q, t),
{
}

/// The name of the message that a reply tells of.
pub open spec fn posted_id(resp: proto::CreateMessageResponse) -> Option<proto::MessageId> {
    match resp.message {
        Some(m) => m.id,
        None => None,
    }
}

/// The topic that a message is in, as its name says.
pub open spec fn topic_in(id: proto::MessageId) -> Option<Seq<char>> {
    match id.parent_id {
        Some(p) => match p.topic_id {
            Some(t) => text_opt(t.topic_id),
            None => None,
        },
        None => None,
    }
}

/// What is told of a question that was posted: the names of its message and its topic. A
/// reply without a name is an error. The topic of a message that does not say is the
/// message itself.
pub fn question_reply(resp: &proto::CreateMessageResponse, space_id: &str) -> (r: Result<
    AskResponse,
    AppError,
>)
    ensures
        match posted_id(*resp) {
            Some(id) => {
                let name = or_empty(text_opt(id.message_id));
                r matches Ok(x) && x.message_id@ == name && x.space_id@ == space_id@ && x.topic_id@
                    == match topic_in(id) {
                    Some(t) => t,
                    None => name,
                }
            },
            None => r matches Err(AppError::Api(ApiError::Http(m))) && m@
                == "create_message: no message id in response"@,
        },
{
    let id = match &resp.message {
        Some(m) => match &m.id {
            Some(id) => id,
            None => return Err(no_message_id()),
        },
        None => return Err(no_message_id()),
    };
    let message_id = text_or_empty(&id.message_id);
    let topic = match &id.parent_id {
        Some(p) => match &p.topic_id {
            Some(t) => copy_opt(&t.topic_id),
            None => None,
        },
        None => None,
    };
    let topic_id = match topic {
        Some(t) => t,
        None => message_id.clone(),
    };
    Ok(AskResponse { topic_id, message_id, space_id: space_id.to_owned() })
}

fn no_message_id() -> (r: AppError)
    ensures
        r matches AppError::Api(ApiError::Http(m)) && m@
            == "create_message: no message id in response"@,
{
    AppError::Api(ApiError::Http("create_message: no message id in response".to_owned()))
}

/// What is told of an answer that was posted: the name of its message, empty where the
/// reply has none.
pub fn answer_reply(resp: &proto::CreateMessageResponse) -> (r: ReplyResponse)
    ensures
        r.message_id@ == match posted_id(*resp) {
            Some(id) => or_empty(text_opt(id.message_id)),
            None => Seq::empty(),
        },
{
    let message_id = match &resp.message {
        Some(m) => match &m.id {
            Some(id) => text_or_empty(&id.message_id),
            None => String::new(),
        },
        None => String::new(),
    };
    ReplyResponse { message_id }
}

/// The name of the signed-in user in a reply.
pub fn self_user_id(resp: &proto::GetSelfUserStatusResponse) -> (r: Option<String>)
    ensures
        text_opt(r) == match resp.user_status {
            Some(s) => user_text(s.user_id),
            None => None,
        },
{
    match &resp.user_status {
        Some(s) => match &s.user_id {
            Some(u) => copy_opt(&u.id),
            None => None,
        },
        None => None,
    }
}

/// What is told of the daemon itself.
pub fn health(self_user_id: Option<String>, uptime_secs: u64) -> (r: HealthResponse)
    ensures
        r.status@ == "ok"@,
        r.auth@ == "valid"@,
        r.self_user_id == self_user_id,
        r.uptime_secs == uptime_secs,
{
    HealthResponse {
        status: "ok".to_owned(),
        auth: "valid".to_owned(),
        self_user_id,
        uptime_secs,
    }
}

// ───────────────────────── searches ─────────────────────────

/// The argument of a search in one room, as a JSON text.
pub fn search_text(query: &str, space_id: &str, uuid: &str) -> (r: String)
    ensures
        r@ == printed(
            search_argument(query@, uuid@, space_options(uuid@, space_id@, 2), 257),
        ),
{
    json::print(&build_search_in_space_payload(query, space_id, 2, uuid))
}

/// The messages that are told of, without the topic, which their thread has.
pub open spec fn told_messages(v: Seq<MessageJson>) -> Seq<(Seq<char>, Seq<char>, u64)> {
    v.map_values(|m: MessageJson| (m.author_id@, m.text@, m.timestamp_usec))
}

/// The threads that are told of.
pub open spec fn told_threads(v: Seq<ThreadJson>) -> Seq<
    (Seq<char>, Seq<(Seq<char>, Seq<char>, u64)>),
> {
    v.map_values(|t: ThreadJson| (t.topic_id@, told_messages(t.messages@)))
}

/// What is told of a thread.
pub open spec fn thread_told(t: ThreadHitV) -> (Seq<char>, Seq<(Seq<char>, Seq<char>, u64)>) {
    (
        t.topic_id,
        t.messages.map_values(|m: MessageHitV| (m.author_id, m.text, m.timestamp_usec)),
    )
}

/// The first `top` of the threads, or all where there are fewer.
pub open spec fn top_of(v: Seq<ThreadHitV>, top: usize) -> Seq<ThreadHitV> {
    v.take(
        if top < v.len() {
            top as int
        } else {
            v.len() as int
        },
    )
}

/// The results are told of with the first `top` of their threads.
pub open spec fn tells_results(
    r: SearchResponse,
    query: Seq<char>,
    threads: Seq<ThreadHitV>,
    continuation: Option<Seq<char>>,
    top: usize,
) -> bool {
    &&& r.query@ == query
    &&& told_threads(r.threads@) == top_of(threads, top).map_values(
        |t: ThreadHitV| thread_told(t),
    )
    &&& text_opt(r.continuation) == continuation
}

fn tell_thread(t: &ThreadHit) -> (r: ThreadJson)
    ensures
        (r.topic_id@, told_messages(r.messages@)) == thread_told(t@),
{
    let ghost want = thread_told(t@).1;
    let mut out: Vec<MessageJson> = Vec::new();
    let mut i: usize = 0;
    while i < t.messages.len()
        invariant
            i <= t.messages@.len(),
            want == thread_told(t@).1,
            told_messages(out@) == want.take(i as int),
        decreases t.messages@.len() - i,
    {
        let m = &t.messages[i];
        let ghost before = out@;
        proof {
            assert(message_hits(t.messages@)[i as int] == m@);
        }
        let x = MessageJson {
            author_id: m.author_id.clone(),
            text: m.text.clone(),
            timestamp_usec: m.timestamp_usec,
        };
        out.push(x);
        proof {
            assert(told_messages(out@) =~= told_messages(before).push(
                (x.author_id@, x.text@, x.timestamp_usec),
            ));
            assert(want.take(i + 1) =~= want.take(i as int).push(want[i as int]));
        }
        i += 1;
    }
    proof {
        assert(want.take(want.len() as int) =~= want);
    }
    ThreadJson { topic_id: t.topic_id.clone(), messages: out }
}

/// The results as they are told of, with the first `top` of their threads.
pub fn tell_results(results: SearchResults, query: &str, top: usize) -> (r: SearchResponse)
    ensures
        tells_results(
            r,
            query@,
            thread_hits(results.threads@),
            text_opt(results.continuation),
            top,
        ),
{
    let ghost all = thread_hits(results.threads@);
    let chosen = results.top_threads(top);
    let ghost want = top_of(all, top).map_values(|t: ThreadHitV| thread_told(t));
    let mut out: Vec<ThreadJson> = Vec::new();
    let mut i: usize = 0;
    proof {
        assert(thread_hits(chosen@) =~= top_of(all, top));
    }
    while i < chosen.len()
        invariant
            i <= chosen@.len(),
            thread_hits(chosen@) == top_of(all, top),
            want == top_of(all, top).map_values(|t: ThreadHitV| thread_told(t)),
            told_threads(out@) == want.take(i as int),
        decreases chosen@.len() - i,
    {
        let ghost before = out@;
        proof {
            assert(thread_hits(chosen@)[i as int] == chosen@[i as int]@);
        }
        let x = tell_thread(&chosen[i]);
        out.push(x);
        proof {
            assert(told_threads(out@) =~= told_threads(before).push(
                (x.topic_id@, told_messages(x.messages@)),
            ));
            assert(want.take(i + 1) =~= want.take(i as int).push(want[i as int]));
        }
        i += 1;
    }
    proof {
        assert(want.take(want.len() as int) =~= want);
    }
    SearchResponse {
        query: query.to_owned(),
        threads: out,
        continuation: results.continuation,
    }
}

/// The result is a failure of the call, with this message.
pub open spec fn call_failed<T>(r: Result<T, AppError>, message: Seq<char>) -> bool {
    r matches Err(AppError::Api(ApiError::Http(m))) && m@ == message
}

/// The result is a failure of the session, with this message.
pub open spec fn session_failed<T>(r: Result<T, AppError>, message: Seq<char>) -> bool {
    r matches Err(AppError::Auth(AuthError::SessionFetch(m))) && m@ == message
}

/// What the payload of a search tells: what to ask for more with.
pub open spec fn more_of(j: JsonV) -> Option<Seq<char>> {
    match text_in(j, 0) {
        Some(t) => if t.len() > 0 {
            Some(t)
        } else {
            None
        },
        None => None,
    }
}

/// What is told of a search, from what the tab that made it gives back: a JSON text with
/// the status and the body, or an error.
pub fn search_reply(raw: &str, query: &str, top: usize) -> (r: Result<SearchResponse, AppError>)
    ensures
        match parsed(raw@) {
            Err(m) => call_failed(r, "parse outer: "@ + m),
            Ok(outer) => match text_member(outer, "error"@) {
                Some(e) => call_failed(r, e),
                None => if count_member(outer, "status"@) != 200 {
                    call_failed(
                        r,
                        "batchexecute HTTP "@ + decimal(count_member(outer, "status"@) as nat),
                    )
                } else {
                    let body = or_empty(text_member(outer, "body"@));
                    match parsed(bare(body)) {
                        Err(m) => session_failed(r, "parse outer: "@ + m),
                        Ok(frames) => match reply_payload(frames, "SBNmJb"@) {
                            None => session_failed(
                                r,
                                "no wrb.fr/"@ + "SBNmJb"@ + " frame in response"@,
                            ),
                            Some(p) => match parsed(p) {
                                Err(m) => session_failed(r, "parse SBNmJb payload: "@ + m),
                                Ok(j) => if j is Array {
                                    r matches Ok(x) && tells_results(
                                        x,
                                        query@,
                                        grouped(all_messages(list_in(j, 9))),
                                        more_of(j),
                                        top,
                                    )
                                } else {
                                    session_failed(r, "SBNmJb payload not array"@)
                                },
                            },
                        },
                    }
                },
            },
        },
{
    let outer = match json::parse(raw) {
        Ok(j) => j,
        Err(m) => return Err(
            AppError::Api(ApiError::Http(join2("parse outer: ", m.as_str()))),
        ),
    };
    let error = match outer.member("error") {
        Some(v) => v.as_str(),
        None => None,
    };
    match error {
        Some(e) => return Err(AppError::Api(ApiError::Http(e.to_owned()))),
        None => {},
    }
    let status: u64 = match outer.member("status") {
        Some(s) => match s.as_u64() {
            Some(n) => n,
            None => 0,
        },
        None => 0,
    };
    if status != 200 {
        return Err(
            AppError::Api(
                ApiError::Http(join2("batchexecute HTTP ", text::show(status).as_str())),
            ),
        );
    }
    let body = match outer.member("body") {
        Some(v) => match v.as_str() {
            Some(s) => s,
            None => "",
        },
        None => "",
    };
    proof {
        reveal_strlit("");
        assert(""@ =~= Seq::empty());
    }
    match parse_batchexecute_response(body, "SBNmJb") {
        Ok(results) => Ok(tell_results(results, query, top)),
        Err(e) => Err(AppError::Auth(e)),
    }
}

} // verus!
