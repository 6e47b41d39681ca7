//! Searching: the requests, and the hits in the replies.
use vstd::prelude::*;
use vstd::slice::slice_subrange;

use crate::error::{fetch_failed, AuthError};
use crate::googlechat::cookies::pairs;
use crate::googlechat::direct::{
    bare, find_payload, parse_outer, reply_payload, search_address, search_form, search_headers,
    DirectSession, Request,
};
use crate::json::{self, jsons, lemma_array_view, parsed, plain, printed, Json, JsonV};
use crate::percent::{hex, law_hex_is_digits, show_hex};
use crate::text::{self, join2, join3, natural, or_empty, text_opt};

verus! {

broadcast use {vstd::string::group_string_axioms, lemma_array_view};

/// A space that a search found.
#[derive(Debug)]
pub struct SearchHit {
    /// The name of the space, without `space/` before it.
    pub space_id: String,
    /// The name that is shown. Empty for a conversation without one.
    pub name: String,
    /// One for a direct message, two for a room.
    pub kind: i64,
}

/// A message that a search found.
#[derive(Debug)]
pub struct MessageHit {
    pub topic_id: String,
    pub author_id: String,
    pub text: String,
    /// In microseconds. Zero where it is not known.
    pub timestamp_usec: u64,
}

/// The messages found in one thread.
#[derive(Debug)]
pub struct ThreadHit {
    pub topic_id: String,
    pub messages: Vec<MessageHit>,
}

/// What a search found. The threads are in the order of the service's ranking.
#[derive(Debug)]
pub struct SearchResults {
    pub hits: Vec<SearchHit>,
    pub threads: Vec<ThreadHit>,
    /// What the service wants to see in a request for more.
    pub continuation: Option<String>,
}

/// The mathematical form of a [`SearchHit`].
pub ghost struct SpaceHitV {
    pub space_id: Seq<char>,
    pub name: Seq<char>,
    pub kind: i64,
}

/// The mathematical form of a [`MessageHit`].
pub ghost struct MessageHitV {
    pub topic_id: Seq<char>,
    pub author_id: Seq<char>,
    pub text: Seq<char>,
    pub timestamp_usec: u64,
}

/// The mathematical form of a [`ThreadHit`].
pub ghost struct ThreadHitV {
    pub topic_id: Seq<char>,
    pub messages: Seq<MessageHitV>,
}

impl View for SearchHit {
    type V = SpaceHitV;

    open spec fn view(&self) -> SpaceHitV {
        SpaceHitV { space_id: self.space_id@, name: self.name@, kind: self.kind }
    }
}

impl View for MessageHit {
    type V = MessageHitV;

    open spec fn view(&self) -> MessageHitV {
        MessageHitV {
            topic_id: self.topic_id@,
            author_id: self.author_id@,
            text: self.text@,
            timestamp_usec: self.timestamp_usec,
        }
    }
}

impl View for ThreadHit {
    type V = ThreadHitV;

    open spec fn view(&self) -> ThreadHitV {
        ThreadHitV { topic_id: self.topic_id@, messages: message_hits(self.messages@) }
    }
}

pub open spec fn space_hits(v: Seq<SearchHit>) -> Seq<SpaceHitV> {
    v.map_values(|h: SearchHit| h@)
}

pub open spec fn message_hits(v: Seq<MessageHit>) -> Seq<MessageHitV> {
    v.map_values(|h: MessageHit| h@)
}

pub open spec fn thread_hits(v: Seq<ThreadHit>) -> Seq<ThreadHitV> {
    v.map_values(|h: ThreadHit| h@)
}

impl SearchResults {
    /// The first `n` threads, or all where there are fewer.
    pub fn top_threads(&self, n: usize) -> (r: &[ThreadHit])
        ensures
            r@ == self.threads@.take(
                if n < self.threads@.len() {
                    n as int
                } else {
                    self.threads@.len() as int
                },
            ),
    {
        let have: usize = self.threads.len();
        let take: usize = if n < have {
            n
        } else {
            have
        };
        let r = slice_subrange(self.threads.as_slice(), 0, take);
        proof {
            assert(r@ =~= self.threads@.take(take as int));
        }
        r
    }
}

// ───────────────────────── requests ─────────────────────────

/// The options of a search that is not limited to a space.
pub open spec fn open_options(uuid: Seq<char>) -> JsonV {
    let one = JsonV::Array(seq![JsonV::Pos(1)]);
    let three = JsonV::Array(seq![JsonV::Array(seq![one])]);
    let five = JsonV::Array(seq![JsonV::Array(seq![three])]);
    JsonV::Array(
        seq![
            JsonV::Array(Seq::empty()),
            JsonV::Null,
            JsonV::Null,
            JsonV::Null,
            JsonV::Text(uuid),
            JsonV::Null,
            JsonV::Pos(0),
            JsonV::Array(seq![five, three]),
        ],
    )
}

/// The options of a search in one space.
pub open spec fn space_options(uuid: Seq<char>, space: Seq<char>, group_type: i64) -> JsonV {
    let kind = if group_type < 0 {
        JsonV::Neg(group_type)
    } else {
        JsonV::Pos(group_type as u64)
    };
    let name = JsonV::Array(seq![JsonV::Text("space/"@ + space), JsonV::Text(space), kind]);
    let only = JsonV::Array(
        seq![JsonV::Array(seq![JsonV::Array(seq![JsonV::Text(space)])]), JsonV::Pos(1)],
    );
    JsonV::Array(
        seq![
            JsonV::Array(seq![JsonV::Null, name]),
            JsonV::Null,
            JsonV::Null,
            JsonV::Null,
            JsonV::Text(uuid),
            JsonV::Null,
            JsonV::Pos(0),
            JsonV::Array(
                seq![JsonV::Null, JsonV::Null, JsonV::Null, JsonV::Array(seq![only])],
            ),
        ],
    )
}

/// The argument of a search: the query, the number of the search twice, the options, and
/// the size of a page.
pub open spec fn search_argument(
    query: Seq<char>,
    uuid: Seq<char>,
    options: JsonV,
    page: u64,
) -> JsonV {
    JsonV::Array(
        seq![
            JsonV::Null,
            JsonV::Null,
            JsonV::Null,
            JsonV::Text(query),
            JsonV::Null,
            JsonV::Text(uuid),
            options,
            JsonV::Null,
            JsonV::Array(seq![JsonV::Pos(3)]),
            JsonV::Array(seq![JsonV::Pos(page)]),
        ],
    )
}

fn list1(a: Json) -> (r: Json)
    ensures
        r@ == JsonV::Array(seq![a@]),
        plain(a@) ==> plain(r@),
{
    let mut v: Vec<Json> = Vec::new();
    v.push(a);
    proof {
        assert(jsons(v@) =~= seq![a@]);
    }
    Json::Array(v)
}

fn list2(a: Json, b: Json) -> (r: Json)
    ensures
        r@ == JsonV::Array(seq![a@, b@]),
        plain(a@) && plain(b@) ==> plain(r@),
{
    let mut v: Vec<Json> = Vec::new();
    v.push(a);
    v.push(b);
    proof {
        assert(jsons(v@) =~= seq![a@, b@]);
    }
    Json::Array(v)
}

fn options(first: Json, uuid: &str, last: Json) -> (r: Json)
    ensures
        r@ == JsonV::Array(
            seq![
                first@,
                JsonV::Null,
                JsonV::Null,
                JsonV::Null,
                JsonV::Text(uuid@),
                JsonV::Null,
                JsonV::Pos(0),
                last@,
            ],
        ),
        plain(first@) && plain(last@) ==> plain(r@),
{
    let mut v: Vec<Json> = Vec::new();
    v.push(first);
    v.push(Json::Null);
    v.push(Json::Null);
    v.push(Json::Null);
    v.push(Json::Text(uuid.to_owned()));
    v.push(Json::Null);
    v.push(Json::Pos(0));
    v.push(last);
    proof {
        assert(jsons(v@) =~= seq![
            first@,
            JsonV::Null,
            JsonV::Null,
            JsonV::Null,
            JsonV::Text(uuid@),
            JsonV::Null,
            JsonV::Pos(0),
            last@,
        ]);
        if plain(first@) && plain(last@) {
            let items = jsons(v@);
            assert forall|i: int| 0 <= i < items.len() implies plain(#[trigger] items[i]) by {}
        }
    }
    Json::Array(v)
}

fn argument(query: &str, uuid: &str, options: Json, page: u64) -> (r: Json)
    ensures
        r@ == search_argument(query@, uuid@, options@, page),
        plain(options@) ==> plain(r@),
{
    let mut v: Vec<Json> = Vec::new();
    v.push(Json::Null);
    v.push(Json::Null);
    v.push(Json::Null);
    v.push(Json::Text(query.to_owned()));
    v.push(Json::Null);
    v.push(Json::Text(uuid.to_owned()));
    v.push(options);
    v.push(Json::Null);
    v.push(list1(Json::Pos(3)));
    v.push(list1(Json::Pos(page)));
    proof {
        assert(jsons(v@) =~= search_argument(query@, uuid@, options@, page)->Array_0);
        if plain(options@) {
            let items = jsons(v@);
            assert forall|i: int| 0 <= i < items.len() implies plain(#[trigger] items[i]) by {}
        }
    }
    Json::Array(v)
}

/// The argument of a search over all spaces, with this number.
pub fn build_search_payload(query: &str, uuid: &str) -> (r: Json)
    ensures
        r@ == search_argument(query@, uuid@, open_options(uuid@), 97),
        plain(r@),
{
    let three = list1(list1(list1(Json::Pos(1))));
    let five = list1(list1(list1(list1(list1(Json::Pos(1))))));
    let none: Vec<Json> = Vec::new();
    proof {
        assert(jsons(none@) =~= Seq::empty());
    }
    let o = options(Json::Array(none), uuid, list2(five, three));
    argument(query, uuid, o, 97)
}

/// The argument of a search in one space, with this number. The space is named without
/// `space/` before it, and its kind is one for a direct message and two for a room.
pub fn build_search_in_space_payload(
    query: &str,
    space_id: &str,
    group_type: i64,
    uuid: &str,
) -> (r: Json)
    ensures
        r@ == search_argument(query@, uuid@, space_options(uuid@, space_id@, group_type), 257),
        plain(r@),
{
    let kind = if group_type < 0 {
        Json::Neg(group_type)
    } else {
        Json::Pos(group_type as u64)
    };
    let mut name: Vec<Json> = Vec::new();
    name.push(Json::Text(join2("space/", space_id)));
    name.push(Json::Text(space_id.to_owned()));
    name.push(kind);
    proof {
        assert(jsons(name@) =~= seq![
            JsonV::Text("space/"@ + space_id@),
            JsonV::Text(space_id@),
            kind@,
        ]);
        let items = jsons(name@);
        assert forall|i: int| 0 <= i < items.len() implies plain(#[trigger] items[i]) by {}
    }
    let only = list2(list1(list1(Json::Text(space_id.to_owned()))), Json::Pos(1));
    let mut filter: Vec<Json> = Vec::new();
    filter.push(Json::Null);
    filter.push(Json::Null);
    filter.push(Json::Null);
    let ghost o = only@;
    filter.push(list1(only));
    proof {
        assert(jsons(filter@) =~= seq![
            JsonV::Null,
            JsonV::Null,
            JsonV::Null,
            JsonV::Array(seq![o]),
        ]);
        let items = jsons(filter@);
        assert forall|i: int| 0 <= i < items.len() implies plain(#[trigger] items[i]) by {}
    }
    let all = options(list2(Json::Null, Json::Array(name)), uuid, Json::Array(filter));
    argument(query, uuid, all, 257)
}

/// The request that posts a search over all spaces, made at the second `now` in the
/// millisecond `reqid`, and the form that it posts.
pub fn search_messages(
    session: &DirectSession,
    query: &str,
    uuid: &str,
    now: u64,
    reqid: u128,
) -> (r: Result<(Request, String), AuthError>)
    ensures
        match session.at_token {
            Some(at) => r matches Ok((q, form)) && q.url@ == search_address("SBNmJb"@, reqid) && pairs(
                q.headers@,
            ) == search_headers(*session, now) && form@ == search_form(
                "SBNmJb"@,
                printed(search_argument(query@, uuid@, open_options(uuid@), 97)),
                at@,
            ),
            None => fetch_failed(r, "no at token; call fetch_xsrf_token first"@),
        },
{
    let payload = json::print(&build_search_payload(query, uuid));
    session.batchexecute("SBNmJb", payload.as_str(), now, reqid)
}

/// The request that posts a search in one space, made at the second `now` in the
/// millisecond `reqid`, and the form that it posts.
pub fn search_messages_in_space(
    session: &DirectSession,
    space_id: &str,
    group_type: i64,
    query: &str,
    uuid: &str,
    now: u64,
    reqid: u128,
) -> (r: Result<(Request, String), AuthError>)
    ensures
        match session.at_token {
            Some(at) => r matches Ok((q, form)) && q.url@ == search_address("SBNmJb"@, reqid) && pairs(
                q.headers@,
            ) == search_headers(*session, now) && form@ == search_form(
                "SBNmJb"@,
                printed(
                    search_argument(
                        query@,
                        uuid@,
                        space_options(uuid@, space_id@, group_type),
                        257,
                    ),
                ),
                at@,
            ),
            None => fetch_failed(r, "no at token; call fetch_xsrf_token first"@),
        },
{
    let payload = json::print(&build_search_in_space_payload(query, space_id, group_type, uuid));
    session.batchexecute("SBNmJb", payload.as_str(), now, reqid)
}

/// The number of a search, in the form of a UUID, from the time in nanoseconds and a
/// count of the searches made.
pub open spec fn uuid_text(nanos: u128, count: u64) -> Seq<char> {
    let a = (nanos % 0x1_0000_0000_0000_0000) as u64 ^ count.wrapping_mul(0x9E3779B97F4A7C15);
    let b = (nanos / 0x1_0000_0000_0000_0000) as u64 ^ (count << 13 | count >> 51);
    hex((a % 0x1_0000_0000) as nat, 8, true) + "-"@ + hex(
        (a / 0x1_0000_0000 % 0x1_0000) as nat,
        4,
        true,
    ) + "-"@ + hex((a / 0x1_0000_0000_0000) as nat, 4, true) + "-"@ + hex(
        (b % 0x1_0000) as nat,
        4,
        true,
    ) + "-"@ + hex((b / 0x1_0000) as nat, 12, true)
}

/// The number of a search, in the form of a UUID, from the time in nanoseconds and a
/// count of the searches made.
pub fn generate_uuid(nanos: u128, count: u64) -> (r: String)
    ensures
        r@ == uuid_text(nanos, count),
{
    let low: u64 = (nanos % 0x1_0000_0000_0000_0000) as u64;
    let high: u64 = (nanos / 0x1_0000_0000_0000_0000) as u64;
    let a: u64 = low ^ count.wrapping_mul(0x9E3779B97F4A7C15);
    let b: u64 = high ^ (count << 13 | count >> 51);
    let mut out = show_hex(a % 0x1_0000_0000, 8, true);
    out.append("-");
    out.append(show_hex(a / 0x1_0000_0000 % 0x1_0000, 4, true).as_str());
    out.append("-");
    out.append(show_hex(a / 0x1_0000_0000_0000, 4, true).as_str());
    out.append("-");
    out.append(show_hex(b % 0x1_0000, 4, true).as_str());
    out.append("-");
    out.append(show_hex(b / 0x1_0000, 12, true).as_str());
    out
}

/// The number of a search has the shape of a UUID: groups of 8, 4, 4, 4 and 12 digits with
/// hyphens between.
pub proof fn law_uuid_shape(nanos: u128, count: u64)
    ensures
        uuid_text(nanos, count).len() == 36,
        uuid_text(nanos, count)[8] == '-',
        uuid_text(nanos, count)[13] == '-',
        uuid_text(nanos, count)[18] == '-',
        uuid_text(nanos, count)[23] == '-',
{
    let a = (nanos % 0x1_0000_0000_0000_0000) as u64 ^ count.wrapping_mul(0x9E3779B97F4A7C15);
    let b = (nanos / 0x1_0000_0000_0000_0000) as u64 ^ (count << 13 | count >> 51);
    reveal_strlit("-");
    law_hex_is_digits((a % 0x1_0000_0000) as nat, 8, true);
    law_hex_is_digits((a / 0x1_0000_0000 % 0x1_0000) as nat, 4, true);
    law_hex_is_digits((a / 0x1_0000_0000_0000) as nat, 4, true);
    law_hex_is_digits((b % 0x1_0000) as nat, 4, true);
    law_hex_is_digits((b / 0x1_0000) as nat, 12, true);
}

// ───────────────────────── hits ─────────────────────────

/// The text at a place, or none.
pub open spec fn text_in(j: JsonV, i: int) -> Option<Seq<char>> {
    match j.item(i) {
        Some(x) => x.text(),
        None => None,
    }
}

fn string_in(j: &Json, i: usize) -> (r: Option<String>)
    ensures
        text_opt(r) == text_in(j@, i as int),
{
    match j.item(i) {
        Some(x) => match x.as_str() {
            Some(s) => Some(s.to_owned()),
            None => None,
        },
        None => None,
    }
}

/// The space of a hit: its name stands second and its kind third in the first array, and
/// the name that is shown stands third in the hit.
pub open spec fn space_hit(hit: JsonV) -> Option<SpaceHitV> {
    match hit.item(0) {
        Some(group) => match (text_in(group, 1), group.item(2)) {
            (Some(id), Some(kind)) => if id.len() == 0 {
                None
            } else {
                Some(
                    SpaceHitV {
                        space_id: id,
                        name: or_empty(text_in(hit, 2)),
                        kind: match kind.signed() {
                            Some(n) => n,
                            None => 0,
                        },
                    },
                )
            },
            _ => None,
        },
        None => None,
    }
}

/// The space of a hit, if it names one.
pub fn parse_hit(hit: &Json) -> (r: Option<SearchHit>)
    ensures
        match space_hit(hit@) {
            Some(h) => r matches Some(x) && x@ == h,
            None => r is None,
        },
{
    let group = match hit.item(0) {
        Some(g) => g,
        None => return None,
    };
    let space_id = match string_in(group, 1) {
        Some(s) => s,
        None => return None,
    };
    let kind: i64 = match group.item(2) {
        Some(k) => match k.as_i64() {
            Some(n) => n,
            None => 0,
        },
        None => return None,
    };
    if space_id.as_str().is_empty() {
        return None;
    }
    let name = text::text_or_empty(&string_in(hit, 2));
    Some(SearchHit { space_id, name, kind })
}

/// The message of a hit. Its first item is a list of fields: the author stands first in
/// the fifth, the text is the sixth, the time the twelfth, and the topic stands first in
/// the eighteenth.
pub open spec fn message_hit(hit: JsonV) -> Option<MessageHitV> {
    match hit.item(0) {
        Some(data) => match data.item(17) {
            Some(topic) => match text_in(topic, 0) {
                Some(id) => if id.len() == 0 {
                    None
                } else {
                    Some(
                        MessageHitV {
                            topic_id: id,
                            author_id: match data.item(4) {
                                Some(a) => or_empty(text_in(a, 0)),
                                None => Seq::empty(),
                            },
                            text: or_empty(text_in(data, 5)),
                            timestamp_usec: match text_in(data, 11) {
                                Some(t) => match natural(t, u64::MAX as nat) {
                                    Some(n) => n as u64,
                                    None => 0,
                                },
                                None => 0,
                            },
                        },
                    )
                },
                None => None,
            },
            None => None,
        },
        None => None,
    }
}

/// The message of a hit, if it names its topic.
pub fn parse_message_hit(hit: &Json) -> (r: Option<MessageHit>)
    ensures
        match message_hit(hit@) {
            Some(h) => r matches Some(x) && x@ == h,
            None => r is None,
        },
{
    let data = match hit.item(0) {
        Some(d) => d,
        None => return None,
    };
    let topic_id = match data.item(17) {
        Some(t) => match string_in(t, 0) {
            Some(s) => s,
            None => return None,
        },
        None => return None,
    };
    if topic_id.as_str().is_empty() {
        return None;
    }
    let author_id = match data.item(4) {
        Some(a) => text::text_or_empty(&string_in(a, 0)),
        None => String::new(),
    };
    let text = text::text_or_empty(&string_in(data, 5));
    let timestamp_usec: u64 = match string_in(data, 11) {
        Some(t) => match text::parse_natural(t.as_str(), u64::MAX) {
            Some(n) => n,
            None => 0,
        },
        None => 0,
    };
    Some(MessageHit { topic_id, author_id, text, timestamp_usec })
}

/// The spaces of the hits that name one, in order.
pub open spec fn all_spaces(hits: Seq<JsonV>) -> Seq<SpaceHitV>
    decreases hits.len(),
{
    if hits.len() == 0 {
        Seq::empty()
    } else {
        match space_hit(hits.last()) {
            Some(h) => all_spaces(hits.drop_last()).push(h),
            None => all_spaces(hits.drop_last()),
        }
    }
}

/// The messages of the hits that name their topic, in order.
pub open spec fn all_messages(hits: Seq<JsonV>) -> Seq<MessageHitV>
    decreases hits.len(),
{
    if hits.len() == 0 {
        Seq::empty()
    } else {
        match message_hit(hits.last()) {
            Some(h) => all_messages(hits.drop_last()).push(h),
            None => all_messages(hits.drop_last()),
        }
    }
}

fn parse_hits(hits: &Vec<Json>) -> (r: Vec<SearchHit>)
    ensures
        space_hits(r@) == all_spaces(jsons(hits@)),
{
    let ghost all = jsons(hits@);
    let mut out: Vec<SearchHit> = Vec::new();
    let mut i: usize = 0;
    proof {
        assert(space_hits(out@) =~= Seq::empty());
    }
    while i < hits.len()
        invariant
            i <= hits@.len(),
            all == jsons(hits@),
            space_hits(out@) == all_spaces(all.take(i as int)),
        decreases hits@.len() - i,
    {
        proof {
            assert(all.take(i + 1).drop_last() =~= all.take(i as int));
            assert(all[i as int] == hits@[i as int]@);
        }
        match parse_hit(&hits[i]) {
            Some(h) => {
                let ghost before = out@;
                out.push(h);
                proof {
                    assert(space_hits(out@) =~= space_hits(before).push(h@));
                }
            },
            None => {},
        }
        i += 1;
    }
    proof {
        assert(all.take(all.len() as int) =~= all);
    }
    out
}

fn parse_messages(hits: &Vec<Json>) -> (r: Vec<MessageHit>)
    ensures
        message_hits(r@) == all_messages(jsons(hits@)),
{
    let ghost all = jsons(hits@);
    let mut out: Vec<MessageHit> = Vec::new();
    let mut i: usize = 0;
    proof {
        assert(message_hits(out@) =~= Seq::empty());
    }
    while i < hits.len()
        invariant
            i <= hits@.len(),
            all == jsons(hits@),
            message_hits(out@) == all_messages(all.take(i as int)),
        decreases hits@.len() - i,
    {
        proof {
            assert(all.take(i + 1).drop_last() =~= all.take(i as int));
            assert(all[i as int] == hits@[i as int]@);
        }
        match parse_message_hit(&hits[i]) {
            Some(h) => {
                let ghost before = out@;
                out.push(h);
                proof {
                    assert(message_hits(out@) =~= message_hits(before).push(h@));
                }
            },
            None => {},
        }
        i += 1;
    }
    proof {
        assert(all.take(all.len() as int) =~= all);
    }
    out
}

// ───────────────────────── threads ─────────────────────────

/// The place of the thread of `topic`.
pub open spec fn thread_of(threads: Seq<ThreadHitV>, topic: Seq<char>) -> Option<int>
    decreases threads.len(),
{
    if threads.len() == 0 {
        None
    } else if threads.last().topic_id == topic {
        Some(threads.len() - 1)
    } else {
        thread_of(threads.drop_last(), topic)
    }
}

/// The messages gathered by their topics. The threads come in the order in which their
/// topics appear first, and the messages of each in their own order.
pub open spec fn grouped(messages: Seq<MessageHitV>) -> Seq<ThreadHitV>
    decreases messages.len(),
{
    if messages.len() == 0 {
        Seq::empty()
    } else {
        let before = grouped(messages.drop_last());
        let m = messages.last();
        match thread_of(before, m.topic_id) {
            Some(k) => before.update(
                k,
                ThreadHitV { topic_id: m.topic_id, messages: before[k].messages.push(m) },
            ),
            None => before.push(ThreadHitV { topic_id: m.topic_id, messages: seq![m] }),
        }
    }
}

proof fn lemma_thread_of(threads: Seq<ThreadHitV>, topic: Seq<char>)
    ensures
        match thread_of(threads, topic) {
            Some(k) => 0 <= k < threads.len() && threads[k].topic_id == topic,
            None => forall|k: int| 0 <= k < threads.len() ==> (#[trigger] threads[k]).topic_id != topic,
        },
    decreases threads.len(),
{
    if threads.len() > 0 && threads.last().topic_id != topic {
        lemma_thread_of(threads.drop_last(), topic);
        if thread_of(threads.drop_last(), topic) is None {
            assert forall|k: int| 0 <= k < threads.len() implies (#[trigger] threads[k]).topic_id
                != topic by {
                if k < threads.len() - 1 {
                    assert(threads.drop_last()[k] == threads[k]);
                }
            }
        }
    }
}

fn find_thread(threads: &Vec<ThreadHit>, topic: &str) -> (r: Option<usize>)
    ensures
        match r {
            Some(k) => k < threads@.len() && thread_of(thread_hits(threads@), topic@) == Some(
                k as int,
            ),
            None => thread_of(thread_hits(threads@), topic@) is None,
        },
{
    let ghost all = thread_hits(threads@);
    let mut k: usize = threads.len();
    proof {
        assert(all.take(k as int) =~= all);
    }
    while k > 0
        invariant
            k <= threads@.len(),
            all == thread_hits(threads@),
            thread_of(all, topic@) == thread_of(all.take(k as int), topic@),
        decreases k,
    {
        k = k - 1;
        proof {
            assert(all.take(k + 1).drop_last() =~= all.take(k as int));
            assert(all.take(k + 1).last() == threads@[k as int]@);
        }
        if text::same(threads[k].topic_id.as_str(), topic) {
            return Some(k);
        }
    }
    None
}

/// Gathers the messages by their topics.
pub fn group_into_threads(messages: Vec<MessageHit>) -> (r: Vec<ThreadHit>)
    ensures
        thread_hits(r@) == grouped(message_hits(messages@)),
{
    let ghost all = messages@;
    let ghost want = message_hits(all);
    let mut threads: Vec<ThreadHit> = Vec::new();
    proof {
        assert(thread_hits(threads@) =~= Seq::empty());
    }
    for m in it: messages
        invariant
            it.seq() == all,
            want == message_hits(all),
            thread_hits(threads@) == grouped(want.take(it.index() as int)),
    {
        let ghost k0 = it.index() as int;
        let ghost before = threads@;
        proof {
            assert(want.take(k0 + 1).drop_last() =~= want.take(k0));
            assert(want[k0] == m@);
        }
        let place = find_thread(&threads, m.topic_id.as_str());
        if let Some(k) = place {
            let ghost mv = m@;
            let ghost had = before[k as int];
            threads[k].messages.push(m);
            proof {
                assert(message_hits(threads@[k as int].messages@) =~= message_hits(
                    had.messages@,
                ).push(mv));
                lemma_thread_of(thread_hits(before), mv.topic_id);
                assert(thread_hits(before)[k as int] == had@);
                assert(thread_hits(threads@) =~= thread_hits(before).update(
                    k as int,
                    ThreadHitV { topic_id: mv.topic_id, messages: had@.messages.push(mv) },
                ));
            }
        } else {
            let ghost mv = m@;
            let topic_id = m.topic_id.clone();
            let mut first: Vec<MessageHit> = Vec::new();
            first.push(m);
            proof {
                assert(message_hits(first@) =~= seq![mv]);
            }
            let t = ThreadHit { topic_id, messages: first };
            let ghost tv = t@;
            threads.push(t);
            proof {
                assert(thread_hits(threads@) =~= thread_hits(before).push(tv));
            }
        }
    }
    proof {
        assert(want.take(want.len() as int) =~= want);
    }
    threads
}

/// The messages of one topic, in order.
pub open spec fn of_topic(messages: Seq<MessageHitV>, topic: Seq<char>) -> Seq<MessageHitV>
    decreases messages.len(),
{
    if messages.len() == 0 {
        Seq::empty()
    } else if messages.last().topic_id == topic {
        of_topic(messages.drop_last(), topic).push(messages.last())
    } else {
        of_topic(messages.drop_last(), topic)
    }
}

/// Each topic has one thread, a thread holds exactly the messages of its topic in their
/// order, and every message is in the thread of its topic.
pub proof fn law_threads_hold_their_topics(messages: Seq<MessageHitV>)
    ensures
        forall|i: int, j: int|
            0 <= i < j < grouped(messages).len() ==> (#[trigger] grouped(messages)[i]).topic_id != (
            #[trigger] grouped(messages)[j]).topic_id,
        forall|i: int|
            0 <= i < grouped(messages).len() ==> (#[trigger] grouped(messages)[i]).messages
                == of_topic(messages, grouped(messages)[i].topic_id),
        forall|t: Seq<char>|
            (#[trigger] thread_of(grouped(messages), t)) is None ==> of_topic(messages, t) == Seq::<
                MessageHitV,
            >::empty(),
    decreases messages.len(),
{
    if messages.len() > 0 {
        let before = grouped(messages.drop_last());
        let m = messages.last();
        let now = grouped(messages);
        law_threads_hold_their_topics(messages.drop_last());
        lemma_thread_of(before, m.topic_id);
        assert forall|i: int| 0 <= i < now.len() implies (#[trigger] now[i]).messages == of_topic(
            messages,
            now[i].topic_id,
        ) by {
            if thread_of(before, m.topic_id) is None && i == before.len() {
                assert(of_topic(messages, m.topic_id) =~= seq![m]);
            } else {
                assert(before[i].messages == of_topic(messages.drop_last(), before[i].topic_id));
                if before[i].topic_id == m.topic_id {
                    assert(thread_of(before, m.topic_id) == Some(i));
                }
            }
        }
        assert forall|t: Seq<char>| (#[trigger] thread_of(now, t)) is None implies of_topic(
            messages,
            t,
        ) == Seq::<MessageHitV>::empty() by {
            lemma_thread_of(now, t);
            lemma_thread_of(before, t);
            match thread_of(before, m.topic_id) {
                Some(k) => {
                    assert(now[k].topic_id == m.topic_id);
                    if thread_of(before, t) is Some {
                        let j = thread_of(before, t)->0;
                        assert(now[j].topic_id == t);
                    }
                },
                None => {
                    assert(now[before.len() as int].topic_id == m.topic_id);
                    if thread_of(before, t) is Some {
                        let j = thread_of(before, t)->0;
                        assert(now[j].topic_id == t);
                    }
                },
            }
        }
    }
}

/// The threads keep the ranking: a further message leaves the order of the threads, and
/// opens a thread at the end at most.
pub proof fn law_ranking_is_kept(messages: Seq<MessageHitV>, m: MessageHitV)
    ensures
        grouped(messages).len() <= grouped(messages.push(m)).len() <= grouped(messages).len() + 1,
        forall|i: int|
            0 <= i < grouped(messages).len() ==> (#[trigger] grouped(messages.push(m))[i]).topic_id
                == grouped(messages)[i].topic_id,
{
    assert(messages.push(m).drop_last() =~= messages);
    lemma_thread_of(grouped(messages), m.topic_id);
}

// ───────────────────────── replies ─────────────────────────

/// The items of the array at a place, or none.
pub open spec fn list_in(j: JsonV, i: int) -> Seq<JsonV> {
    match j.item(i) {
        Some(JsonV::Array(a)) => a,
        _ => Seq::empty(),
    }
}

/// The results are those in the payload of a reply: what to ask for more with stands
/// first, the spaces fifth and the messages tenth.
pub open spec fn results_of(r: SearchResults, payload: JsonV) -> bool {
    &&& text_opt(r.continuation) == match text_in(payload, 0) {
        Some(t) => if t.len() > 0 {
            Some(t)
        } else {
            None
        },
        None => None,
    }
    &&& space_hits(r.hits@) == all_spaces(list_in(payload, 4))
    &&& thread_hits(r.threads@) == grouped(all_messages(list_in(payload, 9)))
}

/// The results in the payload of a reply. Hits that are malformed are left out.
pub fn results(payload: &Json) -> (r: SearchResults)
    ensures
        results_of(r, payload@),
{
    let continuation = match string_in(payload, 0) {
        Some(t) => if t.as_str().is_empty() {
            None
        } else {
            Some(t)
        },
        None => None,
    };
    let hits = match payload.item(4) {
        Some(Json::Array(a)) => parse_hits(a),
        _ => {
            let none: Vec<SearchHit> = Vec::new();
            proof {
                assert(space_hits(none@) =~= Seq::empty());
            }
            none
        },
    };
    let raw = match payload.item(9) {
        Some(Json::Array(a)) => parse_messages(a),
        _ => {
            let none: Vec<MessageHit> = Vec::new();
            proof {
                assert(message_hits(none@) =~= Seq::empty());
            }
            none
        },
    };
    SearchResults { hits, threads: group_into_threads(raw), continuation }
}

/// The results in the payload of a reply, given as a JSON text.
pub fn parse_search_response(payload: &str) -> (r: Result<SearchResults, AuthError>)
    ensures
        match parsed(payload@) {
            Ok(j) => if j is Array {
                r matches Ok(x) && results_of(x, j)
            } else {
                fetch_failed(r, "SBNmJb payload not array"@)
            },
            Err(m) => fetch_failed(r, "parse SBNmJb payload: "@ + m),
        },
{
    match json::parse(payload) {
        Ok(j) => if j.is_array() {
            Ok(results(&j))
        } else {
            Err(AuthError::SessionFetch("SBNmJb payload not array".to_owned()))
        },
        Err(m) => Err(AuthError::SessionFetch(join2("parse SBNmJb payload: ", m.as_str()))),
    }
}

/// The results in a whole reply: the marks before it, the frames, and in the frame of
/// `rpc_id` the payload.
pub fn parse_batchexecute_response(body: &str, rpc_id: &str) -> (r: Result<SearchResults, AuthError>)
    ensures
        match parsed(bare(body@)) {
            Ok(outer) => match reply_payload(outer, rpc_id@) {
                Some(p) => match parsed(p) {
                    Ok(j) => if j is Array {
                        r matches Ok(x) && results_of(x, j)
                    } else {
                        fetch_failed(r, "SBNmJb payload not array"@)
                    },
                    Err(m) => fetch_failed(r, "parse SBNmJb payload: "@ + m),
                },
                None => fetch_failed(r, "no wrb.fr/"@ + rpc_id@ + " frame in response"@),
            },
            Err(m) => fetch_failed(r, "parse outer: "@ + m),
        },
{
    let outer = match parse_outer(body) {
        Ok(j) => j,
        Err(e) => return Err(e),
    };
    match find_payload(&outer, rpc_id) {
        Some(p) => parse_search_response(p.as_str()),
        None => Err(
            AuthError::SessionFetch(join3("no wrb.fr/", rpc_id, " frame in response")),
        ),
    }
}

} // verus!
