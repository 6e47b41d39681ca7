//! Replies of the chat service turned into events.
use vstd::prelude::*;

use crate::event::inbound::{EventV, InboundEvent};
use crate::googlechat::proto;
use crate::googlechat::raw::{
    creator_name, creator_text, intern_sender, intern_space, intern_thread, intern_user,
    message_name, message_text, message_topic, message_topic_name, sender_of, space_named,
    thread_of, topic_text, user_named, user_text,
};
use crate::text::{or_empty, text_opt, text_or_empty};
use crate::googlechat::session::Session;
use crate::types::ids::{id_of, with, IdInterner, MessageId, PlatformId, Pool, SpaceId, TopicId};
use crate::types::message::{
    annotations, messages, reactions, Annotation, Emoji, EmojiV, Message, MessageType, MessageV,
    Reaction, ReactionV,
};
use crate::types::space::{spaces, users, PresenceStatus, Space, SpaceKind, SpaceV, User, UserV};
use crate::types::timestamp::Timestamp;

verus! {

broadcast use vstd::string::group_string_axioms;

// ───────────────────────── messages ─────────────────────────

/// An emoji of the service: one of Unicode, one of its own, or a question mark.
pub open spec fn emoji_of(e: Option<proto::Emoji>) -> EmojiV {
    match e {
        Some(x) => match x.unicode {
            Some(u) => EmojiV::Unicode(u@),
            None => match x.custom_emoji {
                Some(c) => EmojiV::Custom {
                    id: or_empty(text_opt(c.uuid)),
                    shortcode: or_empty(text_opt(c.shortcode)),
                },
                None => EmojiV::Unicode("?"@),
            },
        },
        None => EmojiV::Unicode("?"@),
    }
}

pub open spec fn number_or_zero(n: Option<i32>) -> u32 {
    match n {
        Some(x) => x as u32,
        None => 0,
    }
}

pub open spec fn time_or_zero(n: Option<i64>) -> Timestamp {
    match n {
        Some(x) => Timestamp(x as u64),
        None => Timestamp(0),
    }
}

pub open spec fn time_opt(n: Option<i64>) -> Option<Timestamp> {
    match n {
        Some(x) => Some(Timestamp(x as u64)),
        None => None,
    }
}

pub open spec fn or_false(b: Option<bool>) -> bool {
    b == Some(true)
}

pub open spec fn reaction_of(r: proto::Reaction) -> ReactionV {
    ReactionV {
        emoji: emoji_of(r.emoji),
        count: number_or_zero(r.count),
        includes_self: or_false(r.current_user_participated),
    }
}

pub open spec fn kind_of_message(t: Option<i32>) -> MessageType {
    if t == Some(2i32) {
        MessageType::System
    } else {
        MessageType::User
    }
}

/// The pool behind a message of the service, and the message. One without a name
/// is none.
pub open spec fn message_of(m: proto::Message, space: SpaceId, pool: Pool) -> (
    Pool,
    Option<MessageV>,
) {
    match message_text(m.id) {
        Some(name) => {
            let (p2, sender) = sender_of(with(pool, name), creator_text(m.creator));
            let (p3, thread_id) = thread_of(p2, topic_text(message_topic(m.id)));
            (
                p3,
                Some(
                    MessageV {
                        id: MessageId(id_of(pool, name)),
                        space_id: space,
                        sender,
                        timestamp: time_or_zero(m.create_time),
                        edit_timestamp: time_opt(m.last_edit_time),
                        text: or_empty(text_opt(m.text_body)),
                        annotations: Seq::empty(),
                        reactions: m.reactions@.map_values(|r: proto::Reaction| reaction_of(r)),
                        thread_id,
                        message_type: kind_of_message(m.message_type),
                        platform: PlatformId::GoogleChat,
                    },
                ),
            )
        },
        None => (pool, None),
    }
}

/// A message that names no topic of its own, in the topic given.
pub open spec fn in_thread(m: MessageV, thread: Option<TopicId>) -> MessageV {
    if m.thread_id is None {
        MessageV { thread_id: thread, ..m }
    } else {
        m
    }
}

/// The pool and the messages behind the replies of a topic.
pub open spec fn replies_of(
    replies: Seq<proto::Message>,
    space: SpaceId,
    thread: Option<TopicId>,
    pool: Pool,
    out: Seq<MessageV>,
) -> (Pool, Seq<MessageV>)
    decreases replies.len(),
{
    if replies.len() == 0 {
        (pool, out)
    } else {
        let (p, o) = replies_of(replies.drop_last(), space, thread, pool, out);
        let (q, m) = message_of(replies.last(), space, p);
        match m {
            Some(x) => (q, o.push(in_thread(x, thread))),
            None => (q, o),
        }
    }
}

/// The pool and the messages behind a topic.
pub open spec fn topic_messages(t: proto::Topic, space: SpaceId, pool: Pool, out: Seq<MessageV>) -> (
    Pool,
    Seq<MessageV>,
) {
    let (p, thread) = thread_of(pool, topic_text(t.id));
    replies_of(t.replies@, space, thread, p, out)
}

/// The pool and the messages behind a list of topics.
pub open spec fn topics_messages(
    ts: Seq<proto::Topic>,
    space: SpaceId,
    pool: Pool,
    out: Seq<MessageV>,
) -> (Pool, Seq<MessageV>)
    decreases ts.len(),
{
    if ts.len() == 0 {
        (pool, out)
    } else {
        let (p, o) = topics_messages(ts.drop_last(), space, pool, out);
        topic_messages(ts.last(), space, p, o)
    }
}

/// The pool and the messages behind the body of an event: the message posted in
/// it, then the replies of the topic created in it.
pub open spec fn body_messages(
    b: proto::EventBody,
    space: SpaceId,
    pool: Pool,
    out: Seq<MessageV>,
) -> (Pool, Seq<MessageV>) {
    let (p, o) = match b.message_posted {
        Some(e) => match e.message {
            Some(m) => {
                let (q, x) = message_of(m, space, pool);
                match x {
                    Some(v) => (q, out.push(v)),
                    None => (q, out),
                }
            },
            None => (pool, out),
        },
        None => (pool, out),
    };
    match b.topic_created {
        Some(e) => match e.topic {
            Some(t) => topic_messages(t, space, p, o),
            None => (p, o),
        },
        None => (p, o),
    }
}

pub open spec fn bodies_messages(
    bs: Seq<proto::EventBody>,
    space: SpaceId,
    pool: Pool,
    out: Seq<MessageV>,
) -> (Pool, Seq<MessageV>)
    decreases bs.len(),
{
    if bs.len() == 0 {
        (pool, out)
    } else {
        let (p, o) = bodies_messages(bs.drop_last(), space, pool, out);
        body_messages(bs.last(), space, p, o)
    }
}

/// The bodies of an event: the first one apart, then the others.
pub open spec fn all_bodies(e: proto::Event) -> Seq<proto::EventBody> {
    match e.body {
        Some(b) => seq![b] + e.bodies@,
        None => e.bodies@,
    }
}

pub open spec fn events_messages(
    es: Seq<proto::Event>,
    space: SpaceId,
    pool: Pool,
    out: Seq<MessageV>,
) -> (Pool, Seq<MessageV>)
    decreases es.len(),
{
    if es.len() == 0 {
        (pool, out)
    } else {
        let (p, o) = events_messages(es.drop_last(), space, pool, out);
        bodies_messages(all_bodies(es.last()), space, p, o)
    }
}

// ───────────────────────── conversions ─────────────────────────

/// An emoji of the service: one of Unicode, one of its own, or a question mark.
pub fn emoji_from(e: &Option<proto::Emoji>) -> (r: Emoji)
    ensures
        r@ == emoji_of(*e),
{
    match e {
        Some(x) => match &x.unicode {
            Some(u) => Emoji::Unicode(u.clone()),
            None => match &x.custom_emoji {
                Some(c) => Emoji::Custom {
                    id: text_or_empty(&c.uuid),
                    shortcode: text_or_empty(&c.shortcode),
                },
                None => Emoji::Unicode("?".to_owned()),
            },
        },
        None => Emoji::Unicode("?".to_owned()),
    }
}

/// A count of the service, zero where there is none.
pub fn count_from(n: Option<i32>) -> (r: u32)
    ensures
        r == number_or_zero(n),
{
    match n {
        Some(x) => x as u32,
        None => 0,
    }
}

/// A time of the service, the epoch where there is none.
pub fn time_from(n: Option<i64>) -> (r: Timestamp)
    ensures
        r == time_or_zero(n),
{
    match n {
        Some(x) => Timestamp(x as u64),
        None => Timestamp(0),
    }
}

/// An optional time of the service.
pub fn time_opt_from(n: Option<i64>) -> (r: Option<Timestamp>)
    ensures
        r == time_opt(n),
{
    match n {
        Some(x) => Some(Timestamp(x as u64)),
        None => None,
    }
}

/// A mark of the service, not set where there is none.
pub fn flag_from(b: Option<bool>) -> (r: bool)
    ensures
        r == or_false(b),
{
    match b {
        Some(x) => x,
        None => false,
    }
}

/// The sort of a message of the service.
pub fn message_type_from(t: Option<i32>) -> (r: MessageType)
    ensures
        r == kind_of_message(t),
{
    match t {
        Some(n) => if n == 2 {
            MessageType::System
        } else {
            MessageType::User
        },
        None => MessageType::User,
    }
}

fn reactions_from(v: &Vec<proto::Reaction>) -> (r: Vec<Reaction>)
    ensures
        reactions(r@) == v@.map_values(|r: proto::Reaction| reaction_of(r)),
{
    let ghost want = v@.map_values(|r: proto::Reaction| reaction_of(r));
    let mut out: Vec<Reaction> = Vec::new();
    let mut i: usize = 0;
    while i < v.len()
        invariant
            i <= v@.len(),
            want == v@.map_values(|r: proto::Reaction| reaction_of(r)),
            reactions(out@) == want.take(i as int),
        decreases v@.len() - i,
    {
        let ghost done = reactions(out@);
        let x = Reaction {
            emoji: emoji_from(&v[i].emoji),
            count: count_from(v[i].count),
            includes_self: flag_from(v[i].current_user_participated),
        };
        out.push(x);
        proof {
            assert(reactions(out@) =~= done.push(x@));
            assert(want.take(i + 1) =~= want.take(i as int).push(want[i as int]));
        }
        i += 1;
    }
    proof {
        assert(want.take(want.len() as int) =~= want);
    }
    out
}

/// A message of the service as a message of a space.
pub fn proto_message_to_message(
    m: &proto::Message,
    space_id: SpaceId,
    interner: &mut IdInterner,
) -> (r: Option<Message>)
    ensures
        ({
            let (p, v) = message_of(*m, space_id, old(interner)@);
            final(interner)@ == p && match r {
                Some(x) => v == Some(x@),
                None => v is None,
            }
        }),
{
    let name = match message_name(&m.id) {
        Some(s) => s,
        None => return None,
    };
    let id = MessageId(interner.intern(name.as_str()));
    let author = creator_name(&m.creator);
    let sender = intern_sender(interner, &author);
    let topic = message_topic_name(&m.id);
    let thread_id = intern_thread(interner, &topic);
    let annotations: Vec<Annotation> = Vec::new();
    let r = Message {
        id,
        space_id,
        sender,
        timestamp: time_from(m.create_time),
        edit_timestamp: time_opt_from(m.last_edit_time),
        text: text_or_empty(&m.text_body),
        annotations,
        reactions: reactions_from(&m.reactions),
        thread_id,
        message_type: message_type_from(m.message_type),
        platform: PlatformId::GoogleChat,
    };
    proof {
        assert(r@.annotations =~= Seq::empty());
    }
    Some(r)
}

fn add_replies(
    replies: &Vec<proto::Message>,
    space_id: SpaceId,
    thread: Option<TopicId>,
    interner: &mut IdInterner,
    out: &mut Vec<Message>,
)
    ensures
        (final(interner)@, messages(final(out)@)) == replies_of(
            replies@,
            space_id,
            thread,
            old(interner)@,
            messages(old(out)@),
        ),
{
    let ghost p0 = interner@;
    let ghost o0 = messages(out@);
    let mut i: usize = 0;
    while i < replies.len()
        invariant
            i <= replies@.len(),
            (interner@, messages(out@)) == replies_of(
                replies@.take(i as int),
                space_id,
                thread,
                p0,
                o0,
            ),
        decreases replies@.len() - i,
    {
        proof {
            assert(replies@.take(i + 1).drop_last() =~= replies@.take(i as int));
            assert(replies@.take(i + 1).last() == replies@[i as int]);
        }
        let ghost done = messages(out@);
        match proto_message_to_message(&replies[i], space_id, interner) {
            Some(m) => {
                let mut m = m;
                let ghost before = m@;
                if m.thread_id.is_none() {
                    m.thread_id = thread;
                }
                proof {
                    assert(m@ == in_thread(before, thread));
                }
                out.push(m);
                proof {
                    assert(messages(out@) =~= done.push(m@));
                }
            },
            None => {},
        }
        i += 1;
    }
    proof {
        assert(replies@.take(replies@.len() as int) =~= replies@);
    }
}

fn add_topic(
    topic: &proto::Topic,
    space_id: SpaceId,
    interner: &mut IdInterner,
    out: &mut Vec<Message>,
)
    ensures
        (final(interner)@, messages(final(out)@)) == topic_messages(
            *topic,
            space_id,
            old(interner)@,
            messages(old(out)@),
        ),
{
    let thread = match &topic.id {
        Some(t) => intern_thread(interner, &t.topic_id),
        None => None,
    };
    add_replies(&topic.replies, space_id, thread, interner, out);
}

/// Adds the messages in the body of an event.
pub fn extract_messages_from_body(
    body: &proto::EventBody,
    space_id: SpaceId,
    interner: &mut IdInterner,
    out: &mut Vec<Message>,
)
    ensures
        (final(interner)@, messages(final(out)@)) == body_messages(
            *body,
            space_id,
            old(interner)@,
            messages(old(out)@),
        ),
{
    if let Some(e) = &body.message_posted {
        if let Some(m) = &e.message {
            let ghost done = messages(out@);
            if let Some(x) = proto_message_to_message(m, space_id, interner) {
                out.push(x);
                proof {
                    assert(messages(out@) =~= done.push(x@));
                }
            }
        }
    }
    if let Some(e) = &body.topic_created {
        if let Some(t) = &e.topic {
            add_topic(t, space_id, interner, out);
        }
    }
}

/// The messages of a catch-up reply, as a piece of the history of a space.
pub fn history_response_to_event(
    resp: proto::CatchUpResponse,
    space_id: SpaceId,
    interner: &mut IdInterner,
) -> (r: InboundEvent)
    ensures
        ({
            let (p, m) = events_messages(resp.events@, space_id, old(interner)@, Seq::empty());
            final(interner)@ == p && r@ == (EventV::HistoryChunk {
                space_id,
                messages: m,
                has_more: resp.status == Some(2i32),
            })
        }),
{
    let has_more = match resp.status {
        Some(n) => n == 2,
        None => false,
    };
    let mut out: Vec<Message> = Vec::new();
    let ghost p0 = interner@;
    let mut i: usize = 0;
    proof {
        assert(messages(out@) =~= Seq::empty());
    }
    while i < resp.events.len()
        invariant
            i <= resp.events@.len(),
            (interner@, messages(out@)) == events_messages(
                resp.events@.take(i as int),
                space_id,
                p0,
                Seq::empty(),
            ),
        decreases resp.events@.len() - i,
    {
        let e = &resp.events[i];
        proof {
            assert(resp.events@.take(i + 1).drop_last() =~= resp.events@.take(i as int));
            assert(resp.events@.take(i + 1).last() == *e);
        }
        let ghost p1 = interner@;
        let ghost o1 = messages(out@);
        let ghost all = all_bodies(*e);
        let ghost off: int = if e.body is Some {
            1
        } else {
            0
        };
        if let Some(b) = &e.body {
            extract_messages_from_body(b, space_id, interner, &mut out);
            proof {
                assert(all.take(1).drop_last() =~= Seq::empty());
                assert(all.take(1).last() == *b);
                reveal_with_fuel(bodies_messages, 2);
            }
        } else {
            proof {
                assert(all.take(0) =~= Seq::empty());
            }
        }
        let mut k: usize = 0;
        while k < e.bodies.len()
            invariant
                k <= e.bodies@.len(),
                all == all_bodies(*e),
                off == if e.body is Some {
                    1int
                } else {
                    0
                },
                (interner@, messages(out@)) == bodies_messages(
                    all.take(off + k),
                    space_id,
                    p1,
                    o1,
                ),
            decreases e.bodies@.len() - k,
        {
            proof {
                assert(all.take(off + k + 1).drop_last() =~= all.take(off + k));
                assert(all.take(off + k + 1).last() == e.bodies@[k as int]);
            }
            extract_messages_from_body(&e.bodies[k], space_id, interner, &mut out);
            k += 1;
        }
        proof {
            assert(all.take(off + e.bodies@.len()) =~= all);
        }
        i += 1;
    }
    proof {
        assert(resp.events@.take(resp.events@.len() as int) =~= resp.events@);
    }
    InboundEvent::HistoryChunk { space_id, messages: out, has_more }
}

/// The messages of a list of topics, as a piece of the history of a space in a session.
pub fn list_topics_response_to_event(
    resp: proto::ListTopicsResponse,
    space_id: SpaceId,
    session: &mut Session,
) -> (r: InboundEvent)
    ensures
        ({
            let (p, m) = topics_messages(
                resp.topics@,
                space_id,
                old(session).interner@,
                Seq::empty(),
            );
            final(session).interner@ == p && r@ == (EventV::HistoryChunk {
                space_id,
                messages: m,
                has_more: resp.contains_first_topic == Some(false),
            })
        }),
        *final(session) == (Session { interner: final(session).interner, ..*old(session) }),
{
    list_topics_response_to_event_with_interner(resp, space_id, &mut session.interner)
}

/// The messages of a list of topics, as a piece of the history of a space.
pub fn list_topics_response_to_event_with_interner(
    resp: proto::ListTopicsResponse,
    space_id: SpaceId,
    interner: &mut IdInterner,
) -> (r: InboundEvent)
    ensures
        ({
            let (p, m) = topics_messages(resp.topics@, space_id, old(interner)@, Seq::empty());
            final(interner)@ == p && r@ == (EventV::HistoryChunk {
                space_id,
                messages: m,
                has_more: resp.contains_first_topic == Some(false),
            })
        }),
{
    let has_more = match resp.contains_first_topic {
        Some(b) => !b,
        None => false,
    };
    let mut out: Vec<Message> = Vec::new();
    let ghost p0 = interner@;
    let mut i: usize = 0;
    proof {
        assert(messages(out@) =~= Seq::empty());
    }
    while i < resp.topics.len()
        invariant
            i <= resp.topics@.len(),
            (interner@, messages(out@)) == topics_messages(
                resp.topics@.take(i as int),
                space_id,
                p0,
                Seq::empty(),
            ),
        decreases resp.topics@.len() - i,
    {
        proof {
            assert(resp.topics@.take(i + 1).drop_last() =~= resp.topics@.take(i as int));
            assert(resp.topics@.take(i + 1).last() == resp.topics@[i as int]);
        }
        add_topic(&resp.topics[i], space_id, interner, &mut out);
        i += 1;
    }
    proof {
        assert(resp.topics@.take(resp.topics@.len() as int) =~= resp.topics@);
    }
    InboundEvent::HistoryChunk { space_id, messages: out, has_more }
}

// ───────────────────────── spaces ─────────────────────────

/// The name of a space, empty where it has none. A room without a name hides the
/// name of a direct message.
pub open spec fn plain_group_text(g: proto::GroupId) -> Seq<char> {
    match g.space_id {
        Some(s) => or_empty(text_opt(s.space_id)),
        None => match g.dm_id {
            Some(d) => or_empty(text_opt(d.dm_id)),
            None => Seq::empty(),
        },
    }
}

/// The space that a name of the service stands for.
pub fn group_id_to_space_id(gid: &proto::GroupId, interner: &mut IdInterner) -> (r: SpaceId)
    ensures
        r == space_named(old(interner)@, plain_group_text(*gid)),
        final(interner)@ == with(old(interner)@, plain_group_text(*gid)),
{
    let raw = match &gid.space_id {
        Some(s) => text_or_empty(&s.space_id),
        None => match &gid.dm_id {
            Some(d) => text_or_empty(&d.dm_id),
            None => String::new(),
        },
    };
    intern_space(interner, raw.as_str())
}

/// A space of which nothing has been read.
pub open spec fn plain_space(id: SpaceId, name: Seq<char>, kind: SpaceKind, at: Timestamp) -> SpaceV {
    SpaceV {
        id,
        name,
        kind,
        platform: PlatformId::GoogleChat,
        unread_count: 0,
        last_activity: at,
        sort_timestamp: at,
        typing_users: Seq::empty(),
    }
}

/// A space of which nothing has been read.
pub fn new_space(id: SpaceId, name: String, kind: SpaceKind, at: Timestamp) -> (r: Space)
    ensures
        r@ == plain_space(id, name@, kind, at),
{
    let r = Space {
        id,
        name,
        kind,
        platform: PlatformId::GoogleChat,
        unread_count: 0,
        last_activity: at,
        sort_timestamp: at,
        typing_users: Vec::new(),
    };
    proof {
        assert(r@.typing_users =~= Seq::empty());
    }
    r
}

/// The pool behind an item of the world, and the space. An item without a name is
/// none.
pub open spec fn world_space(i: proto::WorldItemLite, pool: Pool) -> (Pool, Option<SpaceV>) {
    match i.group_id {
        Some(g) => (
            with(pool, plain_group_text(g)),
            Some(
                plain_space(
                    space_named(pool, plain_group_text(g)),
                    or_empty(text_opt(i.room_name)),
                    SpaceKind::Room,
                    time_or_zero(i.sort_timestamp),
                ),
            ),
        ),
        None => (pool, None),
    }
}

pub open spec fn world_spaces(items: Seq<proto::WorldItemLite>, pool: Pool) -> (Pool, Seq<SpaceV>)
    decreases items.len(),
{
    if items.len() == 0 {
        (pool, Seq::empty())
    } else {
        let (p, o) = world_spaces(items.drop_last(), pool);
        let (q, s) = world_space(items.last(), p);
        match s {
            Some(x) => (q, o.push(x)),
            None => (q, o),
        }
    }
}

/// The items of the first `n` sections.
pub open spec fn section_items(ss: Seq<proto::WorldSectionResponse>) -> Seq<proto::WorldItemLite>
    decreases ss.len(),
{
    if ss.len() == 0 {
        Seq::empty()
    } else {
        section_items(ss.drop_last()) + ss.last().world_items@
    }
}

/// The items of a reply: those of its sections, then those outside them.
pub open spec fn world_items(r: proto::PaginatedWorldResponse) -> Seq<proto::WorldItemLite> {
    section_items(r.world_section_responses@) + r.world_items@
}

/// The user who is signed in, as far as no reply has told.
pub open spec fn plain_self(pool: Pool, name: Seq<char>) -> UserV {
    UserV {
        id: user_named(pool, name),
        display_name: "Me"@,
        email: None,
        avatar_url: None,
        presence: PresenceStatus::Active,
        is_bot: false,
    }
}

/// The user who is signed in, as far as no reply has told.
pub fn self_user(interner: &mut IdInterner, name: &str) -> (r: User)
    ensures
        r@ == plain_self(old(interner)@, name@),
        final(interner)@ == with(old(interner)@, name@),
{
    User {
        id: intern_user(interner, name),
        display_name: "Me".to_owned(),
        email: None,
        avatar_url: None,
        presence: PresenceStatus::Active,
        is_bot: false,
    }
}

/// The items of a reply, in order.
pub fn items_of(r: &proto::PaginatedWorldResponse) -> (v: Vec<&proto::WorldItemLite>)
    ensures
        v@.map_values(|i: &proto::WorldItemLite| *i) == world_items(*r),
{
    let mut out: Vec<&proto::WorldItemLite> = Vec::new();
    let mut i: usize = 0;
    while i < r.world_section_responses.len()
        invariant
            i <= r.world_section_responses@.len(),
            out@.map_values(|i: &proto::WorldItemLite| *i) == section_items(
                r.world_section_responses@.take(i as int),
            ),
        decreases r.world_section_responses@.len() - i,
    {
        let s = &r.world_section_responses[i];
        let ghost base = section_items(r.world_section_responses@.take(i as int));
        proof {
            assert(r.world_section_responses@.take(i + 1).drop_last()
                =~= r.world_section_responses@.take(i as int));
            assert(r.world_section_responses@.take(i + 1).last() == *s);
            assert(base =~= base + s.world_items@.take(0));
        }
        push_items(&mut out, &s.world_items);
        proof {
            assert(out@.map_values(|i: &proto::WorldItemLite| *i) =~= base + s.world_items@);
        }
        i += 1;
    }
    proof {
        assert(r.world_section_responses@.take(r.world_section_responses@.len() as int)
            =~= r.world_section_responses@);
    }
    push_items(&mut out, &r.world_items);
    out
}

fn push_items<'a>(out: &mut Vec<&'a proto::WorldItemLite>, v: &'a Vec<proto::WorldItemLite>)
    ensures
        final(out)@.map_values(|i: &proto::WorldItemLite| *i) == old(out)@.map_values(
            |i: &proto::WorldItemLite| *i,
        ) + v@,
{
    let ghost base = out@.map_values(|i: &proto::WorldItemLite| *i);
    let mut k: usize = 0;
    proof {
        assert(base =~= base + v@.take(0));
    }
    while k < v.len()
        invariant
            k <= v@.len(),
            out@.map_values(|i: &proto::WorldItemLite| *i) == base + v@.take(k as int),
        decreases v@.len() - k,
    {
        let ghost done = out@.map_values(|i: &proto::WorldItemLite| *i);
        let x = &v[k];
        out.push(x);
        proof {
            assert(out@.map_values(|i: &proto::WorldItemLite| *i) =~= done.push(*x));
            assert(base + v@.take(k + 1) =~= (base + v@.take(k as int)).push(v@[k as int]));
        }
        k += 1;
    }
    proof {
        assert(v@.take(v@.len() as int) =~= v@);
    }
}

/// The spaces of a reply, as the start of a session.
pub fn world_response_to_event(resp: proto::PaginatedWorldResponse, interner: &mut IdInterner) -> (r:
    InboundEvent)
    ensures
        ({
            let (p, s) = world_spaces(world_items(resp), old(interner)@);
            final(interner)@ == with(p, "self"@) && r@ == (EventV::WorldSync {
                platform: PlatformId::GoogleChat,
                spaces: s,
                self_user: plain_self(p, "self"@),
            })
        }),
{
    let items = items_of(&resp);
    let ghost iv = world_items(resp);
    let ghost p0 = interner@;
    let mut out: Vec<Space> = Vec::new();
    let mut i: usize = 0;
    proof {
        assert(spaces(out@) =~= Seq::empty());
    }
    while i < items.len()
        invariant
            i <= items@.len(),
            iv == items@.map_values(|i: &proto::WorldItemLite| *i),
            (interner@, spaces(out@)) == world_spaces(iv.take(i as int), p0),
        decreases items@.len() - i,
    {
        let item = items[i];
        proof {
            assert(iv.take(i + 1).drop_last() =~= iv.take(i as int));
            assert(iv.take(i + 1).last() == *item);
        }
        if let Some(g) = &item.group_id {
            let ghost done = spaces(out@);
            let id = group_id_to_space_id(g, interner);
            let s = new_space(
                id,
                text_or_empty(&item.room_name),
                SpaceKind::Room,
                time_from(item.sort_timestamp),
            );
            out.push(s);
            proof {
                assert(spaces(out@) =~= done.push(s@));
            }
        }
        i += 1;
    }
    proof {
        assert(iv.take(iv.len() as int) =~= iv);
    }
    let me = self_user(interner, "self");
    InboundEvent::WorldSync { platform: PlatformId::GoogleChat, spaces: out, self_user: me }
}

// ───────────────────────── users ─────────────────────────

pub open spec fn member_user(m: proto::Member, pool: Pool) -> (Pool, Option<UserV>) {
    match m.user {
        Some(u) => match user_text(u.user_id) {
            Some(name) => (
                with(pool, name),
                Some(
                    UserV {
                        id: user_named(pool, name),
                        display_name: or_empty(text_opt(u.name)),
                        email: text_opt(u.email),
                        avatar_url: text_opt(u.avatar_url),
                        presence: PresenceStatus::Unknown,
                        is_bot: u.is_bot,
                    },
                ),
            ),
            None => (pool, None),
        },
        None => (pool, None),
    }
}

pub open spec fn member_users(ms: Seq<proto::Member>, pool: Pool) -> (Pool, Seq<UserV>)
    decreases ms.len(),
{
    if ms.len() == 0 {
        (pool, Seq::empty())
    } else {
        let (p, o) = member_users(ms.drop_last(), pool);
        let (q, u) = member_user(ms.last(), p);
        match u {
            Some(x) => (q, o.push(x)),
            None => (q, o),
        }
    }
}

/// The users of a list of members.
pub fn members_response_to_event(resp: proto::GetMembersResponse, interner: &mut IdInterner) -> (r:
    InboundEvent)
    ensures
        ({
            let (p, u) = member_users(resp.members@, old(interner)@);
            final(interner)@ == p && r@ == (EventV::UsersResolved { users: u })
        }),
{
    let ghost p0 = interner@;
    let mut out: Vec<User> = Vec::new();
    let mut i: usize = 0;
    proof {
        assert(users(out@) =~= Seq::empty());
    }
    while i < resp.members.len()
        invariant
            i <= resp.members@.len(),
            (interner@, users(out@)) == member_users(resp.members@.take(i as int), p0),
        decreases resp.members@.len() - i,
    {
        proof {
            assert(resp.members@.take(i + 1).drop_last() =~= resp.members@.take(i as int));
            assert(resp.members@.take(i + 1).last() == resp.members@[i as int]);
        }
        if let Some(u) = &resp.members[i].user {
            if let Some(uid) = &u.user_id {
                if let Some(name) = &uid.id {
                    let ghost done = users(out@);
                    let x = User {
                        id: intern_user(interner, name.as_str()),
                        display_name: text_or_empty(&u.name),
                        email: crate::text::copy_opt(&u.email),
                        avatar_url: crate::text::copy_opt(&u.avatar_url),
                        presence: PresenceStatus::Unknown,
                        is_bot: u.is_bot,
                    };
                    out.push(x);
                    proof {
                        assert(users(out@) =~= done.push(x@));
                    }
                }
            }
        }
        i += 1;
    }
    proof {
        assert(resp.members@.take(resp.members@.len() as int) =~= resp.members@);
    }
    InboundEvent::UsersResolved { users: out }
}

pub open spec fn presence_of(n: Option<i32>) -> PresenceStatus {
    if n == Some(1i32) {
        PresenceStatus::Active
    } else if n == Some(2i32) {
        PresenceStatus::Inactive
    } else {
        PresenceStatus::Unknown
    }
}

pub open spec fn presence_user(u: proto::UserPresence, pool: Pool) -> (Pool, Option<UserV>) {
    match user_text(u.user_id) {
        Some(name) => (
            with(pool, name),
            Some(
                UserV {
                    id: user_named(pool, name),
                    display_name: Seq::empty(),
                    email: None,
                    avatar_url: None,
                    presence: presence_of(u.presence),
                    is_bot: false,
                },
            ),
        ),
        None => (pool, None),
    }
}

pub open spec fn presence_users(us: Seq<proto::UserPresence>, pool: Pool) -> (Pool, Seq<UserV>)
    decreases us.len(),
{
    if us.len() == 0 {
        (pool, Seq::empty())
    } else {
        let (p, o) = presence_users(us.drop_last(), pool);
        let (q, u) = presence_user(us.last(), p);
        match u {
            Some(x) => (q, o.push(x)),
            None => (q, o),
        }
    }
}

/// The users of a list of presences, of whom nothing else is known.
pub fn presence_response_to_event(
    resp: proto::GetUserPresenceResponse,
    interner: &mut IdInterner,
) -> (r: InboundEvent)
    ensures
        ({
            let (p, u) = presence_users(resp.user_presences@, old(interner)@);
            final(interner)@ == p && r@ == (EventV::UsersResolved { users: u })
        }),
{
    let ghost p0 = interner@;
    let mut out: Vec<User> = Vec::new();
    let mut i: usize = 0;
    proof {
        assert(users(out@) =~= Seq::empty());
    }
    while i < resp.user_presences.len()
        invariant
            i <= resp.user_presences@.len(),
            (interner@, users(out@)) == presence_users(resp.user_presences@.take(i as int), p0),
        decreases resp.user_presences@.len() - i,
    {
        let u = &resp.user_presences[i];
        proof {
            assert(resp.user_presences@.take(i + 1).drop_last() =~= resp.user_presences@.take(
                i as int,
            ));
            assert(resp.user_presences@.take(i + 1).last() == *u);
        }
        if let Some(uid) = &u.user_id {
            if let Some(name) = &uid.id {
                let ghost done = users(out@);
                let presence = match u.presence {
                    Some(n) => if n == 1 {
                        PresenceStatus::Active
                    } else if n == 2 {
                        PresenceStatus::Inactive
                    } else {
                        PresenceStatus::Unknown
                    },
                    None => PresenceStatus::Unknown,
                };
                let x = User {
                    id: intern_user(interner, name.as_str()),
                    display_name: String::new(),
                    email: None,
                    avatar_url: None,
                    presence,
                    is_bot: false,
                };
                out.push(x);
                proof {
                    assert(users(out@) =~= done.push(x@));
                }
            }
        }
        i += 1;
    }
    proof {
        assert(resp.user_presences@.take(resp.user_presences@.len() as int)
            =~= resp.user_presences@);
    }
    InboundEvent::UsersResolved { users: out }
}

} // verus!
