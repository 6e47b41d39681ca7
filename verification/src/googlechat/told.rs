//! What the service tells and what is told of it, held against each other field by
//! field: every message comes through, once, in order, with its own text, author,
//! time and place.
//!
//! Names are compared as texts. A number in an event means the text that it stands
//! for among the strings interned, so the statements do not depend on how the
//! numbers are given out.
use vstd::prelude::*;

use crate::event::inbound::EventV;
use crate::googlechat::convert::{
    all_bodies, bodies_messages, body_messages, events_messages, member_user, member_users,
    message_of, presence_user, presence_users, replies_of, section_items, topic_messages,
    topics_messages, world_items, world_spaces,
};
use crate::googlechat::dispatch::{
    after_deleted, after_group, after_membership, after_posted, after_reaction, after_read,
    after_replies, after_status, after_summary, after_topic, after_typing, dispatched,
    dispatched_all, group_space, live_message, plain_reaction, summary_reaction, with_reactions,
    Feed,
};
use crate::googlechat::proto;
use crate::googlechat::raw::{
    creator_text, group_opt_text, message_text, message_topic, sender_of, thread_of, topic_group,
    topic_text,
};
use crate::types::ids::{id_of, string_of, with, InternedId, PlatformId, Pool, SpaceId, TopicId};
use crate::types::message::{EmojiV, MessageType, MessageV, ReactionV};
use crate::types::space::{MemberRole, MembershipState, PresenceStatus, SpaceKind, SpaceV, UserV};
use crate::types::timestamp::Timestamp;

verus! {

broadcast use vstd::string::group_string_axioms;

// ───────────────────────── strings and numbers ─────────────────────────

/// `q` holds the strings of `p` at their places, and perhaps others behind them.
pub open spec fn grown(p: Pool, q: Pool) -> bool {
    p.len() <= q.len() && q.take(p.len() as int) == p
}

/// The number stands for `s`.
pub open spec fn means(pool: Pool, id: InternedId, s: Seq<char>) -> bool {
    string_of(pool, id) == Some(s)
}

/// There are numbers enough for all strings.
pub open spec fn enough(pool: Pool) -> bool {
    pool.len() <= 0x1_0000_0000
}

/// Nothing has to be added for a pool to be grown.
pub proof fn lemma_grown_same(p: Pool)
    ensures
        grown(p, p),
{
    assert(p.take(p.len() as int) =~= p);
}

/// What has grown twice has grown.
pub proof fn lemma_grown_through(p: Pool, q: Pool, r: Pool)
    requires
        grown(p, q),
        grown(q, r),
    ensures
        grown(p, r),
{
    assert(r.take(p.len() as int) =~= r.take(q.len() as int).take(p.len() as int));
}

proof fn lemma_grown_with(p: Pool, s: Seq<char>)
    ensures
        grown(p, with(p, s)),
{
    assert(p.take(p.len() as int) =~= p);
    assert(p.push(s).take(p.len() as int) =~= p);
}

/// What a number stands for stays, whatever is interned later.
pub proof fn lemma_still_means(p: Pool, q: Pool, id: InternedId, s: Seq<char>)
    requires
        grown(p, q),
        means(p, id, s),
    ensures
        means(q, id, s),
{
    assert(q.take(p.len() as int)[id.number() as int] == q[id.number() as int]);
}

proof fn lemma_interned(p: Pool, s: Seq<char>, q: Pool)
    requires
        grown(with(p, s), q),
        enough(q),
    ensures
        means(q, id_of(p, s), s),
{
    crate::types::ids::law_interned_resolves(p, s);
    lemma_still_means(with(p, s), q, id_of(p, s), s);
}

// ───────────────────────── parts of a message ─────────────────────────

/// `s` is the text, empty where there is none.
pub open spec fn reads(t: Option<String>, s: Seq<char>) -> bool {
    match t {
        Some(x) => s == x@,
        None => s.len() == 0,
    }
}

/// `s` names the space: the room, or else the direct message.
pub open spec fn names_space(g: Option<proto::GroupId>, s: Seq<char>) -> bool {
    if g matches Some(x) && x.space_id matches Some(room) && room.space_id is Some {
        s == g->0.space_id->0.space_id->0@
    } else if g matches Some(x) && x.dm_id matches Some(dm) && dm.dm_id is Some {
        s == g->0.dm_id->0.dm_id->0@
    } else {
        s.len() == 0
    }
}

/// The topic that a message belongs to, if it tells.
pub open spec fn home(m: Option<proto::MessageId>) -> Option<proto::TopicId> {
    if m matches Some(x) && x.parent_id is Some {
        m->0.parent_id->0.topic_id
    } else {
        None
    }
}

/// `s` names the space that a message belongs to.
pub open spec fn names_home(m: Option<proto::MessageId>, s: Seq<char>) -> bool {
    match home(m) {
        Some(t) => names_space(t.group_id, s),
        None => s.len() == 0,
    }
}

/// `s` names the message, and is empty where it has no name.
pub open spec fn names_message(m: Option<proto::MessageId>, s: Seq<char>) -> bool {
    match m {
        Some(x) => reads(x.message_id, s),
        None => s.len() == 0,
    }
}

/// `s` names the user, and is empty where the user has no name.
pub open spec fn names_user(u: Option<proto::UserId>, s: Seq<char>) -> bool {
    match u {
        Some(x) => reads(x.id, s),
        None => s.len() == 0,
    }
}

/// The message has a name.
pub open spec fn named(m: proto::Message) -> bool {
    m.id matches Some(i) && i.message_id is Some
}

/// The number means the author of a message, or that there is none.
pub open spec fn wrote(u: Option<proto::User>, id: InternedId, pool: Pool) -> bool {
    if u matches Some(x) && x.user_id matches Some(y) && y.id is Some {
        means(pool, id, u->0.user_id->0.id->0@)
    } else {
        means(pool, id, "unknown"@)
    }
}

/// The point in time that the service counts in microseconds.
pub open spec fn clocked(n: Option<i64>, t: Timestamp) -> bool {
    match n {
        Some(x) => t.0 == x as u64,
        None => t.0 == 0,
    }
}

/// The emoji that is shown for one of the service. One of the service's own is shown
/// where `own` says so, else it comes as a question mark.
pub open spec fn shown(e: Option<proto::Emoji>, own: bool, v: EmojiV) -> bool {
    if e matches Some(x) && x.unicode is Some {
        v == EmojiV::Unicode(e->0.unicode->0@)
    } else if (e matches Some(x) && x.custom_emoji is Some) && own {
        v matches EmojiV::Custom { id, shortcode } && reads(e->0.custom_emoji->0.uuid, id) && reads(
            e->0.custom_emoji->0.shortcode,
            shortcode,
        )
    } else {
        v == EmojiV::Unicode("?"@)
    }
}

/// The reaction has the emoji, the count and the mark.
pub open spec fn counted(
    e: Option<proto::Emoji>,
    own: bool,
    count: Option<i32>,
    mine: Option<bool>,
    v: ReactionV,
) -> bool {
    &&& shown(e, own, v.emoji)
    &&& v.count == if count is Some {
        count->0 as u32
    } else {
        0
    }
    &&& v.includes_self <==> mine == Some(true)
}

/// `v` is the message `m` of the service, in this space: its name, its author, its
/// times, its text, its sort and its reactions. The topic is its own, or else the one
/// that is given.
pub open spec fn carries(
    v: MessageV,
    m: proto::Message,
    space: SpaceId,
    topic: Option<TopicId>,
    own: bool,
    pool: Pool,
) -> bool {
    &&& named(m) && means(pool, v.id.0, m.id->0.message_id->0@)
    &&& v.space_id == space
    &&& v.platform == PlatformId::GoogleChat
    &&& v.sender.platform == PlatformId::GoogleChat
    &&& wrote(m.creator, v.sender.id, pool)
    &&& reads(m.text_body, v.text)
    &&& clocked(m.create_time, v.timestamp)
    &&& match v.edit_timestamp {
        Some(t) => m.last_edit_time is Some && clocked(m.last_edit_time, t),
        None => m.last_edit_time is None,
    }
    &&& v.annotations.len() == 0
    &&& v.message_type == MessageType::System <==> m.message_type == Some(2i32)
    &&& v.reactions.len() == m.reactions@.len()
    &&& forall|i: int|
        0 <= i < v.reactions.len() ==> counted(
            m.reactions@[i].emoji,
            own,
            m.reactions@[i].count,
            m.reactions@[i].current_user_participated,
            #[trigger] v.reactions[i],
        )
    &&& if home(m.id) matches Some(t) && t.topic_id is Some {
        v.thread_id matches Some(t) && means(pool, t.0, home(m.id)->0.topic_id->0@)
    } else {
        v.thread_id == topic
    }
}

proof fn lemma_still_carries(
    v: MessageV,
    m: proto::Message,
    space: SpaceId,
    topic: Option<TopicId>,
    own: bool,
    p: Pool,
    q: Pool,
)
    requires
        carries(v, m, space, topic, own, p),
        grown(p, q),
    ensures
        carries(v, m, space, topic, own, q),
{
    lemma_still_means(p, q, v.id.0, m.id->0.message_id->0@);
    if m.creator matches Some(x) && x.user_id matches Some(y) && y.id is Some {
        lemma_still_means(p, q, v.sender.id, m.creator->0.user_id->0.id->0@);
    } else {
        lemma_still_means(p, q, v.sender.id, "unknown"@);
    }
    if home(m.id) matches Some(t) && t.topic_id is Some {
        lemma_still_means(p, q, (v.thread_id->0).0, home(m.id)->0.topic_id->0@);
    }
}

proof fn lemma_sender(pool: Pool, u: Option<proto::User>, q: Pool)
    requires
        grown(sender_of(pool, creator_text(u)).0, q),
        enough(q),
    ensures
        wrote(u, sender_of(pool, creator_text(u)).1.id, q),
        grown(pool, sender_of(pool, creator_text(u)).0),
        grown(pool, q),
{
    match creator_text(u) {
        Some(s) => {
            lemma_grown_with(pool, s);
            lemma_grown_with(with(pool, s), "unknown"@);
            lemma_grown_through(pool, with(pool, s), with(with(pool, s), "unknown"@));
            lemma_grown_through(with(pool, s), with(with(pool, s), "unknown"@), q);
            lemma_interned(pool, s, q);
        },
        None => {
            lemma_grown_with(pool, "unknown"@);
            lemma_interned(pool, "unknown"@, q);
        },
    }
    lemma_grown_through(pool, sender_of(pool, creator_text(u)).0, q);
}

proof fn lemma_sender_grows(pool: Pool, s: Option<Seq<char>>)
    ensures
        grown(pool, sender_of(pool, s).0),
{
    match s {
        Some(s) => {
            lemma_grown_with(pool, s);
            lemma_grown_with(with(pool, s), "unknown"@);
            lemma_grown_through(pool, with(pool, s), with(with(pool, s), "unknown"@));
        },
        None => lemma_grown_with(pool, "unknown"@),
    }
}

proof fn lemma_thread(pool: Pool, s: Option<Seq<char>>)
    ensures
        grown(pool, thread_of(pool, s).0),
        s is None ==> thread_of(pool, s).1 is None,
        s is Some && enough(thread_of(pool, s).0) ==> thread_of(pool, s).1 is Some && means(
            thread_of(pool, s).0,
            (thread_of(pool, s).1->0).0,
            s->0,
        ),
{
    match s {
        Some(t) => {
            lemma_grown_with(pool, t);
            lemma_grown_same(with(pool, t));
            if enough(with(pool, t)) {
                lemma_interned(pool, t, with(pool, t));
            }
        },
        None => lemma_grown_same(pool),
    }
}

/// A message of the event channel becomes a message of the program if and only if it
/// has a name, and then carries everything over.
pub proof fn law_live_message_carries_over(m: proto::Message, space: SpaceId, pool: Pool)
    ensures
        grown(pool, live_message(m, space, pool).0),
        live_message(m, space, pool).1 is Some <==> named(m),
        enough(live_message(m, space, pool).0) ==> (live_message(m, space, pool).1 matches Some(v)
            ==> carries(v, m, space, None, false, live_message(m, space, pool).0)),
{
    let (q, r) = live_message(m, space, pool);
    let (p1, sender) = sender_of(pool, creator_text(m.creator));
    lemma_sender_grows(pool, creator_text(m.creator));
    match message_text(m.id) {
        Some(name) => {
            let p2 = with(p1, name);
            let topic = topic_text(message_topic(m.id));
            lemma_grown_with(p1, name);
            lemma_thread(p2, topic);
            lemma_grown_through(pool, p1, p2);
            lemma_grown_through(pool, p2, q);
            if enough(q) {
                lemma_interned(p1, name, q);
                lemma_grown_through(p1, p2, q);
                lemma_sender(pool, m.creator, q);
                let v = r->0;
                assert forall|i: int| 0 <= i < v.reactions.len() implies counted(
                    m.reactions@[i].emoji,
                    false,
                    m.reactions@[i].count,
                    m.reactions@[i].current_user_participated,
                    #[trigger] v.reactions[i],
                ) by {
                    assert(v.reactions[i] == plain_reaction(m.reactions@[i]));
                }
            }
        },
        None => {},
    }
}

/// A message of a reply becomes a message of the program if and only if it has a name,
/// and then carries everything over.
pub proof fn law_message_carries_over(m: proto::Message, space: SpaceId, pool: Pool)
    ensures
        grown(pool, message_of(m, space, pool).0),
        message_of(m, space, pool).1 is Some <==> named(m),
        enough(message_of(m, space, pool).0) ==> (message_of(m, space, pool).1 matches Some(v)
            ==> carries(v, m, space, None, true, message_of(m, space, pool).0)),
{
    let (q, r) = message_of(m, space, pool);
    match message_text(m.id) {
        Some(name) => {
            let p1 = with(pool, name);
            let (p2, sender) = sender_of(p1, creator_text(m.creator));
            let topic = topic_text(message_topic(m.id));
            lemma_grown_with(pool, name);
            lemma_sender_grows(p1, creator_text(m.creator));
            lemma_thread(p2, topic);
            lemma_grown_through(p1, p2, q);
            lemma_grown_through(pool, p1, q);
            if enough(q) {
                lemma_interned(pool, name, q);
                lemma_sender(p1, m.creator, q);
                let v = r->0;
                assert forall|i: int| 0 <= i < v.reactions.len() implies counted(
                    m.reactions@[i].emoji,
                    true,
                    m.reactions@[i].count,
                    m.reactions@[i].current_user_participated,
                    #[trigger] v.reactions[i],
                ) by {
                    assert(v.reactions[i] == crate::googlechat::convert::reaction_of(
                        m.reactions@[i],
                    ));
                }
            }
        },
        None => lemma_grown_same(pool),
    }
}

// ───────────────────────── what an event body tells ─────────────────────────

/// The space of the program is the one that the service calls `s`.
pub open spec fn is_space(id: SpaceId, s: Seq<char>, pool: Pool) -> bool {
    id.platform == PlatformId::GoogleChat && means(pool, id.id, s)
}

/// A message that comes with a body: one with a name.
pub open spec fn has_message(b: proto::EventBody) -> bool {
    b.message_posted matches Some(e) && e.message matches Some(m) && named(m)
}

/// The names with which a message comes, as the service writes them.
pub open spec fn raw_names(
    m: proto::Message,
    space: Seq<char>,
    topic: Option<Seq<char>>,
    name: Seq<char>,
) -> bool {
    &&& names_home(m.id, space)
    &&& match topic {
        Some(t) => home(m.id) is Some && home(m.id)->0.topic_id is Some && t
            == home(m.id)->0.topic_id->0@ && t.len() > 0,
        None => home(m.id) matches Some(h) && h.topic_id is Some ==> home(
            m.id,
        )->0.topic_id->0@.len() == 0,
    }
    &&& names_message(m.id, name)
}

/// The body marks its message as edited, or leaves it open and the message was edited
/// after it was written.
pub open spec fn marks_edit(b: proto::EventBody) -> bool {
    let m = b.message_posted->0.message->0;
    b.event_type == Some(7i32) || (b.event_type != Some(6i32) && m.last_edit_time is Some
        && m.create_time is Some && m.last_edit_time->0 > m.create_time->0)
}

/// The event tells of the message in the body: that it was edited where the body marks it
/// so, and else that it was posted.
pub open spec fn tells_message(b: proto::EventBody, e: EventV, pool: Pool) -> bool {
    let m = b.message_posted->0.message->0;
    match e {
        EventV::MessagePosted { message, space_id_raw, topic_id_raw, message_id_raw } => {
            &&& !marks_edit(b)
            &&& raw_names(m, space_id_raw, topic_id_raw, message_id_raw)
            &&& is_space(message.space_id, space_id_raw, pool)
            &&& carries(message, m, message.space_id, None, false, pool)
        },
        EventV::MessageEdited { message, space_id_raw, topic_id_raw, message_id_raw } => {
            &&& marks_edit(b)
            &&& raw_names(m, space_id_raw, topic_id_raw, message_id_raw)
            &&& is_space(message.space_id, space_id_raw, pool)
            &&& carries(message, m, message.space_id, None, false, pool)
        },
        _ => false,
    }
}

/// A user began or ceased to type.
pub open spec fn has_typing(b: proto::EventBody) -> bool {
    b.typing_state_changed_event matches Some(t) && (t.state == Some(1i32) || t.state == Some(2i32))
}

pub open spec fn names_typist(b: proto::EventBody, s: Seq<char>, u: Seq<char>) -> bool {
    let t = b.typing_state_changed_event->0;
    &&& match t.context {
        Some(c) => names_space(c.group_id, s),
        None => s.len() == 0,
    }
    &&& names_user(t.user_id, u)
}

pub open spec fn tells_typing(b: proto::EventBody, e: EventV, pool: Pool) -> bool {
    let t = b.typing_state_changed_event->0;
    match e {
        EventV::TypingStarted { space_id, user_id, timestamp } => {
            &&& t.state == Some(1i32)
            &&& clocked(t.start_timestamp_usec, timestamp)
            &&& user_id.platform == PlatformId::GoogleChat
            &&& exists|s: Seq<char>, u: Seq<char>| #[trigger]
                names_typist(b, s, u) && is_space(space_id, s, pool) && means(pool, user_id.id, u)
        },
        EventV::TypingStopped { space_id, user_id } => {
            &&& t.state == Some(2i32)
            &&& user_id.platform == PlatformId::GoogleChat
            &&& exists|s: Seq<char>, u: Seq<char>| #[trigger]
                names_typist(b, s, u) && is_space(space_id, s, pool) && means(pool, user_id.id, u)
        },
        _ => false,
    }
}

pub open spec fn has_deletion(b: proto::EventBody) -> bool {
    b.message_deleted matches Some(d) && d.message_id is Some
}

/// The message of the program is the one that the service calls so.
pub open spec fn is_message(
    m: Option<proto::MessageId>,
    space: SpaceId,
    id: InternedId,
    s: Seq<char>,
    n: Seq<char>,
    pool: Pool,
) -> bool {
    &&& names_home(m, s)
    &&& names_message(m, n)
    &&& is_space(space, s, pool)
    &&& means(pool, id, n)
}

pub open spec fn tells_deletion(b: proto::EventBody, e: EventV, pool: Pool) -> bool {
    e matches EventV::MessageDeleted { space_id, message_id } && exists|s: Seq<char>, n: Seq<char>|
        #[trigger] is_message(b.message_deleted->0.message_id, space_id, message_id.0, s, n, pool)
}

pub open spec fn has_reaction(b: proto::EventBody) -> bool {
    b.message_reaction matches Some(r) && r.message_id is Some
}

/// The event tells of the one reaction that was put on the message or taken away.
pub open spec fn tells_reaction(b: proto::EventBody, e: EventV, pool: Pool) -> bool {
    let r = b.message_reaction->0;
    e matches EventV::ReactionUpdated { space_id, message_id, reactions } && {
        &&& exists|s: Seq<char>, n: Seq<char>| #[trigger]
            is_message(r.message_id, space_id, message_id.0, s, n, pool)
        &&& reactions.len() == 1
        &&& shown(r.emoji, false, reactions[0].emoji)
        &&& reactions[0].count == if r.option == Some(1i32) {
            1u32
        } else {
            0
        }
        &&& reactions[0].includes_self <==> r.option == Some(1i32)
    }
}

pub open spec fn has_summary(b: proto::EventBody) -> bool {
    b.message_reactions_summary matches Some(r) && r.message_id is Some
}

/// The event tells of all reactions on the message.
pub open spec fn tells_summary(b: proto::EventBody, e: EventV, pool: Pool) -> bool {
    let r = b.message_reactions_summary->0;
    e matches EventV::ReactionUpdated { space_id, message_id, reactions } && {
        &&& exists|s: Seq<char>, n: Seq<char>| #[trigger]
            is_message(r.message_id, space_id, message_id.0, s, n, pool)
        &&& reactions.len() == r.reaction_summary@.len()
        &&& forall|i: int|
            0 <= i < reactions.len() ==> counted(
                r.reaction_summary@[i].emoji,
                false,
                r.reaction_summary@[i].count,
                r.reaction_summary@[i].current_user_reacted,
                #[trigger] reactions[i],
            )
    }
}

pub open spec fn has_read(b: proto::EventBody) -> bool {
    b.group_read_state_updated_event matches Some(e) && e.group_id is Some
}

/// The event tells that the space was read up to a time, and that nothing is unread.
pub open spec fn tells_read(b: proto::EventBody, e: EventV, pool: Pool) -> bool {
    let r = b.group_read_state_updated_event->0;
    e matches EventV::ReadStateUpdated { space_id, last_read, unread_count } && {
        &&& exists|s: Seq<char>| #[trigger] names_space(r.group_id, s) && is_space(space_id, s, pool)
        &&& clocked(r.most_recent_read_time, last_read)
        &&& unread_count == 0
    }
}

/// The name under which a changed space is kept: that of the room, or that of the direct
/// message with a prefix.
pub open spec fn names_group(g: proto::GroupId, s: Seq<char>) -> bool {
    if g.space_id is Some {
        reads(g.space_id->0.space_id, s)
    } else if g.dm_id is Some {
        exists|t: Seq<char>| #[trigger] reads(g.dm_id->0.dm_id, t) && s == "dm/"@ + t
    } else {
        false
    }
}

/// A space was changed that has a name.
pub open spec fn has_group(b: proto::EventBody) -> bool {
    b.group_updated matches Some(e) && e.group matches Some(g) && g.group_id is Some && exists|
        s: Seq<char>,
    | #[trigger]
        names_group(b.group_updated->0.group->0.group_id->0, s) && s.len() > 0 && s != "dm/"@
}

/// The event tells of the space: its name, what it is called, its sort and its time.
pub open spec fn tells_group(b: proto::EventBody, e: EventV, pool: Pool) -> bool {
    let g = b.group_updated->0.group->0;
    e matches EventV::SpaceUpdated { space } && {
        &&& exists|s: Seq<char>| #[trigger]
            names_group(g.group_id->0, s) && is_space(space.id, s, pool) && space.name
                == if g.name is Some {
                g.name->0@
            } else {
                s
            }
        &&& space.kind == if g.group_id->0.space_id is None {
            SpaceKind::DirectMessage
        } else if g.group_type == Some(1i32) || g.is_flat == Some(true) {
            SpaceKind::Room
        } else {
            SpaceKind::ThreadedRoom
        }
        &&& space.platform == PlatformId::GoogleChat
        &&& space.unread_count == 0
        &&& clocked(g.sort_time, space.last_activity)
        &&& clocked(g.sort_time, space.sort_timestamp)
        &&& space.typing_users.len() == 0
    }
}

/// The status of a user changed who has a name.
pub open spec fn has_status(b: proto::EventBody) -> bool {
    b.user_status_updated_event matches Some(e) && e.user_status matches Some(s) && s.user_id
        matches Some(u) && u.id matches Some(n) && n@.len() > 0
}

pub open spec fn tells_status(b: proto::EventBody, e: EventV, pool: Pool) -> bool {
    let s = b.user_status_updated_event->0.user_status->0;
    let state = if s.dnd_settings is Some {
        s.dnd_settings->0.dnd_state
    } else {
        None
    };
    e matches EventV::PresenceChanged { user_id, presence } && {
        &&& user_id.platform == PlatformId::GoogleChat
        &&& means(pool, user_id.id, s.user_id->0.id->0@)
        &&& presence == PresenceStatus::Dnd <==> state == Some(2i32)
        &&& presence == PresenceStatus::Active <==> state == Some(1i32)
        &&& presence != PresenceStatus::Inactive
    }
}

/// `u` names the member, and `s` the space: of the group, or else of the space beside it.
pub open spec fn names_member(i: proto::MembershipId, s: Seq<char>, u: Seq<char>) -> bool {
    &&& match i.member_id {
        Some(m) => names_user(m.user_id, u),
        None => u.len() == 0,
    }
    &&& if i.group_id matches Some(g) && ((g.space_id matches Some(r) && r.space_id is Some) || (
    g.dm_id matches Some(d) && d.dm_id is Some)) {
        names_space(i.group_id, s)
    } else if i.space_id is Some {
        reads(i.space_id->0.space_id, s)
    } else {
        s.len() == 0
    }
}

/// The membership of a user with a name in a space with a name changed.
pub open spec fn has_member(b: proto::EventBody) -> bool {
    b.membership_changed matches Some(e) && e.new_membership matches Some(m) && m.id is Some
        && exists|s: Seq<char>, u: Seq<char>| #[trigger]
        names_member(b.membership_changed->0.new_membership->0.id->0, s, u) && s.len() > 0 && u.len()
            > 0
}

pub open spec fn tells_member(b: proto::EventBody, e: EventV, pool: Pool) -> bool {
    let m = b.membership_changed->0.new_membership->0;
    e matches EventV::MembershipChanged { space_id, user_id, state, role } && {
        &&& user_id.platform == PlatformId::GoogleChat
        &&& exists|s: Seq<char>, u: Seq<char>| #[trigger]
            names_member(m.id->0, s, u) && is_space(space_id, s, pool) && means(pool, user_id.id, u)
        &&& state == MembershipState::Invited <==> m.membership_state == Some(1i32)
        &&& state == MembershipState::Joined <==> m.membership_state == Some(2i32)
        &&& state == MembershipState::Left <==> m.membership_state == Some(3i32)
        &&& role == MemberRole::Invitee <==> m.membership_role == Some(2i32)
        &&& role == MemberRole::Member <==> m.membership_role == Some(3i32)
        &&& role == MemberRole::Owner <==> m.membership_role == Some(4i32)
        &&& role == MemberRole::Manager <==> m.membership_role == Some(6i32)
    }
}

/// The messages with a name that a new topic begins with.
pub open spec fn first_messages(b: proto::EventBody) -> Seq<proto::Message> {
    if b.topic_created matches Some(e) && e.topic is Some {
        b.topic_created->0.topic->0.replies@.filter(|m: proto::Message| named(m))
    } else {
        Seq::empty()
    }
}

/// The event tells that the message was posted, in the space called `space`. Where the
/// message names no space of its own it comes with the name of that space.
pub open spec fn tells_reply(m: proto::Message, space: Seq<char>, e: EventV, pool: Pool) -> bool {
    e matches EventV::MessagePosted { message, space_id_raw, topic_id_raw, message_id_raw } && {
        &&& is_space(message.space_id, space, pool)
        &&& carries(message, m, message.space_id, None, false, pool)
        &&& exists|s: Seq<char>| #[trigger]
            raw_names(m, s, topic_id_raw, message_id_raw) && space_id_raw == if s.len() > 0 {
                s
            } else {
                space
            }
    }
}

/// The event tells of a message of the new topic in the body.
pub open spec fn tells_first(b: proto::EventBody, m: proto::Message, e: EventV, pool: Pool) -> bool {
    let t = b.topic_created->0.topic->0;
    exists|space: Seq<char>| #[trigger]
        tells_reply(m, space, e, pool) && if t.id is Some {
            names_space(t.id->0.group_id, space)
        } else {
            space.len() == 0
        }
}

// ───────────────────────── one step after the other ─────────────────────────

/// Behind a step all strings are still there, and there is one more event where there is
/// something to tell, else none.
spec fn stepped(f: Feed, g: Feed, tells: bool) -> bool {
    &&& grown(f.pool, g.pool)
    &&& if tells {
        g.events.len() == f.events.len() + 1 && g.events.take(f.events.len() as int) == f.events
    } else {
        g.events == f.events
    }
}

proof fn lemma_stepped_none(f: Feed)
    ensures
        stepped(f, f, false),
{
    lemma_grown_same(f.pool);
}

proof fn lemma_stepped_push(f: Feed, p: Pool, e: EventV)
    requires
        grown(f.pool, p),
    ensures
        stepped(f, (Feed { pool: p, events: f.events.push(e) }), true),
{
    assert(f.events.push(e).take(f.events.len() as int) =~= f.events);
}

proof fn lemma_two_names(p: Pool, s: Seq<char>, t: Seq<char>)
    ensures
        grown(p, with(with(p, s), t)),
        enough(with(with(p, s), t)) ==> means(with(with(p, s), t), id_of(p, s), s) && means(
            with(with(p, s), t),
            id_of(with(p, s), t),
            t,
        ),
{
    let q = with(with(p, s), t);
    lemma_grown_with(p, s);
    lemma_grown_with(with(p, s), t);
    lemma_grown_through(p, with(p, s), q);
    lemma_grown_same(q);
    if enough(q) {
        lemma_interned(p, s, q);
        lemma_interned(with(p, s), t, q);
    }
}

/// A name that was interned is what its number stands for.
pub proof fn lemma_one_name(p: Pool, s: Seq<char>)
    ensures
        grown(p, with(p, s)),
        enough(with(p, s)) ==> means(with(p, s), id_of(p, s), s),
{
    lemma_grown_with(p, s);
    lemma_grown_same(with(p, s));
    if enough(with(p, s)) {
        lemma_interned(p, s, with(p, s));
    }
}

proof fn lemma_message_step(b: proto::EventBody, f: Feed)
    ensures
        ({
            let g = after_posted(b, f);
            &&& stepped(f, g, has_message(b))
            &&& has_message(b) && enough(g.pool) ==> tells_message(b, g.events.last(), g.pool)
        }),
{
    let g = after_posted(b, f);
    lemma_stepped_none(f);
    if b.message_posted matches Some(e) && e.message is Some {
        let m = b.message_posted->0.message->0;
        let space = crate::googlechat::dispatch::space_text(m.id);
        let id = crate::googlechat::raw::space_named(f.pool, space);
        let p = with(f.pool, space);
        lemma_one_name(f.pool, space);
        law_live_message_carries_over(m, id, p);
        lemma_grown_through(f.pool, p, g.pool);
        assert(names_home(m.id, space));
        if named(m) {
            assert(g.events.take(f.events.len() as int) =~= f.events);
            if enough(g.pool) {
                lemma_still_means(p, g.pool, id.id, space);
            }
        }
    }
}

proof fn lemma_typing_step(b: proto::EventBody, f: Feed)
    ensures
        ({
            let g = after_typing(b, f);
            &&& stepped(f, g, has_typing(b))
            &&& has_typing(b) && enough(g.pool) ==> tells_typing(b, g.events.last(), g.pool)
        }),
{
    let g = after_typing(b, f);
    lemma_stepped_none(f);
    if b.typing_state_changed_event is Some {
        let t = b.typing_state_changed_event->0;
        let s = crate::text::or_empty(crate::googlechat::dispatch::context_group(t.context));
        let u = crate::text::or_empty(crate::googlechat::raw::user_text(t.user_id));
        lemma_two_names(f.pool, s, u);
        assert(names_typist(b, s, u));
        if has_typing(b) {
            assert(g.events.take(f.events.len() as int) =~= f.events);
        }
    }
}

proof fn lemma_deletion_step(b: proto::EventBody, f: Feed)
    ensures
        ({
            let g = after_deleted(b, f);
            &&& stepped(f, g, has_deletion(b))
            &&& has_deletion(b) && enough(g.pool) ==> tells_deletion(b, g.events.last(), g.pool)
        }),
{
    let g = after_deleted(b, f);
    lemma_stepped_none(f);
    if has_deletion(b) {
        let m = b.message_deleted->0.message_id;
        let s = crate::googlechat::dispatch::space_text(m);
        let n = crate::text::or_empty(message_text(m));
        lemma_two_names(f.pool, s, n);
        lemma_stepped_push(f, g.pool, g.events.last());
        assert(g.events =~= f.events.push(g.events.last()));
        let e = g.events.last();
        if enough(g.pool) {
            assert(is_message(m, e->MessageDeleted_space_id, (e->MessageDeleted_message_id).0, s, n, g.pool));
        }
    }
}

proof fn lemma_reactions_step(m: Option<proto::MessageId>, r: Seq<ReactionV>, f: Feed)
    ensures
        ({
            let g = with_reactions(m, r, f);
            &&& stepped(f, g, true)
            &&& g.events.last() matches EventV::ReactionUpdated { space_id, message_id, reactions }
                && reactions == r && (enough(g.pool) ==> exists|s: Seq<char>, n: Seq<char>| #[trigger]
                is_message(m, space_id, message_id.0, s, n, g.pool))
        }),
{
    let g = with_reactions(m, r, f);
    let s = crate::googlechat::dispatch::space_text(m);
    let n = crate::text::or_empty(message_text(m));
    lemma_two_names(f.pool, s, n);
    lemma_stepped_push(f, g.pool, g.events.last());
    let e = g.events.last();
    if enough(g.pool) {
        assert(is_message(m, e->ReactionUpdated_space_id, (e->ReactionUpdated_message_id).0, s, n, g.pool));
    }
}

proof fn lemma_reaction_step(b: proto::EventBody, f: Feed)
    ensures
        ({
            let g = after_reaction(b, f);
            &&& stepped(f, g, has_reaction(b))
            &&& has_reaction(b) && enough(g.pool) ==> tells_reaction(b, g.events.last(), g.pool)
        }),
{
    lemma_stepped_none(f);
    if has_reaction(b) {
        let g = after_reaction(b, f);
        lemma_reactions_step(
            b.message_reaction->0.message_id,
            g.events.last()->ReactionUpdated_reactions,
            f,
        );
    }
}

proof fn lemma_summary_step(b: proto::EventBody, f: Feed)
    ensures
        ({
            let g = after_summary(b, f);
            &&& stepped(f, g, has_summary(b))
            &&& has_summary(b) && enough(g.pool) ==> tells_summary(b, g.events.last(), g.pool)
        }),
{
    lemma_stepped_none(f);
    if has_summary(b) {
        let g = after_summary(b, f);
        let r = b.message_reactions_summary->0;
        let list = g.events.last()->ReactionUpdated_reactions;
        lemma_reactions_step(r.message_id, list, f);
        assert forall|i: int| 0 <= i < list.len() implies counted(
            r.reaction_summary@[i].emoji,
            false,
            r.reaction_summary@[i].count,
            r.reaction_summary@[i].current_user_reacted,
            #[trigger] list[i],
        ) by {
            assert(list[i] == summary_reaction(r.reaction_summary@[i]));
        }
    }
}

proof fn lemma_read_step(b: proto::EventBody, f: Feed)
    ensures
        ({
            let g = after_read(b, f);
            &&& stepped(f, g, has_read(b))
            &&& has_read(b) && enough(g.pool) ==> tells_read(b, g.events.last(), g.pool)
        }),
{
    lemma_stepped_none(f);
    if has_read(b) {
        let g = after_read(b, f);
        let r = b.group_read_state_updated_event->0;
        let s = crate::text::or_empty(group_opt_text(r.group_id));
        lemma_one_name(f.pool, s);
        lemma_stepped_push(f, g.pool, g.events.last());
        assert(names_space(r.group_id, s));
    }
}

proof fn lemma_group_step(b: proto::EventBody, f: Feed)
    ensures
        ({
            let g = after_group(b, f);
            &&& stepped(f, g, has_group(b))
            &&& has_group(b) && enough(g.pool) ==> tells_group(b, g.events.last(), g.pool)
        }),
{
    lemma_stepped_none(f);
    if b.group_updated matches Some(e) && e.group matches Some(g) && g.group_id is Some {
        let g = b.group_updated->0.group->0;
        let gid = g.group_id->0;
        let h = after_group(b, f);
        if gid.space_id is None && gid.dm_id is Some {
            let t = crate::text::or_empty(crate::text::text_opt(gid.dm_id->0.dm_id));
            assert(reads(gid.dm_id->0.dm_id, t));
            assert(names_group(gid, "dm/"@ + t));
            assert forall|u: Seq<char>| #[trigger] reads(gid.dm_id->0.dm_id, u) implies u == t by {
                assert(u =~= t);
            }
        } else if gid.space_id is Some {
            let t = crate::text::or_empty(crate::text::text_opt(gid.space_id->0.space_id));
            assert(names_group(gid, t));
            assert forall|u: Seq<char>| #[trigger] names_group(gid, u) implies u == t by {
                assert(u =~= t);
            }
        }
        match group_space(g, f.pool) {
            Some((name, space)) => {
                lemma_one_name(f.pool, name);
                lemma_stepped_push(f, h.pool, h.events.last());
                assert(names_group(gid, name));
                assert(has_group(b));
            },
            None => {
                assert(!has_group(b));
            },
        }
    }
}

proof fn lemma_status_step(b: proto::EventBody, f: Feed)
    ensures
        ({
            let g = after_status(b, f);
            &&& stepped(f, g, has_status(b))
            &&& has_status(b) && enough(g.pool) ==> tells_status(b, g.events.last(), g.pool)
        }),
{
    lemma_stepped_none(f);
    if has_status(b) {
        let g = after_status(b, f);
        let s = b.user_status_updated_event->0.user_status->0;
        lemma_one_name(f.pool, s.user_id->0.id->0@);
        lemma_stepped_push(f, g.pool, g.events.last());
    }
}

proof fn lemma_member_step(b: proto::EventBody, f: Feed)
    ensures
        ({
            let g = after_membership(b, f);
            &&& stepped(f, g, has_member(b))
            &&& has_member(b) && enough(g.pool) ==> tells_member(b, g.events.last(), g.pool)
        }),
{
    lemma_stepped_none(f);
    if b.membership_changed matches Some(e) && e.new_membership matches Some(m) && m.id is Some {
        let g = after_membership(b, f);
        let i = b.membership_changed->0.new_membership->0.id->0;
        let u = crate::googlechat::dispatch::member_text(i);
        let s = crate::googlechat::dispatch::member_space_text(i);
        assert(names_member(i, s, u));
        assert forall|t: Seq<char>, v: Seq<char>| #[trigger] names_member(i, t, v) implies t == s && v
            == u by {
            assert(t =~= s);
            assert(v =~= u);
        }
        lemma_two_names(f.pool, s, u);
        if s.len() > 0 && u.len() > 0 {
            lemma_stepped_push(f, g.pool, g.events.last());
            assert(has_member(b));
        } else {
            assert(!has_member(b));
        }
    }
}

/// Behind the messages of a new topic.
proof fn lemma_replies_step(
    replies: Seq<proto::Message>,
    space: Seq<char>,
    id: SpaceId,
    f: Feed,
)
    ensures
        ({
            let g = after_replies(replies, space, id, f);
            let told = replies.filter(|m: proto::Message| named(m));
            &&& grown(f.pool, g.pool)
            &&& g.events.len() == f.events.len() + told.len()
            &&& g.events.take(f.events.len() as int) == f.events
            &&& is_space(id, space, f.pool) && enough(g.pool) ==> forall|i: int|
                0 <= i < told.len() ==> tells_reply(
                    #[trigger] told[i],
                    space,
                    g.events[f.events.len() + i],
                    g.pool,
                )
        }),
    decreases replies.len(),
{
    reveal(Seq::filter);
    let g = after_replies(replies, space, id, f);
    let told = replies.filter(|m: proto::Message| named(m));
    let k = f.events.len() as int;
    if replies.len() == 0 {
        lemma_grown_same(f.pool);
        assert(g.events.take(k) =~= f.events);
    } else {
        let front = replies.drop_last();
        let m = replies.last();
        let h = after_replies(front, space, id, f);
        let before = front.filter(|m: proto::Message| named(m));
        lemma_replies_step(front, space, id, f);
        law_live_message_carries_over(m, id, h.pool);
        lemma_grown_through(f.pool, h.pool, g.pool);
        assert(g.events.take(k) =~= h.events.take(k));
        if is_space(id, space, f.pool) && enough(g.pool) {
            assert forall|i: int| 0 <= i < told.len() implies tells_reply(
                #[trigger] told[i],
                space,
                g.events[k + i],
                g.pool,
            ) by {
                if i < before.len() {
                    assert(told[i] == before[i]);
                    assert(tells_reply(before[i], space, h.events[k + i], h.pool));
                    lemma_reply_stays(before[i], space, h.events[k + i], h.pool, g.pool);
                } else {
                    lemma_still_means(f.pool, g.pool, id.id, space);
                    let s = crate::googlechat::dispatch::space_text(m.id);
                    let e = g.events[k + i];
                    assert(raw_names(
                        m,
                        s,
                        e->MessagePosted_topic_id_raw,
                        e->MessagePosted_message_id_raw,
                    ));
                }
            }
        }
    }
}

proof fn lemma_topic_step(b: proto::EventBody, f: Feed)
    ensures
        ({
            let g = after_topic(b, f);
            let told = first_messages(b);
            &&& grown(f.pool, g.pool)
            &&& g.events.len() == f.events.len() + told.len()
            &&& g.events.take(f.events.len() as int) == f.events
            &&& enough(g.pool) ==> forall|i: int|
                0 <= i < told.len() ==> tells_first(
                    b,
                    #[trigger] told[i],
                    g.events[f.events.len() + i],
                    g.pool,
                )
        }),
{
    let g = after_topic(b, f);
    let told = first_messages(b);
    if b.topic_created matches Some(e) && e.topic is Some {
        let t = b.topic_created->0.topic->0;
        let space = crate::text::or_empty(topic_group(t.id));
        let id = crate::googlechat::raw::space_named(f.pool, space);
        let h = Feed { pool: with(f.pool, space), ..f };
        lemma_one_name(f.pool, space);
        lemma_replies_step(t.replies@, space, id, h);
        lemma_grown_through(f.pool, h.pool, g.pool);
        if enough(g.pool) {
            assert forall|i: int| 0 <= i < told.len() implies tells_first(
                b,
                #[trigger] told[i],
                g.events[f.events.len() + i],
                g.pool,
            ) by {
                assert(tells_reply(told[i], space, g.events[f.events.len() + i], g.pool));
            }
        }
    } else {
        lemma_grown_same(f.pool);
        assert(g.events.take(f.events.len() as int) =~= f.events);
    }
}

proof fn lemma_reply_stays(m: proto::Message, space: Seq<char>, e: EventV, p: Pool, q: Pool)
    requires
        tells_reply(m, space, e, p),
        grown(p, q),
    ensures
        tells_reply(m, space, e, q),
{
    let v = e->MessagePosted_message;
    lemma_still_means(p, q, v.space_id.id, space);
    lemma_still_carries(v, m, v.space_id, None, false, p, q);
}

proof fn lemma_message_id_stays(
    m: Option<proto::MessageId>,
    space: SpaceId,
    id: InternedId,
    p: Pool,
    q: Pool,
)
    requires
        exists|s: Seq<char>, n: Seq<char>| #[trigger] is_message(m, space, id, s, n, p),
        grown(p, q),
    ensures
        exists|s: Seq<char>, n: Seq<char>| #[trigger] is_message(m, space, id, s, n, q),
{
    let (s, n) = choose|s: Seq<char>, n: Seq<char>| #[trigger] is_message(m, space, id, s, n, p);
    lemma_still_means(p, q, space.id, s);
    lemma_still_means(p, q, id, n);
    assert(is_message(m, space, id, s, n, q));
}

/// What was told stays told, whatever is interned later.
proof fn lemma_told_stays(b: proto::EventBody, e: EventV, p: Pool, q: Pool)
    requires
        grown(p, q),
    ensures
        tells_message(b, e, p) ==> tells_message(b, e, q),
        tells_typing(b, e, p) ==> tells_typing(b, e, q),
        tells_deletion(b, e, p) ==> tells_deletion(b, e, q),
        tells_reaction(b, e, p) ==> tells_reaction(b, e, q),
        tells_summary(b, e, p) ==> tells_summary(b, e, q),
{
    if tells_message(b, e, p) {
        let m = b.message_posted->0.message->0;
        match e {
            EventV::MessagePosted { message, space_id_raw, .. } => {
                lemma_still_means(p, q, message.space_id.id, space_id_raw);
                lemma_still_carries(message, m, message.space_id, None, false, p, q);
            },
            EventV::MessageEdited { message, space_id_raw, .. } => {
                lemma_still_means(p, q, message.space_id.id, space_id_raw);
                lemma_still_carries(message, m, message.space_id, None, false, p, q);
            },
            _ => {},
        }
    }
    if tells_typing(b, e, p) {
        match e {
            EventV::TypingStarted { space_id, user_id, .. } => {
                let (s, u) = choose|s: Seq<char>, u: Seq<char>| #[trigger]
                    names_typist(b, s, u) && is_space(space_id, s, p) && means(p, user_id.id, u);
                lemma_still_means(p, q, space_id.id, s);
                lemma_still_means(p, q, user_id.id, u);
            },
            EventV::TypingStopped { space_id, user_id } => {
                let (s, u) = choose|s: Seq<char>, u: Seq<char>| #[trigger]
                    names_typist(b, s, u) && is_space(space_id, s, p) && means(p, user_id.id, u);
                lemma_still_means(p, q, space_id.id, s);
                lemma_still_means(p, q, user_id.id, u);
            },
            _ => {},
        }
    }
    match e {
        EventV::MessageDeleted { space_id, message_id } => if tells_deletion(b, e, p) {
            lemma_message_id_stays(b.message_deleted->0.message_id, space_id, message_id.0, p, q);
        },
        EventV::ReactionUpdated { space_id, message_id, .. } => {
            if tells_reaction(b, e, p) {
                lemma_message_id_stays(
                    b.message_reaction->0.message_id,
                    space_id,
                    message_id.0,
                    p,
                    q,
                );
            }
            if tells_summary(b, e, p) {
                lemma_message_id_stays(
                    b.message_reactions_summary->0.message_id,
                    space_id,
                    message_id.0,
                    p,
                    q,
                );
            }
        },
        _ => {},
    }
}

proof fn lemma_more_told_stays(b: proto::EventBody, e: EventV, p: Pool, q: Pool)
    requires
        grown(p, q),
    ensures
        tells_read(b, e, p) ==> tells_read(b, e, q),
        tells_group(b, e, p) ==> tells_group(b, e, q),
        tells_status(b, e, p) ==> tells_status(b, e, q),
        tells_member(b, e, p) ==> tells_member(b, e, q),
{
    match e {
        EventV::ReadStateUpdated { space_id, .. } => if tells_read(b, e, p) {
            let g = b.group_read_state_updated_event->0.group_id;
            let s = choose|s: Seq<char>| #[trigger] names_space(g, s) && is_space(space_id, s, p);
            lemma_still_means(p, q, space_id.id, s);
        },
        EventV::SpaceUpdated { space } => if tells_group(b, e, p) {
            let g = b.group_updated->0.group->0;
            let s = choose|s: Seq<char>| #[trigger]
                names_group(g.group_id->0, s) && is_space(space.id, s, p) && space.name
                    == if g.name is Some {
                    g.name->0@
                } else {
                    s
                };
            lemma_still_means(p, q, space.id.id, s);
        },
        EventV::PresenceChanged { user_id, .. } => if tells_status(b, e, p) {
            let s = b.user_status_updated_event->0.user_status->0;
            lemma_still_means(p, q, user_id.id, s.user_id->0.id->0@);
        },
        EventV::MembershipChanged { space_id, user_id, .. } => if tells_member(b, e, p) {
            let i = b.membership_changed->0.new_membership->0.id->0;
            let (s, u) = choose|s: Seq<char>, u: Seq<char>| #[trigger]
                names_member(i, s, u) && is_space(space_id, s, p) && means(p, user_id.id, u);
            lemma_still_means(p, q, space_id.id, s);
            lemma_still_means(p, q, user_id.id, u);
        },
        _ => {},
    }
}

/// One where the answer is yes.
pub open spec fn one(b: bool) -> int {
    if b {
        1
    } else {
        0
    }
}

proof fn lemma_first_steps(b: proto::EventBody, f: Feed)
    ensures
        ({
            let g = after_summary(
                b,
                after_reaction(b, after_deleted(b, after_typing(b, after_posted(b, f)))),
            );
            let k0 = f.events.len() as int;
            let k1 = k0 + one(has_message(b));
            let k2 = k1 + one(has_typing(b));
            let k3 = k2 + one(has_deletion(b));
            let k4 = k3 + one(has_reaction(b));
            let k5 = k4 + one(has_summary(b));
            &&& grown(f.pool, g.pool)
            &&& g.events.len() == k5
            &&& g.events.take(k0) == f.events
            &&& enough(g.pool) ==> {
                &&& has_message(b) ==> tells_message(b, g.events[k0], g.pool)
                &&& has_typing(b) ==> tells_typing(b, g.events[k1], g.pool)
                &&& has_deletion(b) ==> tells_deletion(b, g.events[k2], g.pool)
                &&& has_reaction(b) ==> tells_reaction(b, g.events[k3], g.pool)
                &&& has_summary(b) ==> tells_summary(b, g.events[k4], g.pool)
            }
        }),
{
    let f1 = after_posted(b, f);
    let f2 = after_typing(b, f1);
    let f3 = after_deleted(b, f2);
    let f4 = after_reaction(b, f3);
    let g = after_summary(b, f4);
    let k0 = f.events.len() as int;
    let k1 = f1.events.len() as int;
    let k2 = f2.events.len() as int;
    let k3 = f3.events.len() as int;
    let k4 = f4.events.len() as int;
    lemma_message_step(b, f);
    lemma_typing_step(b, f1);
    lemma_deletion_step(b, f2);
    lemma_reaction_step(b, f3);
    lemma_summary_step(b, f4);
    lemma_grown_through(f3.pool, f4.pool, g.pool);
    lemma_grown_through(f2.pool, f3.pool, g.pool);
    lemma_grown_through(f1.pool, f2.pool, g.pool);
    lemma_grown_through(f.pool, f1.pool, g.pool);
    assert(g.events.take(k4) =~= f4.events);
    assert(g.events.take(k3) =~= f4.events.take(k3));
    assert(f4.events.take(k3) =~= f3.events);
    assert(g.events.take(k2) =~= g.events.take(k3).take(k2));
    assert(f3.events.take(k2) =~= f2.events);
    assert(g.events.take(k1) =~= g.events.take(k2).take(k1));
    assert(f2.events.take(k1) =~= f1.events);
    assert(g.events.take(k0) =~= g.events.take(k1).take(k0));
    assert(f1.events.take(k0) =~= f.events);
    if enough(g.pool) {
        if has_message(b) {
            assert(g.events.take(k1)[k0] == g.events[k0]);
            lemma_told_stays(b, g.events[k0], f1.pool, g.pool);
        }
        if has_typing(b) {
            assert(g.events.take(k2)[k1] == g.events[k1]);
            lemma_told_stays(b, g.events[k1], f2.pool, g.pool);
        }
        if has_deletion(b) {
            assert(g.events.take(k3)[k2] == g.events[k2]);
            lemma_told_stays(b, g.events[k2], f3.pool, g.pool);
        }
        if has_reaction(b) {
            assert(g.events.take(k4)[k3] == g.events[k3]);
            lemma_told_stays(b, g.events[k3], f4.pool, g.pool);
        }
    }
}

proof fn lemma_last_steps(b: proto::EventBody, f: Feed)
    ensures
        ({
            let g = after_topic(
                b,
                after_membership(b, after_status(b, after_group(b, after_read(b, f)))),
            );
            let k0 = f.events.len() as int;
            let k1 = k0 + one(has_read(b));
            let k2 = k1 + one(has_group(b));
            let k3 = k2 + one(has_status(b));
            let k4 = k3 + one(has_member(b));
            let first = first_messages(b);
            &&& grown(f.pool, g.pool)
            &&& g.events.len() == k4 + first.len()
            &&& g.events.take(k0) == f.events
            &&& enough(g.pool) ==> {
                &&& has_read(b) ==> tells_read(b, g.events[k0], g.pool)
                &&& has_group(b) ==> tells_group(b, g.events[k1], g.pool)
                &&& has_status(b) ==> tells_status(b, g.events[k2], g.pool)
                &&& has_member(b) ==> tells_member(b, g.events[k3], g.pool)
                &&& forall|i: int|
                    0 <= i < first.len() ==> tells_first(
                        b,
                        #[trigger] first[i],
                        g.events[k4 + i],
                        g.pool,
                    )
            }
        }),
{
    let f1 = after_read(b, f);
    let f2 = after_group(b, f1);
    let f3 = after_status(b, f2);
    let f4 = after_membership(b, f3);
    let g = after_topic(b, f4);
    let k0 = f.events.len() as int;
    let k1 = f1.events.len() as int;
    let k2 = f2.events.len() as int;
    let k3 = f3.events.len() as int;
    let k4 = f4.events.len() as int;
    lemma_read_step(b, f);
    lemma_group_step(b, f1);
    lemma_status_step(b, f2);
    lemma_member_step(b, f3);
    lemma_topic_step(b, f4);
    lemma_grown_through(f3.pool, f4.pool, g.pool);
    lemma_grown_through(f2.pool, f3.pool, g.pool);
    lemma_grown_through(f1.pool, f2.pool, g.pool);
    lemma_grown_through(f.pool, f1.pool, g.pool);
    assert(g.events.take(k4) =~= f4.events);
    assert(g.events.take(k3) =~= f4.events.take(k3));
    assert(f4.events.take(k3) =~= f3.events);
    assert(g.events.take(k2) =~= g.events.take(k3).take(k2));
    assert(f3.events.take(k2) =~= f2.events);
    assert(g.events.take(k1) =~= g.events.take(k2).take(k1));
    assert(f2.events.take(k1) =~= f1.events);
    assert(g.events.take(k0) =~= g.events.take(k1).take(k0));
    assert(f1.events.take(k0) =~= f.events);
    if enough(g.pool) {
        if has_read(b) {
            assert(g.events.take(k1)[k0] == g.events[k0]);
            lemma_more_told_stays(b, g.events[k0], f1.pool, g.pool);
        }
        if has_group(b) {
            assert(g.events.take(k2)[k1] == g.events[k1]);
            lemma_more_told_stays(b, g.events[k1], f2.pool, g.pool);
        }
        if has_status(b) {
            assert(g.events.take(k3)[k2] == g.events[k2]);
            lemma_more_told_stays(b, g.events[k2], f3.pool, g.pool);
        }
        if has_member(b) {
            assert(g.events.take(k4)[k3] == g.events[k3]);
            lemma_more_told_stays(b, g.events[k3], f4.pool, g.pool);
        }
    }
}

/// Everything that the body of an event holds is told, each thing by one event that says
/// what the service said, and nothing else is told. The message comes first, then who is
/// typing, the message deleted, the reactions, the space read, the space changed, the user,
/// the member, and last the messages of a new topic in their order.
pub proof fn law_a_body_is_told(b: proto::EventBody, f: Feed)
    requires
        enough(dispatched(b, f).pool),
    ensures
        ({
            let g = dispatched(b, f);
            let k0 = f.events.len() as int;
            let k1 = k0 + one(has_message(b));
            let k2 = k1 + one(has_typing(b));
            let k3 = k2 + one(has_deletion(b));
            let k4 = k3 + one(has_reaction(b));
            let k5 = k4 + one(has_summary(b));
            let k6 = k5 + one(has_read(b));
            let k7 = k6 + one(has_group(b));
            let k8 = k7 + one(has_status(b));
            let k9 = k8 + one(has_member(b));
            let first = first_messages(b);
            &&& g.events.len() == k9 + first.len()
            &&& g.events.take(k0) == f.events
            &&& has_message(b) ==> tells_message(b, g.events[k0], g.pool)
            &&& has_typing(b) ==> tells_typing(b, g.events[k1], g.pool)
            &&& has_deletion(b) ==> tells_deletion(b, g.events[k2], g.pool)
            &&& has_reaction(b) ==> tells_reaction(b, g.events[k3], g.pool)
            &&& has_summary(b) ==> tells_summary(b, g.events[k4], g.pool)
            &&& has_read(b) ==> tells_read(b, g.events[k5], g.pool)
            &&& has_group(b) ==> tells_group(b, g.events[k6], g.pool)
            &&& has_status(b) ==> tells_status(b, g.events[k7], g.pool)
            &&& has_member(b) ==> tells_member(b, g.events[k8], g.pool)
            &&& forall|i: int|
                0 <= i < first.len() ==> tells_first(
                    b,
                    #[trigger] first[i],
                    g.events[k9 + i],
                    g.pool,
                )
        }),
{
    let h = after_summary(
        b,
        after_reaction(b, after_deleted(b, after_typing(b, after_posted(b, f)))),
    );
    let g = dispatched(b, f);
    let k0 = f.events.len() as int;
    let k5 = h.events.len() as int;
    lemma_first_steps(b, f);
    lemma_last_steps(b, h);
    assert(g.events.take(k0) =~= g.events.take(k5).take(k0));
    assert forall|k: int| 0 <= k < k5 implies #[trigger] g.events[k] == h.events[k] by {
        assert(g.events.take(k5)[k] == g.events[k]);
    }
    assert forall|k: int| 0 <= k < k5 && grown(h.pool, g.pool) implies (tells_message(
        b,
        #[trigger] h.events[k],
        h.pool,
    ) ==> tells_message(b, h.events[k], g.pool)) && (tells_typing(b, h.events[k], h.pool)
        ==> tells_typing(b, h.events[k], g.pool)) && (tells_deletion(b, h.events[k], h.pool)
        ==> tells_deletion(b, h.events[k], g.pool)) && (tells_reaction(b, h.events[k], h.pool)
        ==> tells_reaction(b, h.events[k], g.pool)) && (tells_summary(b, h.events[k], h.pool)
        ==> tells_summary(b, h.events[k], g.pool)) by {
        lemma_told_stays(b, h.events[k], h.pool, g.pool);
    }
}

/// The bodies of an event are all told, the one that stands apart first and the others in
/// their order, each behind what was told before it.
pub proof fn law_bodies_are_told_in_order(e: proto::Event, f: Feed)
    ensures
        e.body is Some ==> dispatched_all(all_bodies(e), f) == dispatched_all(
            e.bodies@,
            dispatched(e.body->0, f),
        ),
        e.body is None ==> all_bodies(e) == e.bodies@,
        forall|a: Seq<proto::EventBody>, b: proto::EventBody|
            #[trigger] dispatched_all(a.push(b), f) == dispatched(b, dispatched_all(a, f)),
        dispatched_all(Seq::empty(), f) == f,
{
    assert forall|a: Seq<proto::EventBody>, b: proto::EventBody| #[trigger]
        dispatched_all(a.push(b), f) == dispatched(b, dispatched_all(a, f)) by {
        assert(a.push(b).drop_last() =~= a);
    }
    if e.body is Some {
        lemma_dispatched_behind(seq![e.body->0], e.bodies@, f);
        assert(seq![e.body->0].drop_last() =~= Seq::<proto::EventBody>::empty());
        reveal_with_fuel(dispatched_all, 2);
    }
}

proof fn lemma_dispatched_behind(a: Seq<proto::EventBody>, b: Seq<proto::EventBody>, f: Feed)
    ensures
        dispatched_all(a + b, f) == dispatched_all(b, dispatched_all(a, f)),
    decreases b.len(),
{
    if b.len() == 0 {
        assert(a + b =~= a);
    } else {
        assert((a + b).drop_last() =~= a + b.drop_last());
        lemma_dispatched_behind(a, b.drop_last(), f);
    }
}

// ───────────────────────── history ─────────────────────────

/// The topic of the program is the one that the service names, if it names one.
pub open spec fn is_topic(t: Option<proto::TopicId>, thread: Option<TopicId>, pool: Pool) -> bool {
    if t matches Some(x) && x.topic_id is Some {
        thread is Some && means(pool, (thread->0).0, t->0.topic_id->0@)
    } else {
        thread is None
    }
}

/// `v` is the message `m` of the topic `t`.
pub open spec fn carries_in(
    v: MessageV,
    m: proto::Message,
    t: Option<proto::TopicId>,
    space: SpaceId,
    pool: Pool,
) -> bool {
    exists|thread: Option<TopicId>| #[trigger]
        is_topic(t, thread, pool) && carries(v, m, space, thread, true, pool)
}

/// The messages of a topic that have a name.
pub open spec fn replies_in(t: proto::Topic) -> Seq<proto::Message> {
    t.replies@.filter(|m: proto::Message| named(m))
}

/// `o` holds `out`, and behind it one message for each of `ms`, in their order.
pub open spec fn adds_replies(
    out: Seq<MessageV>,
    o: Seq<MessageV>,
    ms: Seq<proto::Message>,
    t: Option<proto::TopicId>,
    space: SpaceId,
    pool: Pool,
) -> bool {
    &&& o.len() == out.len() + ms.len()
    &&& o.take(out.len() as int) == out
    &&& forall|i: int|
        0 <= i < ms.len() ==> carries_in(o[out.len() + i], #[trigger] ms[i], t, space, pool)
}

proof fn lemma_carries_in_stays(
    v: MessageV,
    m: proto::Message,
    t: Option<proto::TopicId>,
    space: SpaceId,
    p: Pool,
    q: Pool,
)
    requires
        carries_in(v, m, t, space, p),
        grown(p, q),
    ensures
        carries_in(v, m, t, space, q),
{
    let thread = choose|thread: Option<TopicId>| #[trigger]
        is_topic(t, thread, p) && carries(v, m, space, thread, true, p);
    lemma_still_carries(v, m, space, thread, true, p, q);
    if t matches Some(x) && x.topic_id is Some {
        lemma_still_means(p, q, (thread->0).0, t->0.topic_id->0@);
    }
    assert(is_topic(t, thread, q));
}

proof fn lemma_replies(
    replies: Seq<proto::Message>,
    t: Option<proto::TopicId>,
    space: SpaceId,
    thread: Option<TopicId>,
    pool: Pool,
    out: Seq<MessageV>,
)
    ensures
        ({
            let (q, o) = replies_of(replies, space, thread, pool, out);
            let ms = replies.filter(|m: proto::Message| named(m));
            &&& grown(pool, q)
            &&& o.len() == out.len() + ms.len()
            &&& o.take(out.len() as int) == out
            &&& enough(q) && is_topic(t, thread, pool) ==> adds_replies(out, o, ms, t, space, q)
        }),
    decreases replies.len(),
{
    reveal(Seq::filter);
    let (q, o) = replies_of(replies, space, thread, pool, out);
    let ms = replies.filter(|m: proto::Message| named(m));
    let k = out.len() as int;
    if replies.len() == 0 {
        lemma_grown_same(pool);
        assert(o.take(k) =~= out);
    } else {
        let front = replies.drop_last();
        let m = replies.last();
        let (p, before) = replies_of(front, space, thread, pool, out);
        let had = front.filter(|m: proto::Message| named(m));
        lemma_replies(front, t, space, thread, pool, out);
        law_message_carries_over(m, space, p);
        lemma_grown_through(pool, p, q);
        assert(o.take(k) =~= before.take(k));
        if enough(q) && is_topic(t, thread, pool) {
            assert forall|i: int| 0 <= i < ms.len() implies carries_in(
                o[k + i],
                #[trigger] ms[i],
                t,
                space,
                q,
            ) by {
                if i < had.len() {
                    assert(ms[i] == had[i]);
                    assert(o[k + i] == before[k + i]);
                    lemma_carries_in_stays(before[k + i], had[i], t, space, p, q);
                } else {
                    if t matches Some(x) && x.topic_id is Some {
                        lemma_still_means(pool, q, (thread->0).0, t->0.topic_id->0@);
                    }
                    assert(is_topic(t, thread, q));
                    assert(carries(o[k + i], m, space, thread, true, q));
                }
            }
        }
    }
}

/// A topic of the history gives one message for each of its messages with a name, in their
/// order, behind what is there.
pub proof fn law_a_topic_is_kept(t: proto::Topic, space: SpaceId, pool: Pool, out: Seq<MessageV>)
    ensures
        ({
            let (q, o) = topic_messages(t, space, pool, out);
            &&& grown(pool, q)
            &&& o.len() == out.len() + replies_in(t).len()
            &&& o.take(out.len() as int) == out
            &&& enough(q) ==> adds_replies(out, o, replies_in(t), t.id, space, q)
        }),
{
    let (q, o) = topic_messages(t, space, pool, out);
    let (p, thread) = thread_of(pool, topic_text(t.id));
    lemma_thread(pool, topic_text(t.id));
    lemma_replies(t.replies@, t.id, space, thread, p, out);
    lemma_grown_through(pool, p, q);
    if enough(q) {
        assert(is_topic(t.id, thread, p));
    }
}

/// The number of messages with a name in a list of topics.
pub open spec fn count_in(ts: Seq<proto::Topic>) -> nat
    decreases ts.len(),
{
    if ts.len() == 0 {
        0
    } else {
        replies_in(ts[0]).len() + count_in(ts.skip(1))
    }
}

proof fn lemma_count_push(ts: Seq<proto::Topic>, t: proto::Topic)
    ensures
        count_in(ts.push(t)) == count_in(ts) + replies_in(t).len(),
    decreases ts.len(),
{
    if ts.len() == 0 {
        assert(ts.push(t).skip(1) =~= Seq::<proto::Topic>::empty());
        reveal_with_fuel(count_in, 2);
    } else {
        assert(ts.push(t).skip(1) =~= ts.skip(1).push(t));
        lemma_count_push(ts.skip(1), t);
    }
}

proof fn lemma_topics(ts: Seq<proto::Topic>, space: SpaceId, pool: Pool, out: Seq<MessageV>)
    ensures
        ({
            let (q, o) = topics_messages(ts, space, pool, out);
            &&& grown(pool, q)
            &&& o.len() == out.len() + count_in(ts)
            &&& o.take(out.len() as int) == out
            &&& enough(q) ==> forall|j: int, i: int|
                0 <= j < ts.len() && 0 <= i < replies_in(ts[j]).len() ==> carries_in(
                    o[out.len() + count_in(ts.take(j)) + i],
                    #[trigger] replies_in(ts[j])[i],
                    ts[j].id,
                    space,
                    q,
                )
        }),
    decreases ts.len(),
{
    let (q, o) = topics_messages(ts, space, pool, out);
    let k = out.len() as int;
    if ts.len() == 0 {
        lemma_grown_same(pool);
        assert(o.take(k) =~= out);
    } else {
        let front = ts.drop_last();
        let n = front.len() as int;
        let (p, before) = topics_messages(front, space, pool, out);
        lemma_topics(front, space, pool, out);
        law_a_topic_is_kept(ts.last(), space, p, before);
        lemma_grown_through(pool, p, q);
        lemma_count_push(front, ts.last());
        assert(front.push(ts.last()) =~= ts);
        assert(o.take(k) =~= o.take(before.len() as int).take(k));
        if enough(q) {
            assert forall|j: int, i: int|
                0 <= j < ts.len() && 0 <= i < replies_in(ts[j]).len() implies carries_in(
                o[k + count_in(ts.take(j)) + i],
                #[trigger] replies_in(ts[j])[i],
                ts[j].id,
                space,
                q,
            ) by {
                if j < n {
                    let at = k + count_in(ts.take(j)) + i;
                    assert(front[j] == ts[j]);
                    assert(front.take(j) =~= ts.take(j));
                    lemma_count_push(ts.take(j), ts[j]);
                    assert(ts.take(j).push(ts[j]) =~= ts.take(j + 1));
                    lemma_count_grows(front, j + 1);
                    assert(front.take(j + 1) =~= ts.take(j + 1));
                    assert(o.take(before.len() as int)[at] == o[at]);
                    lemma_carries_in_stays(before[at], replies_in(ts[j])[i], ts[j].id, space, p, q);
                } else {
                    assert(ts.take(j) =~= front);
                }
            }
        }
    }
}

proof fn lemma_count_grows(ts: Seq<proto::Topic>, j: int)
    requires
        0 <= j <= ts.len(),
    ensures
        count_in(ts.take(j)) <= count_in(ts),
    decreases ts.len() - j,
{
    if j == ts.len() {
        assert(ts.take(j) =~= ts);
    } else {
        lemma_count_push(ts.take(j), ts[j]);
        assert(ts.take(j).push(ts[j]) =~= ts.take(j + 1));
        lemma_count_grows(ts, j + 1);
    }
}

/// The history of a space holds every message with a name of every topic, the topics in
/// their order and the messages of each in theirs, and nothing else.
pub proof fn law_history_is_whole(ts: Seq<proto::Topic>, space: SpaceId, pool: Pool)
    requires
        enough(topics_messages(ts, space, pool, Seq::empty()).0),
    ensures
        ({
            let (q, o) = topics_messages(ts, space, pool, Seq::empty());
            &&& o.len() == count_in(ts)
            &&& forall|j: int, i: int|
                0 <= j < ts.len() && 0 <= i < replies_in(ts[j]).len() ==> carries_in(
                    o[count_in(ts.take(j)) + i],
                    #[trigger] replies_in(ts[j])[i],
                    ts[j].id,
                    space,
                    q,
                )
        }),
{
    lemma_topics(ts, space, pool, Seq::empty());
}

/// The messages in two lists of topics are those in the first and behind them those in the
/// second.
pub proof fn law_history_goes_on(
    a: Seq<proto::Topic>,
    b: Seq<proto::Topic>,
    space: SpaceId,
    pool: Pool,
    out: Seq<MessageV>,
)
    ensures
        topics_messages(a + b, space, pool, out) == ({
            let (p, o) = topics_messages(a, space, pool, out);
            topics_messages(b, space, p, o)
        }),
        topics_messages(Seq::empty(), space, pool, out) == (pool, out),
    decreases b.len(),
{
    if b.len() == 0 {
        assert(a + b =~= a);
    } else {
        assert((a + b).drop_last() =~= a + b.drop_last());
        law_history_goes_on(a, b.drop_last(), space, pool, out);
    }
}

/// What happened while the program was away gives the message in each body, if it has a
/// name, and then the messages of the new topic in it, behind what is there.
pub proof fn law_a_missed_body_is_kept(
    b: proto::EventBody,
    space: SpaceId,
    pool: Pool,
    out: Seq<MessageV>,
)
    requires
        enough(body_messages(b, space, pool, out).0),
    ensures
        ({
            let (q, o) = body_messages(b, space, pool, out);
            let k = out.len() + one(has_message(b));
            &&& o.len() == k + first_messages(b).len()
            &&& o.take(out.len() as int) == out
            &&& has_message(b) ==> carries(
                o[out.len() as int],
                b.message_posted->0.message->0,
                space,
                None,
                true,
                q,
            )
            &&& forall|i: int|
                0 <= i < first_messages(b).len() ==> carries_in(
                    o[k + i],
                    #[trigger] first_messages(b)[i],
                    b.topic_created->0.topic->0.id,
                    space,
                    q,
                )
        }),
{
    let (q, o) = body_messages(b, space, pool, out);
    let n = out.len() as int;
    let (p, mid) = if b.message_posted matches Some(e) && e.message is Some {
        let m = b.message_posted->0.message->0;
        law_message_carries_over(m, space, pool);
        let (p, x) = message_of(m, space, pool);
        (
            p,
            if x is Some {
                out.push(x->0)
            } else {
                out
            },
        )
    } else {
        (pool, out)
    };
    assert(mid.take(n) =~= out);
    if b.topic_created matches Some(e) && e.topic is Some {
        let t = b.topic_created->0.topic->0;
        law_a_topic_is_kept(t, space, p, mid);
        assert(o.take(n) =~= o.take(mid.len() as int).take(n));
        if has_message(b) {
            assert(o.take(mid.len() as int)[n] == o[n]);
            lemma_still_carries(
                o[n],
                b.message_posted->0.message->0,
                space,
                None,
                true,
                p,
                q,
            );
        }
        assert forall|i: int| 0 <= i < first_messages(b).len() implies carries_in(
            o[mid.len() + i],
            #[trigger] first_messages(b)[i],
            t.id,
            space,
            q,
        ) by {
            assert(first_messages(b)[i] == replies_in(t)[i]);
        }
    } else {
        assert(q == p && o == mid);
    }
}

/// All events and all their bodies are gone through in order, each behind what came before
/// it.
pub proof fn law_missed_events_are_kept_in_order(space: SpaceId, pool: Pool, out: Seq<MessageV>)
    ensures
        forall|es: Seq<proto::Event>, e: proto::Event| #[trigger]
            events_messages(es.push(e), space, pool, out) == ({
                let (p, o) = events_messages(es, space, pool, out);
                bodies_messages(all_bodies(e), space, p, o)
            }),
        forall|bs: Seq<proto::EventBody>, b: proto::EventBody| #[trigger]
            bodies_messages(bs.push(b), space, pool, out) == ({
                let (p, o) = bodies_messages(bs, space, pool, out);
                body_messages(b, space, p, o)
            }),
        events_messages(Seq::empty(), space, pool, out) == (pool, out),
        bodies_messages(Seq::empty(), space, pool, out) == (pool, out),
        forall|e: proto::Event| #![trigger all_bodies(e)]
            all_bodies(e) == if e.body is Some {
                seq![e.body->0] + e.bodies@
            } else {
                e.bodies@
            },
{
    assert forall|es: Seq<proto::Event>, e: proto::Event| #[trigger]
        events_messages(es.push(e), space, pool, out) == ({
            let (p, o) = events_messages(es, space, pool, out);
            bodies_messages(all_bodies(e), space, p, o)
        }) by {
        assert(es.push(e).drop_last() =~= es);
    }
    assert forall|bs: Seq<proto::EventBody>, b: proto::EventBody| #[trigger]
        bodies_messages(bs.push(b), space, pool, out) == ({
            let (p, o) = bodies_messages(bs, space, pool, out);
            body_messages(b, space, p, o)
        }) by {
        assert(bs.push(b).drop_last() =~= bs);
    }
}

// ───────────────────────── spaces and users of replies ─────────────────────────

/// `s` names the space of an item: the room where there is one, else the direct message.
pub open spec fn names_item(g: proto::GroupId, s: Seq<char>) -> bool {
    if g.space_id is Some {
        reads(g.space_id->0.space_id, s)
    } else if g.dm_id is Some {
        reads(g.dm_id->0.dm_id, s)
    } else {
        s.len() == 0
    }
}

/// `v` is the space of an item of the world: its name, what it is called, and its time.
pub open spec fn is_item(v: SpaceV, i: proto::WorldItemLite, pool: Pool) -> bool {
    &&& i.group_id is Some
    &&& exists|s: Seq<char>| #[trigger] names_item(i.group_id->0, s) && is_space(v.id, s, pool)
    &&& reads(i.room_name, v.name)
    &&& v.kind == SpaceKind::Room
    &&& v.platform == PlatformId::GoogleChat
    &&& v.unread_count == 0
    &&& clocked(i.sort_timestamp, v.last_activity)
    &&& clocked(i.sort_timestamp, v.sort_timestamp)
    &&& v.typing_users.len() == 0
}

/// The items that have a name.
pub open spec fn named_items(items: Seq<proto::WorldItemLite>) -> Seq<proto::WorldItemLite> {
    items.filter(|i: proto::WorldItemLite| i.group_id is Some)
}

proof fn lemma_item_stays(v: SpaceV, i: proto::WorldItemLite, p: Pool, q: Pool)
    requires
        is_item(v, i, p),
        grown(p, q),
    ensures
        is_item(v, i, q),
{
    let s = choose|s: Seq<char>| #[trigger] names_item(i.group_id->0, s) && is_space(v.id, s, p);
    lemma_still_means(p, q, v.id.id, s);
}

/// Each item of the world that has a name becomes a space, in the order of the items, and
/// nothing else does.
pub proof fn law_the_world_is_whole(items: Seq<proto::WorldItemLite>, pool: Pool)
    ensures
        ({
            let (q, o) = world_spaces(items, pool);
            let ms = named_items(items);
            &&& grown(pool, q)
            &&& o.len() == ms.len()
            &&& enough(q) ==> forall|i: int| 0 <= i < o.len() ==> is_item(#[trigger] o[i], ms[i], q)
        }),
    decreases items.len(),
{
    reveal(Seq::filter);
    let (q, o) = world_spaces(items, pool);
    let ms = named_items(items);
    if items.len() == 0 {
        lemma_grown_same(pool);
    } else {
        let front = items.drop_last();
        let it = items.last();
        let (p, before) = world_spaces(front, pool);
        let had = named_items(front);
        law_the_world_is_whole(front, pool);
        if it.group_id is Some {
            let s = crate::googlechat::convert::plain_group_text(it.group_id->0);
            assert(names_item(it.group_id->0, s));
            lemma_one_name(p, s);
        } else {
            lemma_grown_same(p);
        }
        lemma_grown_through(pool, p, q);
        if enough(q) {
            assert forall|i: int| 0 <= i < o.len() implies is_item(#[trigger] o[i], ms[i], q) by {
                if i < before.len() {
                    assert(o[i] == before[i] && ms[i] == had[i]);
                    lemma_item_stays(before[i], had[i], p, q);
                }
            }
        }
    }
}

/// The items of a reply are those of its sections, one section behind the other, and then
/// those outside of them.
pub proof fn law_sections_are_whole(r: proto::PaginatedWorldResponse)
    ensures
        world_items(r) == section_items(r.world_section_responses@) + r.world_items@,
        forall|ss: Seq<proto::WorldSectionResponse>, s: proto::WorldSectionResponse| #[trigger]
            section_items(ss.push(s)) == section_items(ss) + s.world_items@,
        section_items(Seq::empty()).len() == 0,
        forall|ss: Seq<proto::WorldSectionResponse>, j: int, i: int|
            0 <= j < ss.len() && 0 <= i < ss[j].world_items@.len() ==> section_items(ss).contains(
                #[trigger] ss[j].world_items@[i],
            ),
{
    assert forall|ss: Seq<proto::WorldSectionResponse>, s: proto::WorldSectionResponse| #[trigger]
        section_items(ss.push(s)) == section_items(ss) + s.world_items@ by {
        assert(ss.push(s).drop_last() =~= ss);
    }
    assert forall|ss: Seq<proto::WorldSectionResponse>, j: int, i: int|
        0 <= j < ss.len() && 0 <= i < ss[j].world_items@.len() implies section_items(ss).contains(
        #[trigger] ss[j].world_items@[i],
    ) by {
        lemma_section_item(ss, j, i);
    }
}

proof fn lemma_section_item(ss: Seq<proto::WorldSectionResponse>, j: int, i: int)
    requires
        0 <= j < ss.len(),
        0 <= i < ss[j].world_items@.len(),
    ensures
        section_items(ss).contains(ss[j].world_items@[i]),
    decreases ss.len(),
{
    let front = section_items(ss.drop_last());
    let all = section_items(ss);
    if j == ss.len() - 1 {
        assert(all[front.len() + i] == ss[j].world_items@[i]);
    } else {
        lemma_section_item(ss.drop_last(), j, i);
        assert(ss.drop_last()[j] == ss[j]);
        let k = front.index_of(ss[j].world_items@[i]);
        assert(all[k] == front[k]);
    }
}

/// The members who have a name.
pub open spec fn named_members(ms: Seq<proto::Member>) -> Seq<proto::Member> {
    ms.filter(
        |m: proto::Member|
            m.user matches Some(u) && u.user_id matches Some(i) && i.id is Some,
    )
}

/// `v` is the user of a member.
pub open spec fn is_member(v: UserV, m: proto::Member, pool: Pool) -> bool {
    let u = m.user->0;
    &&& v.id.platform == PlatformId::GoogleChat
    &&& means(pool, v.id.id, u.user_id->0.id->0@)
    &&& reads(u.name, v.display_name)
    &&& v.email == if u.email is Some {
        Some(u.email->0@)
    } else {
        None
    }
    &&& v.avatar_url == if u.avatar_url is Some {
        Some(u.avatar_url->0@)
    } else {
        None
    }
    &&& v.presence == PresenceStatus::Unknown
    &&& v.is_bot == u.is_bot
}

/// Each member who has a name becomes a user, in the order of the members, and nobody else
/// does.
pub proof fn law_members_are_whole(list: Seq<proto::Member>, pool: Pool)
    ensures
        ({
            let (q, o) = member_users(list, pool);
            let ms = named_members(list);
            &&& grown(pool, q)
            &&& o.len() == ms.len()
            &&& enough(q) ==> forall|i: int| 0 <= i < o.len() ==> is_member(#[trigger] o[i], ms[i], q)
        }),
    decreases list.len(),
{
    reveal(Seq::filter);
    let (q, o) = member_users(list, pool);
    let ms = named_members(list);
    if list.len() == 0 {
        lemma_grown_same(pool);
    } else {
        let front = list.drop_last();
        let m = list.last();
        let (p, before) = member_users(front, pool);
        let had = named_members(front);
        law_members_are_whole(front, pool);
        if m.user matches Some(u) && u.user_id matches Some(i) && i.id is Some {
            lemma_one_name(p, m.user->0.user_id->0.id->0@);
        } else {
            assert(member_user(m, p).1 is None);
            lemma_grown_same(p);
        }
        lemma_grown_through(pool, p, q);
        if enough(q) {
            assert forall|i: int| 0 <= i < o.len() implies is_member(#[trigger] o[i], ms[i], q) by {
                if i < before.len() {
                    assert(o[i] == before[i] && ms[i] == had[i]);
                    lemma_still_means(p, q, before[i].id.id, had[i].user->0.user_id->0.id->0@);
                }
            }
        }
    }
}

/// The presences whose user has a name.
pub open spec fn named_presences(us: Seq<proto::UserPresence>) -> Seq<proto::UserPresence> {
    us.filter(|u: proto::UserPresence| u.user_id matches Some(i) && i.id is Some)
}

/// `v` is a user of whom only the presence is known.
pub open spec fn is_present(v: UserV, u: proto::UserPresence, pool: Pool) -> bool {
    &&& v.id.platform == PlatformId::GoogleChat
    &&& means(pool, v.id.id, u.user_id->0.id->0@)
    &&& v.presence == PresenceStatus::Active <==> u.presence == Some(1i32)
    &&& v.presence == PresenceStatus::Inactive <==> u.presence == Some(2i32)
    &&& v.presence != PresenceStatus::Dnd
    &&& v.display_name.len() == 0
    &&& v.email is None
    &&& v.avatar_url is None
    &&& !v.is_bot
}

/// Each presence whose user has a name becomes a user, in their order, and nobody else does.
pub proof fn law_presences_are_whole(list: Seq<proto::UserPresence>, pool: Pool)
    ensures
        ({
            let (q, o) = presence_users(list, pool);
            let ms = named_presences(list);
            &&& grown(pool, q)
            &&& o.len() == ms.len()
            &&& enough(q) ==> forall|i: int|
                0 <= i < o.len() ==> is_present(#[trigger] o[i], ms[i], q)
        }),
    decreases list.len(),
{
    reveal(Seq::filter);
    let (q, o) = presence_users(list, pool);
    let ms = named_presences(list);
    if list.len() == 0 {
        lemma_grown_same(pool);
    } else {
        let front = list.drop_last();
        let u = list.last();
        let (p, before) = presence_users(front, pool);
        let had = named_presences(front);
        law_presences_are_whole(front, pool);
        if u.user_id matches Some(i) && i.id is Some {
            lemma_one_name(p, u.user_id->0.id->0@);
        } else {
            assert(presence_user(u, p).1 is None);
            lemma_grown_same(p);
        }
        lemma_grown_through(pool, p, q);
        if enough(q) {
            assert forall|i: int| 0 <= i < o.len() implies is_present(#[trigger] o[i], ms[i], q) by {
                if i < before.len() {
                    assert(o[i] == before[i] && ms[i] == had[i]);
                    lemma_still_means(p, q, before[i].id.id, had[i].user_id->0.id->0@);
                }
            }
        }
    }
}

} // verus!
