//! The names in the service's messages, and the numbers that stand for them.
use vstd::prelude::*;

use crate::googlechat::proto;
use crate::text::{or_empty, text_opt};
use crate::types::ids::{id_of, with, IdInterner, PlatformId, Pool, SpaceId, TopicId, UserId};

verus! {

// ───────────────────────── names ─────────────────────────

/// The name of a space: of the room, or else of the direct message.
pub open spec fn group_text(g: proto::GroupId) -> Option<Seq<char>> {
    let room = match g.space_id {
        Some(s) => text_opt(s.space_id),
        None => None,
    };
    match room {
        Some(t) => Some(t),
        None => match g.dm_id {
            Some(d) => text_opt(d.dm_id),
            None => None,
        },
    }
}

pub open spec fn group_opt_text(g: Option<proto::GroupId>) -> Option<Seq<char>> {
    match g {
        Some(x) => group_text(x),
        None => None,
    }
}

pub open spec fn topic_group(t: Option<proto::TopicId>) -> Option<Seq<char>> {
    match t {
        Some(x) => group_opt_text(x.group_id),
        None => None,
    }
}

pub open spec fn topic_text(t: Option<proto::TopicId>) -> Option<Seq<char>> {
    match t {
        Some(x) => text_opt(x.topic_id),
        None => None,
    }
}

pub open spec fn parent_topic(p: Option<proto::MessageParentId>) -> Option<proto::TopicId> {
    match p {
        Some(x) => x.topic_id,
        None => None,
    }
}

pub open spec fn message_topic(m: Option<proto::MessageId>) -> Option<proto::TopicId> {
    match m {
        Some(x) => parent_topic(x.parent_id),
        None => None,
    }
}

pub open spec fn message_text(m: Option<proto::MessageId>) -> Option<Seq<char>> {
    match m {
        Some(x) => text_opt(x.message_id),
        None => None,
    }
}

pub open spec fn user_text(u: Option<proto::UserId>) -> Option<Seq<char>> {
    match u {
        Some(x) => text_opt(x.id),
        None => None,
    }
}

pub open spec fn creator_text(u: Option<proto::User>) -> Option<Seq<char>> {
    match u {
        Some(x) => user_text(x.user_id),
        None => None,
    }
}

/// The name of a space.
pub fn group_raw(g: &Option<proto::GroupId>) -> (r: Option<&String>)
    ensures
        match r {
            Some(s) => group_opt_text(*g) == Some(s@),
            None => group_opt_text(*g) is None,
        },
{
    match g {
        Some(x) => {
            if let Some(s) = &x.space_id {
                if let Some(t) = &s.space_id {
                    return Some(t);
                }
            }
            if let Some(d) = &x.dm_id {
                if let Some(t) = &d.dm_id {
                    return Some(t);
                }
            }
            None
        },
        None => None,
    }
}

/// The topic that a message belongs to.
pub fn topic_of(m: &Option<proto::MessageId>) -> (r: Option<&proto::TopicId>)
    ensures
        match r {
            Some(t) => message_topic(*m) == Some(*t),
            None => message_topic(*m) is None,
        },
{
    match m {
        Some(x) => match &x.parent_id {
            Some(p) => match &p.topic_id {
                Some(t) => Some(t),
                None => None,
            },
            None => None,
        },
        None => None,
    }
}

/// The name of the space that a message belongs to.
pub fn message_space(m: &Option<proto::MessageId>) -> (r: String)
    ensures
        r@ == or_empty(topic_group(message_topic(*m))),
{
    match topic_of(m) {
        Some(t) => match group_raw(&t.group_id) {
            Some(s) => s.clone(),
            None => String::new(),
        },
        None => String::new(),
    }
}

/// The name of the topic that a message belongs to.
pub fn message_topic_name(m: &Option<proto::MessageId>) -> (r: Option<String>)
    ensures
        text_opt(r) == topic_text(message_topic(*m)),
{
    match topic_of(m) {
        Some(t) => match &t.topic_id {
            Some(s) => Some(s.clone()),
            None => None,
        },
        None => None,
    }
}

/// The name of a message.
pub fn message_name(m: &Option<proto::MessageId>) -> (r: Option<String>)
    ensures
        text_opt(r) == message_text(*m),
{
    match m {
        Some(x) => match &x.message_id {
            Some(s) => Some(s.clone()),
            None => None,
        },
        None => None,
    }
}

/// The name of a user.
pub fn user_name(u: &Option<proto::UserId>) -> (r: Option<String>)
    ensures
        text_opt(r) == user_text(*u),
{
    match u {
        Some(x) => match &x.id {
            Some(s) => Some(s.clone()),
            None => None,
        },
        None => None,
    }
}

/// The name of the author of a message.
pub fn creator_name(u: &Option<proto::User>) -> (r: Option<String>)
    ensures
        text_opt(r) == creator_text(*u),
{
    match u {
        Some(x) => user_name(&x.user_id),
        None => None,
    }
}

// ───────────────────────── numbers ─────────────────────────

pub open spec fn space_named(pool: Pool, s: Seq<char>) -> SpaceId {
    SpaceId { platform: PlatformId::GoogleChat, id: id_of(pool, s) }
}

pub open spec fn user_named(pool: Pool, s: Seq<char>) -> UserId {
    UserId { platform: PlatformId::GoogleChat, id: id_of(pool, s) }
}

/// Interns the name of a space.
pub fn intern_space(interner: &mut IdInterner, s: &str) -> (r: SpaceId)
    ensures
        r == space_named(old(interner)@, s@),
        final(interner)@ == with(old(interner)@, s@),
{
    SpaceId { platform: PlatformId::GoogleChat, id: interner.intern(s) }
}

/// Interns the name of a user.
pub fn intern_user(interner: &mut IdInterner, s: &str) -> (r: UserId)
    ensures
        r == user_named(old(interner)@, s@),
        final(interner)@ == with(old(interner)@, s@),
{
    UserId { platform: PlatformId::GoogleChat, id: interner.intern(s) }
}

/// The pool behind the author of a message, and the author. The name that stands
/// for an author who is not known is interned with every author.
pub open spec fn sender_of(pool: Pool, name: Option<Seq<char>>) -> (Pool, UserId) {
    match name {
        Some(s) => (with(with(pool, s), "unknown"@), user_named(pool, s)),
        None => (with(pool, "unknown"@), user_named(pool, "unknown"@)),
    }
}

/// Interns the author of a message.
pub fn intern_sender(interner: &mut IdInterner, name: &Option<String>) -> (r: UserId)
    ensures
        (final(interner)@, r) == sender_of(old(interner)@, text_opt(*name)),
{
    match name {
        Some(s) => {
            let u = intern_user(interner, s.as_str());
            let _ = interner.intern("unknown");
            u
        },
        None => intern_user(interner, "unknown"),
    }
}

/// The pool behind an optional topic, and the topic.
pub open spec fn thread_of(pool: Pool, name: Option<Seq<char>>) -> (Pool, Option<TopicId>) {
    match name {
        Some(s) => (with(pool, s), Some(TopicId(id_of(pool, s)))),
        None => (pool, None),
    }
}

/// Interns an optional topic.
pub fn intern_thread(interner: &mut IdInterner, name: &Option<String>) -> (r: Option<TopicId>)
    ensures
        (final(interner)@, r) == thread_of(old(interner)@, text_opt(*name)),
{
    match name {
        Some(s) => Some(TopicId(interner.intern(s.as_str()))),
        None => None,
    }
}

} // verus!
