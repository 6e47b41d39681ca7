//! Events of the service turned into events of the program.
use vstd::prelude::*;

use crate::event::inbound::{events, EventV, InboundEvent};
use crate::googlechat::convert::{
    all_bodies, count_from, flag_from, kind_of_message, message_type_from, new_space,
    number_or_zero, or_false, plain_space, time_from, time_opt, time_opt_from, time_or_zero,
};
use crate::googlechat::proto;
use crate::googlechat::raw::{
    creator_name, creator_text, group_opt_text, group_raw, intern_sender, intern_space,
    intern_thread, intern_user, message_name, message_space, message_text, message_topic,
    message_topic_name, sender_of, space_named, thread_of, topic_group, topic_text, user_name,
    user_named, user_text,
};
use crate::text::{self, decimal, joined, or_empty, text_opt, text_or_empty};
use crate::types::ids::{id_of, with, IdInterner, MessageId, PlatformId, Pool, SpaceId};
use crate::types::message::{
    reactions, Annotation, Emoji, EmojiV, Message, MessageV, Reaction, ReactionV,
};
use crate::types::space::{MemberRole, MembershipState, PresenceStatus, Space, SpaceKind, SpaceV};

verus! {

broadcast use vstd::string::group_string_axioms;

// ───────────────────────── the model ─────────────────────────

/// The strings interned and the events given out so far.
pub ghost struct Feed {
    pub pool: Pool,
    pub events: Seq<EventV>,
}

/// The Unicode emoji, or a question mark.
pub open spec fn plain_emoji(e: Option<proto::Emoji>) -> EmojiV {
    match e {
        Some(x) => match x.unicode {
            Some(u) => EmojiV::Unicode(u@),
            None => EmojiV::Unicode("?"@),
        },
        None => EmojiV::Unicode("?"@),
    }
}

pub open spec fn plain_reaction(r: proto::Reaction) -> ReactionV {
    ReactionV {
        emoji: plain_emoji(r.emoji),
        count: number_or_zero(r.count),
        includes_self: or_false(r.current_user_participated),
    }
}

/// The pool behind a message of the channel, and the message. One without a name
/// is none, but its author is interned.
pub open spec fn live_message(m: proto::Message, space: SpaceId, pool: Pool) -> (
    Pool,
    Option<MessageV>,
) {
    let (p1, sender) = sender_of(pool, creator_text(m.creator));
    match message_text(m.id) {
        Some(name) => {
            let (p3, thread_id) = thread_of(with(p1, name), topic_text(message_topic(m.id)));
            (
                p3,
                Some(
                    MessageV {
                        id: MessageId(id_of(p1, name)),
                        space_id: space,
                        sender,
                        timestamp: time_or_zero(m.create_time),
                        edit_timestamp: time_opt(m.last_edit_time),
                        text: or_empty(text_opt(m.text_body)),
                        annotations: Seq::empty(),
                        reactions: m.reactions@.map_values(|r: proto::Reaction| plain_reaction(r)),
                        thread_id,
                        message_type: kind_of_message(m.message_type),
                        platform: PlatformId::GoogleChat,
                    },
                ),
            )
        },
        None => (p1, None),
    }
}

/// A message was changed: the event says so, or else it was edited after it was
/// written.
pub open spec fn edited(event_type: Option<i32>, m: proto::Message) -> bool {
    if event_type == Some(7i32) {
        true
    } else if event_type == Some(6i32) {
        false
    } else {
        match (m.last_edit_time, m.create_time) {
            (Some(e), Some(c)) => e > c,
            _ => false,
        }
    }
}

/// The text, where it is not empty.
pub open spec fn some_text(s: Seq<char>) -> Option<Seq<char>> {
    if s.len() == 0 {
        None
    } else {
        Some(s)
    }
}

pub open spec fn space_text(m: Option<proto::MessageId>) -> Seq<char> {
    or_empty(topic_group(message_topic(m)))
}

pub open spec fn thread_text(m: Option<proto::MessageId>) -> Seq<char> {
    or_empty(topic_text(message_topic(m)))
}

/// Behind a message posted or edited.
pub open spec fn after_posted(b: proto::EventBody, f: Feed) -> Feed {
    match b.message_posted {
        Some(e) => match e.message {
            Some(m) => {
                let space = space_text(m.id);
                let (p, v) = live_message(m, space_named(f.pool, space), with(f.pool, space));
                Feed {
                    pool: p,
                    events: match v {
                        Some(message) => f.events.push(
                            if edited(b.event_type, m) {
                                EventV::MessageEdited {
                                    message,
                                    space_id_raw: space,
                                    topic_id_raw: some_text(thread_text(m.id)),
                                    message_id_raw: or_empty(message_text(m.id)),
                                }
                            } else {
                                EventV::MessagePosted {
                                    message,
                                    space_id_raw: space,
                                    topic_id_raw: some_text(thread_text(m.id)),
                                    message_id_raw: or_empty(message_text(m.id)),
                                }
                            },
                        ),
                        None => f.events,
                    },
                }
            },
            None => f,
        },
        None => f,
    }
}

pub open spec fn context_group(c: Option<proto::TypingContext>) -> Option<Seq<char>> {
    match c {
        Some(x) => group_opt_text(x.group_id),
        None => None,
    }
}

/// Behind a user who began or ceased to type.
pub open spec fn after_typing(b: proto::EventBody, f: Feed) -> Feed {
    match b.typing_state_changed_event {
        Some(t) => {
            let space = or_empty(context_group(t.context));
            let user = or_empty(user_text(t.user_id));
            let space_id = space_named(f.pool, space);
            let user_id = user_named(with(f.pool, space), user);
            Feed {
                pool: with(with(f.pool, space), user),
                events: if t.state == Some(1i32) {
                    f.events.push(
                        EventV::TypingStarted {
                            space_id,
                            user_id,
                            timestamp: time_or_zero(t.start_timestamp_usec),
                        },
                    )
                } else if t.state == Some(2i32) {
                    f.events.push(EventV::TypingStopped { space_id, user_id })
                } else {
                    f.events
                },
            }
        },
        None => f,
    }
}

/// Behind a message deleted.
pub open spec fn after_deleted(b: proto::EventBody, f: Feed) -> Feed {
    match b.message_deleted {
        Some(d) => if d.message_id is Some {
            let space = space_text(d.message_id);
            let name = or_empty(message_text(d.message_id));
            Feed {
                pool: with(with(f.pool, space), name),
                events: f.events.push(
                    EventV::MessageDeleted {
                        space_id: space_named(f.pool, space),
                        message_id: MessageId(id_of(with(f.pool, space), name)),
                    },
                ),
            }
        } else {
            f
        },
        None => f,
    }
}

/// Behind new reactions on a message.
pub open spec fn with_reactions(id: Option<proto::MessageId>, r: Seq<ReactionV>, f: Feed) -> Feed {
    let space = space_text(id);
    let name = or_empty(message_text(id));
    Feed {
        pool: with(with(f.pool, space), name),
        events: f.events.push(
            EventV::ReactionUpdated {
                space_id: space_named(f.pool, space),
                message_id: MessageId(id_of(with(f.pool, space), name)),
                reactions: r,
            },
        ),
    }
}

/// Behind a reaction that one user put on a message or took away.
pub open spec fn after_reaction(b: proto::EventBody, f: Feed) -> Feed {
    match b.message_reaction {
        Some(r) => if r.message_id is Some {
            with_reactions(
                r.message_id,
                seq![
                    ReactionV {
                        emoji: plain_emoji(r.emoji),
                        count: if r.option == Some(1i32) {
                            1
                        } else {
                            0
                        },
                        includes_self: r.option == Some(1i32),
                    },
                ],
                f,
            )
        } else {
            f
        },
        None => f,
    }
}

pub open spec fn summary_reaction(r: proto::ReactionSummary) -> ReactionV {
    ReactionV {
        emoji: plain_emoji(r.emoji),
        count: number_or_zero(r.count),
        includes_self: or_false(r.current_user_reacted),
    }
}

/// Behind the reactions on a message counted anew.
pub open spec fn after_summary(b: proto::EventBody, f: Feed) -> Feed {
    match b.message_reactions_summary {
        Some(s) => if s.message_id is Some {
            with_reactions(
                s.message_id,
                s.reaction_summary@.map_values(|r: proto::ReactionSummary| summary_reaction(r)),
                f,
            )
        } else {
            f
        },
        None => f,
    }
}

/// Behind a space read.
pub open spec fn after_read(b: proto::EventBody, f: Feed) -> Feed {
    match b.group_read_state_updated_event {
        Some(e) => if e.group_id is Some {
            let space = or_empty(group_opt_text(e.group_id));
            Feed {
                pool: with(f.pool, space),
                events: f.events.push(
                    EventV::ReadStateUpdated {
                        space_id: space_named(f.pool, space),
                        last_read: time_or_zero(e.most_recent_read_time),
                        unread_count: 0,
                    },
                ),
            }
        } else {
            f
        },
        None => f,
    }
}

/// The name of a space under which it is kept, and whether it is a direct message:
/// those have a prefix. None where it has no name.
pub open spec fn kept_name(g: proto::GroupId) -> Option<(Seq<char>, bool)> {
    match g.space_id {
        Some(s) => Some((or_empty(text_opt(s.space_id)), false)),
        None => match g.dm_id {
            Some(d) => Some(("dm/"@ + or_empty(text_opt(d.dm_id)), true)),
            None => None,
        },
    }
}

pub open spec fn kind_of_group(g: proto::Group, dm: bool) -> SpaceKind {
    if dm {
        SpaceKind::DirectMessage
    } else if g.group_type == Some(1i32) || g.is_flat == Some(true) {
        SpaceKind::Room
    } else {
        SpaceKind::ThreadedRoom
    }
}

/// The space that a group is: its name, and what is known of it apart from its
/// number.
pub open spec fn group_space(g: proto::Group, pool: Pool) -> Option<(Seq<char>, SpaceV)> {
    match g.group_id {
        Some(gid) => match kept_name(gid) {
            Some((name, dm)) => if name.len() == 0 || name == "dm/"@ {
                None
            } else {
                Some(
                    (
                        name,
                        plain_space(
                            space_named(pool, name),
                            match g.name {
                                Some(n) => n@,
                                None => name,
                            },
                            kind_of_group(g, dm),
                            time_or_zero(g.sort_time),
                        ),
                    ),
                )
            },
            None => None,
        },
        None => None,
    }
}

/// Behind a space changed.
pub open spec fn after_group(b: proto::EventBody, f: Feed) -> Feed {
    match b.group_updated {
        Some(e) => match e.group {
            Some(g) => match group_space(g, f.pool) {
                Some((name, space)) => Feed {
                    pool: with(f.pool, name),
                    events: f.events.push(EventV::SpaceUpdated { space }),
                },
                None => f,
            },
            None => f,
        },
        None => f,
    }
}

pub open spec fn presence_in(dnd: Option<i32>) -> PresenceStatus {
    if dnd == Some(2i32) {
        PresenceStatus::Dnd
    } else if dnd == Some(1i32) {
        PresenceStatus::Active
    } else {
        PresenceStatus::Unknown
    }
}

/// Whether a user wants to be left alone, as far as the status tells.
pub open spec fn dnd_in(s: proto::UserStatus) -> Option<i32> {
    match s.dnd_settings {
        Some(d) => d.dnd_state,
        None => None,
    }
}

/// Behind the status of a user changed.
pub open spec fn after_status(b: proto::EventBody, f: Feed) -> Feed {
    match b.user_status_updated_event {
        Some(e) => match e.user_status {
            Some(s) => {
                let user = or_empty(user_text(s.user_id));
                if user.len() == 0 {
                    f
                } else {
                    Feed {
                        pool: with(f.pool, user),
                        events: f.events.push(
                            EventV::PresenceChanged {
                                user_id: user_named(f.pool, user),
                                presence: presence_in(dnd_in(s)),
                            },
                        ),
                    }
                }
            },
            None => f,
        },
        None => f,
    }
}

pub open spec fn member_text(i: proto::MembershipId) -> Seq<char> {
    match i.member_id {
        Some(m) => or_empty(user_text(m.user_id)),
        None => Seq::empty(),
    }
}

pub open spec fn member_space_text(i: proto::MembershipId) -> Seq<char> {
    match group_opt_text(i.group_id) {
        Some(t) => t,
        None => match i.space_id {
            Some(s) => or_empty(text_opt(s.space_id)),
            None => Seq::empty(),
        },
    }
}

pub open spec fn state_in(n: Option<i32>) -> MembershipState {
    if n == Some(2i32) {
        MembershipState::Joined
    } else if n == Some(1i32) {
        MembershipState::Invited
    } else if n == Some(3i32) {
        MembershipState::Left
    } else {
        MembershipState::Unknown
    }
}

pub open spec fn role_in(n: Option<i32>) -> MemberRole {
    if n == Some(2i32) {
        MemberRole::Invitee
    } else if n == Some(3i32) {
        MemberRole::Member
    } else if n == Some(4i32) {
        MemberRole::Owner
    } else if n == Some(6i32) {
        MemberRole::Manager
    } else {
        MemberRole::Unknown
    }
}

/// Behind a change of who is a member of a space.
pub open spec fn after_membership(b: proto::EventBody, f: Feed) -> Feed {
    match b.membership_changed {
        Some(e) => match e.new_membership {
            Some(m) => match m.id {
                Some(i) => {
                    let user = member_text(i);
                    let space = member_space_text(i);
                    if user.len() == 0 || space.len() == 0 {
                        f
                    } else {
                        Feed {
                            pool: with(with(f.pool, space), user),
                            events: f.events.push(
                                EventV::MembershipChanged {
                                    space_id: space_named(f.pool, space),
                                    user_id: user_named(with(f.pool, space), user),
                                    state: state_in(m.membership_state),
                                    role: role_in(m.membership_role),
                                },
                            ),
                        }
                    }
                },
                None => f,
            },
            None => f,
        },
        None => f,
    }
}

/// Behind the messages that a topic begins with.
pub open spec fn after_replies(
    replies: Seq<proto::Message>,
    space: Seq<char>,
    id: SpaceId,
    f: Feed,
) -> Feed
    decreases replies.len(),
{
    if replies.len() == 0 {
        f
    } else {
        let g = after_replies(replies.drop_last(), space, id, f);
        let m = replies.last();
        let (p, v) = live_message(m, id, g.pool);
        Feed {
            pool: p,
            events: match v {
                Some(message) => g.events.push(
                    EventV::MessagePosted {
                        message,
                        space_id_raw: if space_text(m.id).len() == 0 {
                            space
                        } else {
                            space_text(m.id)
                        },
                        topic_id_raw: some_text(thread_text(m.id)),
                        message_id_raw: or_empty(message_text(m.id)),
                    },
                ),
                None => g.events,
            },
        }
    }
}

/// Behind a topic created.
pub open spec fn after_topic(b: proto::EventBody, f: Feed) -> Feed {
    match b.topic_created {
        Some(e) => match e.topic {
            Some(t) => {
                let space = or_empty(topic_group(t.id));
                after_replies(
                    t.replies@,
                    space,
                    space_named(f.pool, space),
                    Feed { pool: with(f.pool, space), ..f },
                )
            },
            None => f,
        },
        None => f,
    }
}

/// Behind the body of an event. What happened comes out in a fixed order: messages
/// first, then typing, deletion, reactions, reading, the space, the user, the
/// members, and topics last.
pub open spec fn dispatched(b: proto::EventBody, f: Feed) -> Feed {
    after_topic(
        b,
        after_membership(
            b,
            after_status(
                b,
                after_group(
                    b,
                    after_read(
                        b,
                        after_summary(
                            b,
                            after_reaction(b, after_deleted(b, after_typing(b, after_posted(b, f)))),
                        ),
                    ),
                ),
            ),
        ),
    )
}

/// Behind a list of bodies.
pub open spec fn dispatched_all(bs: Seq<proto::EventBody>, f: Feed) -> Feed
    decreases bs.len(),
{
    if bs.len() == 0 {
        f
    } else {
        dispatched(bs.last(), dispatched_all(bs.drop_last(), f))
    }
}

// ───────────────────────── what was not known ─────────────────────────

/// A body of a sort that is known.
pub open spec fn recognized(b: proto::EventBody) -> bool {
    ||| b.message_posted is Some
    ||| b.message_deleted is Some
    ||| b.message_reaction is Some
    ||| b.message_reactions_summary is Some
    ||| b.typing_state_changed_event is Some
    ||| b.group_read_state_updated_event is Some
    ||| b.topic_created is Some
    ||| b.membership_changed is Some
    ||| b.group_updated is Some
    ||| b.group_viewed
    ||| b.user_status_updated_event is Some
    ||| b.read_receipt_changed
    ||| b.web_push_notification
}

/// The sorts of event that came in and were of no sort that is known.
#[derive(Debug, Clone, Copy)]
pub struct Uncovered {
    lo: u64,
    hi: u64,
}

pub open spec fn bit(word: u64, i: u64) -> bool {
    (word >> i) & 1 == 1
}

impl View for Uncovered {
    type V = Set<i32>;

    closed spec fn view(&self) -> Set<i32> {
        Set::new(
            |n: i32|
                0 <= n < 128 && if n < 64 {
                    bit(self.lo, n as u64)
                } else {
                    bit(self.hi, (n - 64) as u64)
                },
        )
    }
}

proof fn lemma_bit_set(word: u64, k: u64, i: u64)
    by (bit_vector)
    requires
        k < 64,
        i < 64,
    ensures
        ((word | (1u64 << k)) >> i) & 1 == 1 <==> (i == k || (word >> i) & 1 == 1),
{
}

proof fn lemma_no_bits(i: u64)
    by (bit_vector)
    ensures
        (0u64 >> i) & 1 == 0,
{
}

impl Uncovered {
    /// Nothing has come in.
    pub fn new() -> (r: Uncovered)
        ensures
            r@ == Set::<i32>::empty(),
    {
        let r = Uncovered { lo: 0, hi: 0 };
        proof {
            assert forall|n: i32| !#[trigger] r@.contains(n) by {
                lemma_no_bits(n as u64);
                lemma_no_bits((n - 64) as u64);
            }
            assert(r@ =~= Set::empty());
        }
        r
    }

    /// Notes a sort of event, from zero up to 127.
    pub fn record(&mut self, event_type: i32)
        ensures
            final(self)@ == if 0 <= event_type < 128 {
                old(self)@.insert(event_type)
            } else {
                old(self)@
            },
    {
        if event_type < 0 || event_type >= 128 {
            return ;
        }
        let ghost lo = self.lo;
        let ghost hi = self.hi;
        if event_type < 64 {
            let k: u64 = event_type as u64;
            self.lo = self.lo | (1u64 << k);
        } else {
            let k: u64 = (event_type - 64) as u64;
            self.hi = self.hi | (1u64 << k);
        }
        proof {
            assert forall|n: i32| #[trigger] self@.contains(n) <==> old(self)@.insert(
                event_type,
            ).contains(n) by {
                if 0 <= n < 64 && event_type < 64 {
                    lemma_bit_set(lo, event_type as u64, n as u64);
                } else if 64 <= n < 128 && event_type >= 64 {
                    lemma_bit_set(hi, (event_type - 64) as u64, (n - 64) as u64);
                }
            }
            assert(self@ =~= old(self)@.insert(event_type));
        }
    }
}

impl Default for Uncovered {
    fn default() -> (r: Uncovered)
        ensures
            r@ == Set::<i32>::empty(),
    {
        Uncovered::new()
    }
}

/// `v` lists the set, from the smallest on.
pub open spec fn lists(v: Seq<i32>, s: Set<i32>) -> bool {
    &&& forall|i: int, j: int| 0 <= i < j < v.len() ==> #[trigger] v[i] < #[trigger] v[j]
    &&& forall|i: int| 0 <= i < v.len() ==> s.contains(#[trigger] v[i])
    &&& forall|n: i32| #[trigger] s.contains(n) ==> v.contains(n)
}

/// The sorts of event that came in and were of no sort that is known, from the
/// smallest on.
pub fn uncovered_event_types(u: &Uncovered) -> (r: Vec<i32>)
    ensures
        lists(r@, u@),
{
    let mut out: Vec<i32> = Vec::new();
    let mut i: i32 = 0;
    while i < 128
        invariant
            0 <= i <= 128,
            forall|a: int, b: int| 0 <= a < b < out@.len() ==> #[trigger] out@[a] < #[trigger] out@[b],
            forall|a: int| 0 <= a < out@.len() ==> u@.contains(#[trigger] out@[a]) && out@[a] < i,
            forall|n: i32| #[trigger] u@.contains(n) && n < i ==> out@.contains(n),
        decreases 128 - i,
    {
        let ghost before = out@;
        let word: u64 = if i < 64 {
            u.lo
        } else {
            u.hi
        };
        let k: u64 = if i < 64 {
            i as u64
        } else {
            (i - 64) as u64
        };
        if (word >> k) & 1 == 1 {
            proof {
                assert(u@.contains(i));
            }
            out.push(i);
        }
        proof {
            assert forall|n: i32| #[trigger] u@.contains(n) && n < i + 1 implies out@.contains(n) by {
                if n < i {
                    assert(before.contains(n));
                    assert(out@[before.index_of(n)] == n);
                } else {
                    assert(out@[out@.len() - 1] == n);
                }
            }
        }
        i += 1;
    }
    out
}

/// The names of the sorts of thing in a body.
pub open spec fn sorts_in(b: proto::EventBody) -> Seq<Seq<char>> {
    let s0 = Seq::<Seq<char>>::empty();
    let s1 = if b.message_posted is Some { s0.push("message_posted"@) } else { s0 };
    let s2 = if b.message_deleted is Some { s1.push("message_deleted"@) } else { s1 };
    let s3 = if b.message_reaction is Some { s2.push("message_reaction"@) } else { s2 };
    let s4 = if b.message_reactions_summary is Some {
        s3.push("message_reactions_summary"@)
    } else {
        s3
    };
    let s5 = if b.typing_state_changed_event is Some { s4.push("typing"@) } else { s4 };
    let s6 = if b.group_read_state_updated_event is Some {
        s5.push("read_state_updated"@)
    } else {
        s5
    };
    let s7 = if b.topic_created is Some { s6.push("topic_created"@) } else { s6 };
    let s8 = if b.membership_changed is Some { s7.push("membership_changed"@) } else { s7 };
    let s9 = if b.group_updated is Some { s8.push("group_updated"@) } else { s8 };
    let s10 = if b.group_viewed { s9.push("group_viewed"@) } else { s9 };
    let s11 = if b.user_status_updated_event is Some {
        s10.push("user_status_updated"@)
    } else {
        s10
    };
    let s12 = if b.read_receipt_changed { s11.push("read_receipt_changed"@) } else { s11 };
    if b.web_push_notification {
        s12.push("web_push"@)
    } else {
        s12
    }
}

pub open spec fn signed_text(n: i32) -> Seq<char> {
    if n < 0 {
        "-"@ + decimal((-n) as nat)
    } else {
        decimal(n as nat)
    }
}

pub open spec fn type_text(t: Option<i32>) -> Seq<char> {
    match t {
        Some(n) => "Some("@ + signed_text(n) + ")"@,
        None => "None"@,
    }
}

fn push_name(v: &mut Vec<String>, present: bool, name: &str)
    ensures
        text::texts(final(v)@) == if present {
            text::texts(old(v)@).push(name@)
        } else {
            text::texts(old(v)@)
        },
{
    let ghost done = text::texts(v@);
    if present {
        v.push(name.to_owned());
        proof {
            assert(text::texts(v@) =~= done.push(name@));
        }
    }
}

/// What sorts of thing are in a body, for the log.
pub fn describe_body(b: &proto::EventBody) -> (r: String)
    ensures
        r@ == "type="@ + type_text(b.event_type) + " fields=["@ + joined(sorts_in(*b), ","@) + "]"@,
{
    let mut parts: Vec<String> = Vec::new();
    proof {
        assert(text::texts(parts@) =~= Seq::empty());
    }
    push_name(&mut parts, b.message_posted.is_some(), "message_posted");
    push_name(&mut parts, b.message_deleted.is_some(), "message_deleted");
    push_name(&mut parts, b.message_reaction.is_some(), "message_reaction");
    push_name(&mut parts, b.message_reactions_summary.is_some(), "message_reactions_summary");
    push_name(&mut parts, b.typing_state_changed_event.is_some(), "typing");
    push_name(&mut parts, b.group_read_state_updated_event.is_some(), "read_state_updated");
    push_name(&mut parts, b.topic_created.is_some(), "topic_created");
    push_name(&mut parts, b.membership_changed.is_some(), "membership_changed");
    push_name(&mut parts, b.group_updated.is_some(), "group_updated");
    push_name(&mut parts, b.group_viewed, "group_viewed");
    push_name(&mut parts, b.user_status_updated_event.is_some(), "user_status_updated");
    push_name(&mut parts, b.read_receipt_changed, "read_receipt_changed");
    push_name(&mut parts, b.web_push_notification, "web_push");
    let kind = match b.event_type {
        Some(n) => {
            let digits = if n < 0 {
                text::join2("-", text::show((-(n as i64)) as u64).as_str())
            } else {
                text::show(n as u64)
            };
            text::join3("Some(", digits.as_str(), ")")
        },
        None => "None".to_owned(),
    };
    let n: usize = parts.len();
    let list = text::join(&parts, n, ",");
    proof {
        assert(text::texts(parts@).take(n as int) =~= text::texts(parts@));
    }
    let head = text::join3("type=", kind.as_str(), " fields=[");
    text::join3(head.as_str(), list.as_str(), "]")
}

// ───────────────────────── dispatching ─────────────────────────

fn emoji_or_question(e: &Option<proto::Emoji>) -> (r: Emoji)
    ensures
        r@ == plain_emoji(*e),
{
    match e {
        Some(x) => match &x.unicode {
            Some(u) => Emoji::Unicode(u.clone()),
            None => Emoji::Unicode("?".to_owned()),
        },
        None => Emoji::Unicode("?".to_owned()),
    }
}

fn live_reactions(v: &Vec<proto::Reaction>) -> (r: Vec<Reaction>)
    ensures
        reactions(r@) == v@.map_values(|r: proto::Reaction| plain_reaction(r)),
{
    let ghost want = v@.map_values(|r: proto::Reaction| plain_reaction(r));
    let mut out: Vec<Reaction> = Vec::new();
    let mut i: usize = 0;
    while i < v.len()
        invariant
            i <= v@.len(),
            want == v@.map_values(|r: proto::Reaction| plain_reaction(r)),
            reactions(out@) == want.take(i as int),
        decreases v@.len() - i,
    {
        let ghost done = reactions(out@);
        let x = Reaction {
            emoji: emoji_or_question(&v[i].emoji),
            count: count_from(v[i].count),
            includes_self: flag_from(v[i].current_user_participated),
        };
        out.push(x);
        proof {
            assert(reactions(out@) =~= done.push(x@));
            assert(want.take(i + 1) =~= want.take(i as int).push(want[i as int]));
        }
        i += 1;
    }
    proof {
        assert(want.take(want.len() as int) =~= want);
    }
    out
}

fn summary_reactions(v: &Vec<proto::ReactionSummary>) -> (r: Vec<Reaction>)
    ensures
        reactions(r@) == v@.map_values(|r: proto::ReactionSummary| summary_reaction(r)),
{
    let ghost want = v@.map_values(|r: proto::ReactionSummary| summary_reaction(r));
    let mut out: Vec<Reaction> = Vec::new();
    let mut i: usize = 0;
    while i < v.len()
        invariant
            i <= v@.len(),
            want == v@.map_values(|r: proto::ReactionSummary| summary_reaction(r)),
            reactions(out@) == want.take(i as int),
        decreases v@.len() - i,
    {
        let ghost done = reactions(out@);
        let x = Reaction {
            emoji: emoji_or_question(&v[i].emoji),
            count: count_from(v[i].count),
            includes_self: flag_from(v[i].current_user_reacted),
        };
        out.push(x);
        proof {
            assert(reactions(out@) =~= done.push(x@));
            assert(want.take(i + 1) =~= want.take(i as int).push(want[i as int]));
        }
        i += 1;
    }
    proof {
        assert(want.take(want.len() as int) =~= want);
    }
    out
}

/// A message of the channel as a message of a space.
pub fn proto_to_message_owned(m: &proto::Message, space_id: SpaceId, interner: &mut IdInterner) -> (r:
    Option<Message>)
    ensures
        ({
            let (p, v) = live_message(*m, space_id, old(interner)@);
            final(interner)@ == p && match r {
                Some(x) => v == Some(x@),
                None => v is None,
            }
        }),
{
    let author = creator_name(&m.creator);
    let sender = intern_sender(interner, &author);
    let name = match message_name(&m.id) {
        Some(s) => s,
        None => return None,
    };
    let id = MessageId(interner.intern(name.as_str()));
    let topic = message_topic_name(&m.id);
    let thread_id = intern_thread(interner, &topic);
    let annotations: Vec<Annotation> = Vec::new();
    let r = Message {
        id,
        space_id,
        sender,
        timestamp: time_from(m.create_time),
        edit_timestamp: time_opt_from(m.last_edit_time),
        text: text_or_empty(&m.text_body),
        annotations,
        reactions: live_reactions(&m.reactions),
        thread_id,
        message_type: message_type_from(m.message_type),
        platform: PlatformId::GoogleChat,
    };
    proof {
        assert(r@.annotations =~= Seq::empty());
    }
    Some(r)
}

/// The names of the space, the topic and the message itself.
pub fn extract_message_ids(m: &proto::Message) -> (r: (String, String, String))
    ensures
        r.0@ == space_text(m.id),
        r.1@ == thread_text(m.id),
        r.2@ == or_empty(message_text(m.id)),
{
    let topic = message_topic_name(&m.id);
    let name = message_name(&m.id);
    (message_space(&m.id), text_or_empty(&topic), text_or_empty(&name))
}

fn non_empty(s: String) -> (r: Option<String>)
    ensures
        text_opt(r) == some_text(s@),
{
    if s.as_str().is_empty() {
        None
    } else {
        Some(s)
    }
}

fn is_edit(event_type: Option<i32>, m: &proto::Message) -> (r: bool)
    ensures
        r == edited(event_type, *m),
{
    match event_type {
        Some(n) => {
            if n == 7 {
                return true;
            }
            if n == 6 {
                return false;
            }
        },
        None => {},
    }
    match m.last_edit_time {
        Some(e) => match m.create_time {
            Some(c) => e > c,
            None => false,
        },
        None => false,
    }
}

/// A group as a space.
pub fn proto_group_to_space(g: &proto::Group, interner: &mut IdInterner) -> (r: Option<Space>)
    ensures
        match group_space(*g, old(interner)@) {
            Some((name, v)) => r matches Some(s) && s@ == v && final(interner)@ == with(
                old(interner)@,
                name,
            ),
            None => r is None && final(interner)@ == old(interner)@,
        },
{
    let gid = match &g.group_id {
        Some(x) => x,
        None => return None,
    };
    let (name, dm) = match kept_name_of(gid) {
        Some(x) => x,
        None => return None,
    };
    if name.as_str().is_empty() || text::same(name.as_str(), "dm/") {
        return None;
    }
    let kind = if dm {
        SpaceKind::DirectMessage
    } else {
        let one = match g.group_type {
            Some(n) => n == 1,
            None => false,
        };
        let flat = match g.is_flat {
            Some(b) => b,
            None => false,
        };
        if one || flat {
            SpaceKind::Room
        } else {
            SpaceKind::ThreadedRoom
        }
    };
    let shown = match &g.name {
        Some(n) => n.clone(),
        None => name.clone(),
    };
    let id = intern_space(interner, name.as_str());
    Some(new_space(id, shown, kind, time_from(g.sort_time)))
}

/// The name under which a space is kept, and whether it is a direct message.
pub fn kept_name_of(g: &proto::GroupId) -> (r: Option<(String, bool)>)
    ensures
        match r {
            Some((s, dm)) => kept_name(*g) == Some((s@, dm)),
            None => kept_name(*g) is None,
        },
{
    match &g.space_id {
        Some(s) => Some((text_or_empty(&s.space_id), false)),
        None => match &g.dm_id {
            Some(d) => {
                let bare = text_or_empty(&d.dm_id);
                Some((text::join2("dm/", bare.as_str()), true))
            },
            None => None,
        },
    }
}

pub open spec fn feed(interner: IdInterner, out: Seq<InboundEvent>) -> Feed {
    Feed { pool: interner@, events: events(out) }
}

fn emit(out: &mut Vec<InboundEvent>, e: InboundEvent)
    ensures
        events(final(out)@) == events(old(out)@).push(e@),
{
    let ghost done = events(out@);
    let ghost v = e@;
    out.push(e);
    proof {
        assert(events(out@) =~= done.push(v));
    }
}

fn dispatch_posted(b: &proto::EventBody, interner: &mut IdInterner, out: &mut Vec<InboundEvent>)
    ensures
        feed(*final(interner), final(out)@) == after_posted(*b, feed(*old(interner), old(out)@)),
{
    if let Some(e) = &b.message_posted {
        if let Some(m) = &e.message {
            let (space, topic, name) = extract_message_ids(m);
            let space_id = intern_space(interner, space.as_str());
            if let Some(message) = proto_to_message_owned(m, space_id, interner) {
                let topic_raw = non_empty(topic);
                if is_edit(b.event_type, m) {
                    emit(
                        out,
                        InboundEvent::MessageEdited {
                            message,
                            space_id_raw: space,
                            topic_id_raw: topic_raw,
                            message_id_raw: name,
                        },
                    );
                } else {
                    emit(
                        out,
                        InboundEvent::MessagePosted {
                            message,
                            space_id_raw: space,
                            topic_id_raw: topic_raw,
                            message_id_raw: name,
                        },
                    );
                }
            }
        }
    }
}

fn dispatch_typing(b: &proto::EventBody, interner: &mut IdInterner, out: &mut Vec<InboundEvent>)
    ensures
        feed(*final(interner), final(out)@) == after_typing(*b, feed(*old(interner), old(out)@)),
{
    if let Some(t) = &b.typing_state_changed_event {
        let user = user_name(&t.user_id);
        let user = text_or_empty(&user);
        let space = match &t.context {
            Some(c) => match group_raw(&c.group_id) {
                Some(s) => s.clone(),
                None => String::new(),
            },
            None => String::new(),
        };
        let space_id = intern_space(interner, space.as_str());
        let user_id = intern_user(interner, user.as_str());
        let state: i32 = match t.state {
            Some(n) => n,
            None => 0,
        };
        if state == 1 {
            emit(
                out,
                InboundEvent::TypingStarted {
                    space_id,
                    user_id,
                    timestamp: time_from(t.start_timestamp_usec),
                },
            );
        } else if state == 2 {
            emit(out, InboundEvent::TypingStopped { space_id, user_id });
        }
    }
}

fn dispatch_deleted(b: &proto::EventBody, interner: &mut IdInterner, out: &mut Vec<InboundEvent>)
    ensures
        feed(*final(interner), final(out)@) == after_deleted(*b, feed(*old(interner), old(out)@)),
{
    if let Some(d) = &b.message_deleted {
        if d.message_id.is_some() {
            let name = message_name(&d.message_id);
            let name = text_or_empty(&name);
            let space = message_space(&d.message_id);
            let space_id = intern_space(interner, space.as_str());
            let message_id = MessageId(interner.intern(name.as_str()));
            emit(out, InboundEvent::MessageDeleted { space_id, message_id });
        }
    }
}

fn emit_reactions(
    id: &Option<proto::MessageId>,
    list: Vec<Reaction>,
    interner: &mut IdInterner,
    out: &mut Vec<InboundEvent>,
)
    ensures
        feed(*final(interner), final(out)@) == with_reactions(
            *id,
            reactions(list@),
            feed(*old(interner), old(out)@),
        ),
{
    let name = message_name(id);
    let name = text_or_empty(&name);
    let space = message_space(id);
    let space_id = intern_space(interner, space.as_str());
    let message_id = MessageId(interner.intern(name.as_str()));
    emit(out, InboundEvent::ReactionUpdated { space_id, message_id, reactions: list });
}

fn dispatch_reaction(b: &proto::EventBody, interner: &mut IdInterner, out: &mut Vec<InboundEvent>)
    ensures
        feed(*final(interner), final(out)@) == after_reaction(*b, feed(*old(interner), old(out)@)),
{
    if let Some(r) = &b.message_reaction {
        if r.message_id.is_some() {
            let added = match r.option {
                Some(n) => n == 1,
                None => false,
            };
            let x = Reaction {
                emoji: emoji_or_question(&r.emoji),
                count: if added {
                    1
                } else {
                    0
                },
                includes_self: added,
            };
            let ghost v = x@;
            let mut list: Vec<Reaction> = Vec::new();
            list.push(x);
            proof {
                assert(reactions(list@) =~= seq![v]);
            }
            emit_reactions(&r.message_id, list, interner, out);
        }
    }
}

fn dispatch_summary(b: &proto::EventBody, interner: &mut IdInterner, out: &mut Vec<InboundEvent>)
    ensures
        feed(*final(interner), final(out)@) == after_summary(*b, feed(*old(interner), old(out)@)),
{
    if let Some(s) = &b.message_reactions_summary {
        if s.message_id.is_some() {
            let list = summary_reactions(&s.reaction_summary);
            emit_reactions(&s.message_id, list, interner, out);
        }
    }
}

fn dispatch_read(b: &proto::EventBody, interner: &mut IdInterner, out: &mut Vec<InboundEvent>)
    ensures
        feed(*final(interner), final(out)@) == after_read(*b, feed(*old(interner), old(out)@)),
{
    if let Some(e) = &b.group_read_state_updated_event {
        if e.group_id.is_some() {
            let space = match group_raw(&e.group_id) {
                Some(s) => s.clone(),
                None => String::new(),
            };
            let space_id = intern_space(interner, space.as_str());
            emit(
                out,
                InboundEvent::ReadStateUpdated {
                    space_id,
                    last_read: time_from(e.most_recent_read_time),
                    unread_count: 0,
                },
            );
        }
    }
}

fn dispatch_group(b: &proto::EventBody, interner: &mut IdInterner, out: &mut Vec<InboundEvent>)
    ensures
        feed(*final(interner), final(out)@) == after_group(*b, feed(*old(interner), old(out)@)),
{
    if let Some(e) = &b.group_updated {
        if let Some(g) = &e.group {
            if let Some(space) = proto_group_to_space(g, interner) {
                emit(out, InboundEvent::SpaceUpdated { space });
            }
        }
    }
}

fn dispatch_status(b: &proto::EventBody, interner: &mut IdInterner, out: &mut Vec<InboundEvent>)
    ensures
        feed(*final(interner), final(out)@) == after_status(*b, feed(*old(interner), old(out)@)),
{
    if let Some(e) = &b.user_status_updated_event {
        if let Some(s) = &e.user_status {
            let user = user_name(&s.user_id);
            let user = text_or_empty(&user);
            if !user.as_str().is_empty() {
                let dnd: Option<i32> = match &s.dnd_settings {
                    Some(d) => d.dnd_state,
                    None => None,
                };
                let presence = match dnd {
                    Some(n) => if n == 2 {
                        PresenceStatus::Dnd
                    } else if n == 1 {
                        PresenceStatus::Active
                    } else {
                        PresenceStatus::Unknown
                    },
                    None => PresenceStatus::Unknown,
                };
                let user_id = intern_user(interner, user.as_str());
                emit(out, InboundEvent::PresenceChanged { user_id, presence });
            }
        }
    }
}

fn dispatch_membership(b: &proto::EventBody, interner: &mut IdInterner, out: &mut Vec<InboundEvent>)
    ensures
        feed(*final(interner), final(out)@) == after_membership(*b, feed(*old(interner), old(out)@)),
{
    if let Some(e) = &b.membership_changed {
        if let Some(m) = &e.new_membership {
            if let Some(i) = &m.id {
                let user = match &i.member_id {
                    Some(x) => user_name(&x.user_id),
                    None => None,
                };
                let user = text_or_empty(&user);
                let space = match group_raw(&i.group_id) {
                    Some(s) => s.clone(),
                    None => match &i.space_id {
                        Some(s) => text_or_empty(&s.space_id),
                        None => String::new(),
                    },
                };
                if !user.as_str().is_empty() && !space.as_str().is_empty() {
                    let state = match m.membership_state {
                        Some(n) => if n == 2 {
                            MembershipState::Joined
                        } else if n == 1 {
                            MembershipState::Invited
                        } else if n == 3 {
                            MembershipState::Left
                        } else {
                            MembershipState::Unknown
                        },
                        None => MembershipState::Unknown,
                    };
                    let role = match m.membership_role {
                        Some(n) => if n == 2 {
                            MemberRole::Invitee
                        } else if n == 3 {
                            MemberRole::Member
                        } else if n == 4 {
                            MemberRole::Owner
                        } else if n == 6 {
                            MemberRole::Manager
                        } else {
                            MemberRole::Unknown
                        },
                        None => MemberRole::Unknown,
                    };
                    let space_id = intern_space(interner, space.as_str());
                    let user_id = intern_user(interner, user.as_str());
                    emit(out, InboundEvent::MembershipChanged { space_id, user_id, state, role });
                }
            }
        }
    }
}

fn dispatch_topic(b: &proto::EventBody, interner: &mut IdInterner, out: &mut Vec<InboundEvent>)
    ensures
        feed(*final(interner), final(out)@) == after_topic(*b, feed(*old(interner), old(out)@)),
{
    if let Some(e) = &b.topic_created {
        if let Some(t) = &e.topic {
            let space = match &t.id {
                Some(x) => match group_raw(&x.group_id) {
                    Some(s) => s.clone(),
                    None => String::new(),
                },
                None => String::new(),
            };
            let space_id = intern_space(interner, space.as_str());
            let ghost f0 = feed(*interner, out@);
            let mut i: usize = 0;
            while i < t.replies.len()
                invariant
                    i <= t.replies@.len(),
                    feed(*interner, out@) == after_replies(
                        t.replies@.take(i as int),
                        space@,
                        space_id,
                        f0,
                    ),
                decreases t.replies@.len() - i,
            {
                let m = &t.replies[i];
                proof {
                    assert(t.replies@.take(i + 1).drop_last() =~= t.replies@.take(i as int));
                    assert(t.replies@.take(i + 1).last() == *m);
                }
                let (rspace, rtopic, rname) = extract_message_ids(m);
                if let Some(message) = proto_to_message_owned(m, space_id, interner) {
                    emit(
                        out,
                        InboundEvent::MessagePosted {
                            message,
                            space_id_raw: if rspace.as_str().is_empty() {
                                space.clone()
                            } else {
                                rspace
                            },
                            topic_id_raw: non_empty(rtopic),
                            message_id_raw: rname,
                        },
                    );
                }
                i += 1;
            }
            proof {
                assert(t.replies@.take(t.replies@.len() as int) =~= t.replies@);
            }
        }
    }
}

fn is_recognized(b: &proto::EventBody) -> (r: bool)
    ensures
        r == recognized(*b),
{
    b.message_posted.is_some() || b.message_deleted.is_some() || b.message_reaction.is_some()
        || b.message_reactions_summary.is_some() || b.typing_state_changed_event.is_some()
        || b.group_read_state_updated_event.is_some() || b.topic_created.is_some()
        || b.membership_changed.is_some() || b.group_updated.is_some() || b.group_viewed
        || b.user_status_updated_event.is_some() || b.read_receipt_changed
        || b.web_push_notification
}

/// What the sorts of event not known are behind a body.
pub open spec fn noted(b: proto::EventBody, s: Set<i32>) -> Set<i32> {
    let t = match b.event_type {
        Some(n) => n,
        None => 0,
    };
    if !recognized(b) && 0 <= t < 128 {
        s.insert(t)
    } else {
        s
    }
}

/// Gives out the events in a body. A body of no sort that is known gives out
/// nothing and is noted.
pub fn dispatch_body(
    body: &proto::EventBody,
    interner: &mut IdInterner,
    out: &mut Vec<InboundEvent>,
    uncovered: &mut Uncovered,
)
    ensures
        feed(*final(interner), final(out)@) == dispatched(*body, feed(*old(interner), old(out)@)),
        final(uncovered)@ == noted(*body, old(uncovered)@),
{
    dispatch_posted(body, interner, out);
    dispatch_typing(body, interner, out);
    dispatch_deleted(body, interner, out);
    dispatch_reaction(body, interner, out);
    dispatch_summary(body, interner, out);
    dispatch_read(body, interner, out);
    dispatch_group(body, interner, out);
    dispatch_status(body, interner, out);
    dispatch_membership(body, interner, out);
    dispatch_topic(body, interner, out);
    if !is_recognized(body) {
        let t: i32 = match body.event_type {
            Some(n) => n,
            None => 0,
        };
        uncovered.record(t);
    }
}

/// What the sorts of event not known are behind a list of bodies.
pub open spec fn noted_all(bs: Seq<proto::EventBody>, s: Set<i32>) -> Set<i32>
    decreases bs.len(),
{
    if bs.len() == 0 {
        s
    } else {
        noted(bs.last(), noted_all(bs.drop_last(), s))
    }
}

/// Gives out the events in all bodies of an event of the channel.
pub fn extract_events(
    event: &proto::Event,
    interner: &mut IdInterner,
    out: &mut Vec<InboundEvent>,
    uncovered: &mut Uncovered,
)
    ensures
        feed(*final(interner), final(out)@) == dispatched_all(
            all_bodies(*event),
            feed(*old(interner), old(out)@),
        ),
        final(uncovered)@ == noted_all(all_bodies(*event), old(uncovered)@),
{
    let ghost f0 = feed(*interner, out@);
    let ghost u0 = uncovered@;
    let ghost all = all_bodies(*event);
    let ghost off: int = if event.body is Some {
        1
    } else {
        0
    };
    proof {
        assert(all.take(0) =~= Seq::empty());
    }
    if let Some(b) = &event.body {
        dispatch_body(b, interner, out, uncovered);
        proof {
            assert(all.take(1).drop_last() =~= all.take(0));
            assert(all.take(1).last() == *b);
            reveal_with_fuel(dispatched_all, 2);
            reveal_with_fuel(noted_all, 2);
        }
    }
    let mut k: usize = 0;
    while k < event.bodies.len()
        invariant
            k <= event.bodies@.len(),
            all == all_bodies(*event),
            off == if event.body is Some {
                1int
            } else {
                0
            },
            feed(*interner, out@) == dispatched_all(all.take(off + k), f0),
            uncovered@ == noted_all(all.take(off + k), u0),
        decreases event.bodies@.len() - k,
    {
        proof {
            assert(all.take(off + k + 1).drop_last() =~= all.take(off + k));
            assert(all.take(off + k + 1).last() == event.bodies@[k as int]);
        }
        dispatch_body(&event.bodies[k], interner, out, uncovered);
        k += 1;
    }
    proof {
        assert(all.take(off + event.bodies@.len()) =~= all);
    }
}

// ───────────────────────── laws ─────────────────────────

/// A body of no sort that is known gives out nothing and interns nothing.
pub proof fn law_unknown_gives_nothing(b: proto::EventBody, f: Feed)
    requires
        !recognized(b),
    ensures
        dispatched(b, f) == f,
{
}

/// `g` holds the events of `f` and then others.
pub open spec fn extends(f: Feed, g: Feed) -> bool {
    f.events.len() <= g.events.len() && g.events.take(f.events.len() as int) == f.events
}

proof fn lemma_extends_trans(f: Feed, g: Feed, h: Feed)
    requires
        extends(f, g),
        extends(g, h),
    ensures
        extends(f, h),
{
    assert(h.events.take(f.events.len() as int) =~= h.events.take(g.events.len() as int).take(
        f.events.len() as int,
    ));
}

proof fn lemma_extends_push(f: Feed, p: Pool, e: EventV)
    ensures
        extends(f, f),
        extends(f, (Feed { pool: p, events: f.events })),
        extends(f, (Feed { pool: p, events: f.events.push(e) })),
{
    assert(f.events.take(f.events.len() as int) =~= f.events);
    assert(f.events.push(e).take(f.events.len() as int) =~= f.events);
}

proof fn lemma_steps_extend(b: proto::EventBody, f: Feed)
    ensures
        extends(f, after_posted(b, f)),
        extends(f, after_typing(b, f)),
        extends(f, after_deleted(b, f)),
        extends(f, after_reaction(b, f)),
        extends(f, after_summary(b, f)),
{
    assert forall|p: Pool, e: EventV|
        extends(f, f) && #[trigger] extends(f, (Feed { pool: p, events: f.events.push(e) })) by {
        lemma_extends_push(f, p, e);
    }
    assert forall|p: Pool| #[trigger] extends(f, (Feed { pool: p, events: f.events })) by {
        assert(f.events.take(f.events.len() as int) =~= f.events);
    }
    assert(extends(f, f)) by {
        assert(f.events.take(f.events.len() as int) =~= f.events);
    }
}

proof fn lemma_more_steps_extend(b: proto::EventBody, f: Feed)
    ensures
        extends(f, after_read(b, f)),
        extends(f, after_group(b, f)),
        extends(f, after_status(b, f)),
        extends(f, after_membership(b, f)),
        extends(f, after_topic(b, f)),
{
    assert forall|p: Pool, e: EventV|
        extends(f, f) && #[trigger] extends(f, (Feed { pool: p, events: f.events.push(e) })) by {
        lemma_extends_push(f, p, e);
    }
    assert(extends(f, f)) by {
        assert(f.events.take(f.events.len() as int) =~= f.events);
    }
    match b.topic_created {
        Some(e) => match e.topic {
            Some(t) => {
                let space = or_empty(topic_group(t.id));
                lemma_replies_add(
                    t.replies@,
                    space,
                    space_named(f.pool, space),
                    Feed { pool: with(f.pool, space), ..f },
                );
            },
            None => {},
        },
        None => {},
    }
}

/// Events are only ever added, behind those given out before.
pub proof fn law_events_are_added(b: proto::EventBody, f: Feed)
    ensures
        extends(f, dispatched(b, f)),
{
    let f1 = after_posted(b, f);
    let f2 = after_typing(b, f1);
    let f3 = after_deleted(b, f2);
    let f4 = after_reaction(b, f3);
    let f5 = after_summary(b, f4);
    let f6 = after_read(b, f5);
    let f7 = after_group(b, f6);
    let f8 = after_status(b, f7);
    let f9 = after_membership(b, f8);
    let f10 = after_topic(b, f9);
    lemma_steps_extend(b, f);
    lemma_steps_extend(b, f1);
    lemma_steps_extend(b, f2);
    lemma_steps_extend(b, f3);
    lemma_steps_extend(b, f4);
    lemma_more_steps_extend(b, f5);
    lemma_more_steps_extend(b, f6);
    lemma_more_steps_extend(b, f7);
    lemma_more_steps_extend(b, f8);
    lemma_more_steps_extend(b, f9);
    lemma_extends_trans(f, f1, f2);
    lemma_extends_trans(f, f2, f3);
    lemma_extends_trans(f, f3, f4);
    lemma_extends_trans(f, f4, f5);
    lemma_extends_trans(f, f5, f6);
    lemma_extends_trans(f, f6, f7);
    lemma_extends_trans(f, f7, f8);
    lemma_extends_trans(f, f8, f9);
    lemma_extends_trans(f, f9, f10);
}

proof fn lemma_replies_add(replies: Seq<proto::Message>, space: Seq<char>, id: SpaceId, f: Feed)
    ensures
        extends(f, after_replies(replies, space, id, f)),
    decreases replies.len(),
{
    if replies.len() > 0 {
        lemma_replies_add(replies.drop_last(), space, id, f);
        let g = after_replies(replies.drop_last(), space, id, f);
        let h = after_replies(replies, space, id, f);
        assert(h.events.take(f.events.len() as int) =~= g.events.take(f.events.len() as int));
    } else {
        assert(f.events.take(f.events.len() as int) =~= f.events);
    }
}

/// The author of a message that was posted is the one that the service names, and
/// the text is the text that the service gave.
pub proof fn law_posted_message_is_the_services(m: proto::Message, space: SpaceId, pool: Pool)
    requires
        message_text(m.id) is Some,
    ensures
        live_message(m, space, pool).1 matches Some(v) && v.space_id == space && v.text == or_empty(
            text_opt(m.text_body),
        ) && (creator_text(m.creator) matches Some(a) ==> v.sender == user_named(pool, a)),
{
}

} // verus!
