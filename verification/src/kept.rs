//! What a store keeps: each event changes what it is about, as it says, and nothing else.
use vstd::prelude::*;

use crate::event::inbound::EventV;
use crate::store::{
    ingested, key_lt, key_of, messages_of, names, ordered, reacted, spaces_of, with_history,
    with_spaces, with_users, Key, StoreV,
};
use crate::types::ids::{MessageId, PlatformId, SpaceId, UserId};
use crate::types::message::{MessageV, ReactionV};
use crate::types::space::{PresenceStatus, SpaceV, UserV};
use crate::types::timestamp::Timestamp;

verus! {

// ───────────────────────── what stays ─────────────────────────

/// All spaces but this one are as they were.
pub open spec fn other_spaces_stay(s: StoreV, t: StoreV, space: SpaceId) -> bool {
    forall|id: SpaceId|
        id != space ==> (#[trigger] t.spaces.dom().contains(id) <==> s.spaces.dom().contains(id))
            && (s.spaces.dom().contains(id) ==> t.spaces[id] == s.spaces[id])
}

/// All messages but the one with this key are as they were.
pub open spec fn other_messages_stay(s: StoreV, t: StoreV, key: Key) -> bool {
    forall|k: Key|
        k != key ==> (#[trigger] t.messages.dom().contains(k) <==> s.messages.dom().contains(k)) && (
        s.messages.dom().contains(k) ==> t.messages[k] == s.messages[k])
}

/// All users but this one are as they were.
pub open spec fn other_users_stay(s: StoreV, t: StoreV, user: UserId) -> bool {
    forall|id: UserId|
        id != user ==> (#[trigger] t.users.dom().contains(id) <==> s.users.dom().contains(id)) && (
        s.users.dom().contains(id) ==> t.users[id] == s.users[id])
}

/// `q` is the space `p` but for its times.
pub open spec fn only_times_differ(p: SpaceV, q: SpaceV) -> bool {
    &&& q.id == p.id
    &&& q.name == p.name
    &&& q.kind == p.kind
    &&& q.platform == p.platform
    &&& q.unread_count == p.unread_count
    &&& q.typing_users == p.typing_users
}

/// `q` is the space `p` but for those who are typing.
pub open spec fn only_typing_differs(p: SpaceV, q: SpaceV) -> bool {
    &&& q.id == p.id
    &&& q.name == p.name
    &&& q.kind == p.kind
    &&& q.platform == p.platform
    &&& q.unread_count == p.unread_count
    &&& q.last_activity == p.last_activity
    &&& q.sort_timestamp == p.sort_timestamp
}

// ───────────────────────── messages ─────────────────────────

/// A message that was posted is kept as it came, and no other message changes. Its space, if
/// it is known and had no later activity, takes the time of the message, both as the time of
/// its last activity and as the time by which it is listed, and so stands before every space
/// with an older time. A message that is no news leaves the times.
pub proof fn law_a_new_message_moves_its_space_up(
    s: StoreV,
    m: MessageV,
    space_id_raw: Seq<char>,
    topic_id_raw: Option<Seq<char>>,
    message_id_raw: Seq<char>,
    t: StoreV,
)
    requires
        ingested(
            s,
            (EventV::MessagePosted { message: m, space_id_raw, topic_id_raw, message_id_raw }),
            t,
        ),
    ensures
        t.messages.dom().contains((m.space_id, m.timestamp, m.id)),
        t.messages[(m.space_id, m.timestamp, m.id)] == m,
        other_messages_stay(s, t, (m.space_id, m.timestamp, m.id)),
        other_spaces_stay(s, t, m.space_id),
        t.users == s.users,
        t.self_users == s.self_users,
        t.spaces.dom().contains(m.space_id) <==> s.spaces.dom().contains(m.space_id),
        s.spaces.dom().contains(m.space_id) ==> {
            let p = s.spaces[m.space_id];
            let q = t.spaces[m.space_id];
            &&& only_times_differ(p, q)
            &&& if p.last_activity.0 < m.timestamp.0 {
                &&& q.last_activity == m.timestamp
                &&& q.sort_timestamp == m.timestamp
                &&& exists|i: int|
                    0 <= i < t.order.len() && #[trigger] t.order[i] == m.space_id && forall|j: int|
                        0 <= j < t.order.len() && t.spaces[#[trigger] t.order[j]].sort_timestamp.0
                            < m.timestamp.0 ==> i < j
            } else {
                q.last_activity == p.last_activity && q.sort_timestamp == p.sort_timestamp
            }
        },
{
    if s.spaces.dom().contains(m.space_id) {
        let i = t.order.index_of(m.space_id);
        assert(t.spaces.dom().contains(m.space_id));
        assert(t.order.contains(m.space_id));
        assert(t.order[i] == m.space_id);
        if s.spaces[m.space_id].last_activity.0 < m.timestamp.0 {
            assert forall|j: int|
                0 <= j < t.order.len() && t.spaces[#[trigger] t.order[j]].sort_timestamp.0
                    < m.timestamp.0 implies i < j by {
                if j < i {
                    assert(t.spaces[t.order[j]].sort_timestamp.0
                        >= t.spaces[t.order[i]].sort_timestamp.0);
                }
            }
        }
    }
}

/// A message that was edited is kept as it now is, once, in place of all of its name in its
/// space. No other message changes, and nothing besides the messages does.
pub proof fn law_an_edit_changes_one_message(
    s: StoreV,
    m: MessageV,
    space_id_raw: Seq<char>,
    topic_id_raw: Option<Seq<char>>,
    message_id_raw: Seq<char>,
    t: StoreV,
)
    requires
        ingested(
            s,
            (EventV::MessageEdited { message: m, space_id_raw, topic_id_raw, message_id_raw }),
            t,
        ),
    ensures
        t.messages.dom().contains((m.space_id, m.timestamp, m.id)),
        t.messages[(m.space_id, m.timestamp, m.id)] == m,
        forall|k: Key|
            k.0 == m.space_id && k.2 == m.id && k.1 != m.timestamp ==> !(
            #[trigger] t.messages.dom().contains(k)),
        forall|k: Key|
            !(k.0 == m.space_id && k.2 == m.id) ==> (#[trigger] t.messages.dom().contains(k)
                <==> s.messages.dom().contains(k)) && (s.messages.dom().contains(k) ==> t.messages[k]
                == s.messages[k]),
        t.spaces == s.spaces && t.users == s.users && t.self_users == s.self_users && t.order
            == s.order,
{
}

/// A message that was deleted is gone, no other message changes, and nothing besides the
/// messages does.
pub proof fn law_a_deletion_takes_one_message(
    s: StoreV,
    space: SpaceId,
    id: MessageId,
    t: StoreV,
)
    requires
        ingested(s, (EventV::MessageDeleted { space_id: space, message_id: id }), t),
    ensures
        forall|k: Key|
            k.0 == space && k.2 == id ==> !(#[trigger] t.messages.dom().contains(k)),
        forall|k: Key|
            !(k.0 == space && k.2 == id) ==> (#[trigger] t.messages.dom().contains(k)
                <==> s.messages.dom().contains(k)) && (s.messages.dom().contains(k) ==> t.messages[k]
                == s.messages[k]),
        t.spaces == s.spaces && t.users == s.users && t.self_users == s.self_users && t.order
            == s.order,
{
}

/// New reactions are those that come, on the message of that name, whose text, author and
/// time stay. No other message changes, and nothing besides the messages does.
pub proof fn law_reactions_are_replaced(
    s: StoreV,
    space: SpaceId,
    id: MessageId,
    r: Seq<ReactionV>,
    t: StoreV,
    key: Key,
)
    requires
        ingested(s, (EventV::ReactionUpdated { space_id: space, message_id: id, reactions: r }), t),
        s.messages.dom().contains(key),
        key.0 == space && key.2 == id,
        forall|k: Key| #[trigger]
            s.messages.dom().contains(k) && k.0 == space && k.2 == id ==> k == key,
    ensures
        t.messages.dom().contains(key),
        t.messages[key].reactions == r,
        t.messages[key] == (MessageV { reactions: r, ..s.messages[key] }),
        other_messages_stay(s, t, key),
        t.spaces == s.spaces && t.users == s.users && t.self_users == s.self_users && t.order
            == s.order,
{
    assert(names(key, space, id));
    assert(reacted(s.messages, space, id, r, t.messages));
}

/// The place of the first message with this key in a piece of history.
pub open spec fn first_at(space: SpaceId, h: Seq<MessageV>, k: Key, i: int) -> bool {
    &&& 0 <= i < h.len()
    &&& k == (space, h[i].timestamp, h[i].id)
    &&& forall|j: int| 0 <= j < i ==> k != (space, (#[trigger] h[j]).timestamp, h[j].id)
}

proof fn lemma_history(m: Map<Key, MessageV>, space: SpaceId, h: Seq<MessageV>)
    ensures
        forall|k: Key| #[trigger]
            m.dom().contains(k) ==> with_history(m, space, h).dom().contains(k) && with_history(
                m,
                space,
                h,
            )[k] == m[k],
        forall|k: Key, i: int| #[trigger]
            first_at(space, h, k, i) && !m.dom().contains(k) ==> with_history(
                m,
                space,
                h,
            ).dom().contains(k) && with_history(m, space, h)[k] == h[i],
        forall|k: Key| #[trigger]
            with_history(m, space, h).dom().contains(k) ==> m.dom().contains(k) || exists|i: int|
                #[trigger] first_at(space, h, k, i),
    decreases h.len(),
{
    if h.len() > 0 {
        let front = h.drop_last();
        let n = h.len() - 1;
        let before = with_history(m, space, front);
        let now = with_history(m, space, h);
        lemma_history(m, space, front);
        assert forall|k: Key, i: int| #[trigger]
            first_at(space, h, k, i) && !m.dom().contains(k) implies now.dom().contains(k) && now[k]
            == h[i] by {
            if i < n {
                assert(front[i] == h[i]);
                assert forall|j: int| 0 <= j < i implies k != (
                    space,
                    (#[trigger] front[j]).timestamp,
                    front[j].id,
                ) by {
                    assert(front[j] == h[j]);
                }
                assert(first_at(space, front, k, i));
            } else {
                assert(h[n] == h.last());
                if before.dom().contains(k) {
                    let j = choose|j: int| #[trigger] first_at(space, front, k, j);
                    assert(front[j] == h[j]);
                }
            }
        }
        assert forall|k: Key| #[trigger] now.dom().contains(k) && !m.dom().contains(k) implies exists|
            i: int,
        | #[trigger] first_at(space, h, k, i) by {
            if before.dom().contains(k) {
                let i = choose|i: int| #[trigger] first_at(space, front, k, i);
                assert(front[i] == h[i]);
                assert forall|j: int| 0 <= j < i implies k != (
                    space,
                    (#[trigger] h[j]).timestamp,
                    h[j].id,
                ) by {
                    assert(front[j] == h[j]);
                }
                assert(first_at(space, h, k, i));
            } else {
                assert forall|j: int| 0 <= j < n implies k != (
                    space,
                    (#[trigger] h[j]).timestamp,
                    h[j].id,
                ) by {
                    if k == (space, h[j].timestamp, h[j].id) {
                        lemma_first(space, front, k, j);
                    }
                }
                assert(h[n] == h.last());
                assert(first_at(space, h, k, n));
            }
        }
    }
}

proof fn lemma_first(space: SpaceId, h: Seq<MessageV>, k: Key, j: int)
    requires
        0 <= j < h.len(),
        k == (space, h[j].timestamp, h[j].id),
    ensures
        exists|i: int| #[trigger] first_at(space, h, k, i),
    decreases j,
{
    if exists|l: int| 0 <= l < j && k == (space, (#[trigger] h[l]).timestamp, h[l].id) {
        let l = choose|l: int| 0 <= l < j && k == (space, (#[trigger] h[l]).timestamp, h[l].id);
        lemma_first(space, h, k, l);
    } else {
        assert(first_at(space, h, k, j));
    }
}

/// A piece of history adds each of its messages that is not there yet, as it came, and adds
/// and changes nothing else.
pub proof fn law_history_is_taken_in(
    s: StoreV,
    space: SpaceId,
    h: Seq<MessageV>,
    has_more: bool,
    t: StoreV,
)
    requires
        ingested(s, (EventV::HistoryChunk { space_id: space, messages: h, has_more }), t),
    ensures
        forall|k: Key| #[trigger]
            s.messages.dom().contains(k) ==> t.messages.dom().contains(k) && t.messages[k]
                == s.messages[k],
        forall|k: Key, i: int| #[trigger]
            first_at(space, h, k, i) && !s.messages.dom().contains(k) ==> t.messages.dom().contains(k)
                && t.messages[k] == h[i],
        forall|k: Key| #[trigger]
            t.messages.dom().contains(k) ==> s.messages.dom().contains(k) || exists|i: int|
                #[trigger] first_at(space, h, k, i),
        t.spaces == s.spaces && t.users == s.users && t.self_users == s.self_users && t.order
            == s.order,
{
    lemma_history(s.messages, space, h);
}

// ───────────────────────── spaces ─────────────────────────

/// A space that was changed is kept as it now is, and nothing but that space and the order
/// of the spaces changes.
pub proof fn law_a_changed_space_is_kept(s: StoreV, space: SpaceV, t: StoreV)
    requires
        ingested(s, (EventV::SpaceUpdated { space }), t),
    ensures
        t.spaces.dom().contains(space.id),
        t.spaces[space.id] == space,
        other_spaces_stay(s, t, space.id),
        t.messages == s.messages && t.users == s.users && t.self_users == s.self_users,
{
}

/// At this place the list names this space for the last time.
pub open spec fn last_space(list: Seq<SpaceV>, i: int) -> bool {
    0 <= i < list.len() && forall|j: int|
        i < j < list.len() ==> (#[trigger] list[j]).id != list[i].id
}

/// The list does not name this space.
pub open spec fn no_space(list: Seq<SpaceV>, id: SpaceId) -> bool {
    forall|j: int| 0 <= j < list.len() ==> (#[trigger] list[j]).id != id
}

proof fn lemma_last_space(m: Map<SpaceId, SpaceV>, list: Seq<SpaceV>, i: int)
    requires
        last_space(list, i),
    ensures
        with_spaces(m, list).dom().contains(list[i].id),
        with_spaces(m, list)[list[i].id] == list[i],
    decreases list.len(),
{
    let front = list.drop_last();
    let n = list.len() - 1;
    if i < n {
        assert(list[n].id != list[i].id);
        assert(front[i] == list[i]);
        assert forall|j: int| i < j < front.len() implies (#[trigger] front[j]).id != front[i].id by {
            assert(front[j] == list[j]);
        }
        lemma_last_space(m, front, i);
    }
}

proof fn lemma_no_space(m: Map<SpaceId, SpaceV>, list: Seq<SpaceV>, id: SpaceId)
    requires
        no_space(list, id),
    ensures
        with_spaces(m, list).dom().contains(id) <==> m.dom().contains(id),
        m.dom().contains(id) ==> with_spaces(m, list)[id] == m[id],
    decreases list.len(),
{
    if list.len() > 0 {
        let front = list.drop_last();
        assert(list[list.len() - 1].id != id);
        assert forall|j: int| 0 <= j < front.len() implies (#[trigger] front[j]).id != id by {
            assert(front[j] == list[j]);
        }
        lemma_no_space(m, front, id);
    }
}

/// The start of a session keeps every space that it lists, as it lists it, and the signed-in
/// user, under that user's name and as the user of the service. Spaces that it does not list
/// stay, and so do the messages, the other users and those signed in on other services.
pub proof fn law_the_world_is_taken_in(
    s: StoreV,
    platform: PlatformId,
    list: Seq<SpaceV>,
    me: UserV,
    t: StoreV,
)
    requires
        ingested(s, (EventV::WorldSync { platform, spaces: list, self_user: me }), t),
    ensures
        forall|i: int| #[trigger]
            last_space(list, i) ==> t.spaces.dom().contains(list[i].id) && t.spaces[list[i].id]
                == list[i],
        forall|id: SpaceId| #[trigger]
            no_space(list, id) ==> (t.spaces.dom().contains(id) <==> s.spaces.dom().contains(id)) && (
            s.spaces.dom().contains(id) ==> t.spaces[id] == s.spaces[id]),
        t.users.dom().contains(me.id) && t.users[me.id] == me,
        other_users_stay(s, t, me.id),
        t.self_users.dom().contains(platform) && t.self_users[platform] == me.id,
        forall|p: PlatformId|
            p != platform ==> (#[trigger] t.self_users.dom().contains(p)
                <==> s.self_users.dom().contains(p)) && (s.self_users.dom().contains(p)
                ==> t.self_users[p] == s.self_users[p]),
        t.messages == s.messages,
{
    assert forall|i: int| #[trigger] last_space(list, i) implies t.spaces.dom().contains(list[i].id)
        && t.spaces[list[i].id] == list[i] by {
        lemma_last_space(s.spaces, list, i);
    }
    assert forall|id: SpaceId| #[trigger] no_space(list, id) implies (t.spaces.dom().contains(id)
        <==> s.spaces.dom().contains(id)) && (s.spaces.dom().contains(id) ==> t.spaces[id]
        == s.spaces[id]) by {
        lemma_no_space(s.spaces, list, id);
    }
}

/// A user who begins to type in a known space is listed there, once, behind those who are
/// typing already, and nothing else changes.
pub proof fn law_a_typist_is_listed_once(
    s: StoreV,
    space: SpaceId,
    user: UserId,
    at: Timestamp,
    t: StoreV,
)
    requires
        ingested(s, (EventV::TypingStarted { space_id: space, user_id: user, timestamp: at }), t),
    ensures
        s.spaces.dom().contains(space) ==> t.spaces.dom().contains(space) && only_typing_differs(
            s.spaces[space],
            t.spaces[space],
        ) && t.spaces[space].typing_users.contains(user) && t.spaces[space].typing_users
            == if s.spaces[space].typing_users.contains(user) {
            s.spaces[space].typing_users
        } else {
            s.spaces[space].typing_users.push(user)
        },
        !s.spaces.dom().contains(space) ==> !t.spaces.dom().contains(space),
        other_spaces_stay(s, t, space),
        t.messages == s.messages && t.users == s.users && t.self_users == s.self_users && t.order
            == s.order,
{
    if s.spaces.dom().contains(space) {
        let u = s.spaces[space].typing_users;
        assert(u.push(user).last() == user);
        assert(u.push(user)[u.len() as int] == user);
    }
}

/// A user who stops typing changes only those who are listed as typing in that space.
pub proof fn law_stopping_changes_the_typists_alone(
    s: StoreV,
    space: SpaceId,
    user: UserId,
    t: StoreV,
)
    requires
        ingested(s, (EventV::TypingStopped { space_id: space, user_id: user }), t),
    ensures
        s.spaces.dom().contains(space) ==> t.spaces.dom().contains(space) && only_typing_differs(
            s.spaces[space],
            t.spaces[space],
        ) && t.spaces[space].typing_users == s.spaces[space].typing_users.filter(
            |u: UserId| u != user,
        ),
        !s.spaces.dom().contains(space) ==> !t.spaces.dom().contains(space),
        other_spaces_stay(s, t, space),
        t.messages == s.messages && t.users == s.users && t.self_users == s.self_users && t.order
            == s.order,
{
    if s.spaces.dom().contains(space) {
        lemma_others_filtered(s.spaces[space].typing_users, user);
    }
}

proof fn lemma_others_filtered(u: Seq<UserId>, user: UserId)
    ensures
        crate::store::others(u, user) == u.filter(|v: UserId| v != user),
    decreases u.len(),
{
    reveal(Seq::filter);
    if u.len() > 0 {
        lemma_others_filtered(u.drop_last(), user);
    }
}

/// What is unread in a known space is what the service says, and nothing else changes.
pub proof fn law_the_unread_are_counted(
    s: StoreV,
    space: SpaceId,
    last_read: Timestamp,
    unread_count: u32,
    t: StoreV,
)
    requires
        ingested(s, (EventV::ReadStateUpdated { space_id: space, last_read, unread_count }), t),
    ensures
        s.spaces.dom().contains(space) ==> t.spaces.dom().contains(space) && t.spaces[space] == (
        SpaceV { unread_count, ..s.spaces[space] }),
        !s.spaces.dom().contains(space) ==> !t.spaces.dom().contains(space),
        other_spaces_stay(s, t, space),
        t.messages == s.messages && t.users == s.users && t.self_users == s.self_users && t.order
            == s.order,
{
}

// ───────────────────────── users ─────────────────────────

/// The presence of a known user is what the service says, and nothing else changes. Of a user
/// who is not known nothing is kept.
pub proof fn law_a_presence_is_kept(
    s: StoreV,
    user: UserId,
    presence: PresenceStatus,
    t: StoreV,
)
    requires
        ingested(s, (EventV::PresenceChanged { user_id: user, presence }), t),
    ensures
        s.users.dom().contains(user) ==> t.users.dom().contains(user) && t.users[user] == (UserV {
            presence,
            ..s.users[user]
        }),
        !s.users.dom().contains(user) ==> !t.users.dom().contains(user),
        other_users_stay(s, t, user),
        t.messages == s.messages && t.spaces == s.spaces && t.self_users == s.self_users && t.order
            == s.order,
{
}

/// At this place the list names this user for the last time.
pub open spec fn last_user(list: Seq<UserV>, i: int) -> bool {
    0 <= i < list.len() && forall|j: int|
        i < j < list.len() ==> (#[trigger] list[j]).id != list[i].id
}

/// The list does not name this user.
pub open spec fn no_user(list: Seq<UserV>, id: UserId) -> bool {
    forall|j: int| 0 <= j < list.len() ==> (#[trigger] list[j]).id != id
}

proof fn lemma_last_user(m: Map<UserId, UserV>, list: Seq<UserV>, i: int)
    requires
        last_user(list, i),
    ensures
        with_users(m, list).dom().contains(list[i].id),
        with_users(m, list)[list[i].id] == list[i],
    decreases list.len(),
{
    let front = list.drop_last();
    let n = list.len() - 1;
    if i < n {
        assert(list[n].id != list[i].id);
        assert(front[i] == list[i]);
        assert forall|j: int| i < j < front.len() implies (#[trigger] front[j]).id != front[i].id by {
            assert(front[j] == list[j]);
        }
        lemma_last_user(m, front, i);
    }
}

proof fn lemma_no_user(m: Map<UserId, UserV>, list: Seq<UserV>, id: UserId)
    requires
        no_user(list, id),
    ensures
        with_users(m, list).dom().contains(id) <==> m.dom().contains(id),
        m.dom().contains(id) ==> with_users(m, list)[id] == m[id],
    decreases list.len(),
{
    if list.len() > 0 {
        let front = list.drop_last();
        assert(list[list.len() - 1].id != id);
        assert forall|j: int| 0 <= j < front.len() implies (#[trigger] front[j]).id != id by {
            assert(front[j] == list[j]);
        }
        lemma_no_user(m, front, id);
    }
}

/// Each user of a list is kept as the list has that user, at the last place where it names
/// the user. The other users stay, and nothing besides the users changes.
pub proof fn law_users_are_taken_in(s: StoreV, list: Seq<UserV>, t: StoreV)
    requires
        ingested(s, (EventV::UsersResolved { users: list }), t),
    ensures
        forall|i: int| #[trigger]
            last_user(list, i) ==> t.users.dom().contains(list[i].id) && t.users[list[i].id]
                == list[i],
        forall|id: UserId| #[trigger]
            no_user(list, id) ==> (t.users.dom().contains(id) <==> s.users.dom().contains(id)) && (
            s.users.dom().contains(id) ==> t.users[id] == s.users[id]),
        t.messages == s.messages && t.spaces == s.spaces && t.self_users == s.self_users && t.order
            == s.order,
{
    assert forall|i: int| #[trigger] last_user(list, i) implies t.users.dom().contains(list[i].id)
        && t.users[list[i].id] == list[i] by {
        lemma_last_user(s.users, list, i);
    }
    assert forall|id: UserId| #[trigger] no_user(list, id) implies (t.users.dom().contains(id)
        <==> s.users.dom().contains(id)) && (s.users.dom().contains(id) ==> t.users[id]
        == s.users[id]) by {
        lemma_no_user(s.users, list, id);
    }
}

/// What tells of the connection or of members alone changes nothing.
pub proof fn law_other_events_change_nothing(s: StoreV, e: EventV, t: StoreV)
    requires
        ingested(s, e, t),
        e is Connected || e is Disconnected || e is Reconnecting || e is MembershipChanged,
    ensures
        t == s,
{
}

// ───────────────────────── reading ─────────────────────────

/// The messages of a space are read in the order of their times, from the oldest to the
/// newest, each once. Every message of the space is among them, and no message of another.
pub proof fn law_messages_are_read_by_time(s: StoreV, space: SpaceId, r: Seq<MessageV>)
    requires
        messages_of(s.messages, space, r),
    ensures
        forall|i: int, j: int|
            0 <= i < j < r.len() ==> (#[trigger] r[i]).timestamp.0 <= (#[trigger] r[j]).timestamp.0,
        forall|i: int, j: int|
            0 <= i < j < r.len() ==> (#[trigger] r[i]).timestamp != (#[trigger] r[j]).timestamp
                || r[i].id != r[j].id,
        forall|i: int|
            0 <= i < r.len() ==> s.messages.dom().contains(
                (space, (#[trigger] r[i]).timestamp, r[i].id),
            ) && s.messages[(space, r[i].timestamp, r[i].id)] == r[i],
        forall|k: Key| #[trigger]
            s.messages.dom().contains(k) && k.0 == space ==> exists|i: int|
                0 <= i < r.len() && #[trigger] r[i] == s.messages[k],
{
    assert forall|i: int, j: int| 0 <= i < j < r.len() implies (#[trigger] r[i]).timestamp.0 <= (
    #[trigger] r[j]).timestamp.0 by {
        assert(key_lt(key_of(space, r[i]), key_of(space, r[j])));
    }
    assert forall|i: int, j: int| 0 <= i < j < r.len() implies (#[trigger] r[i]).timestamp != (
    #[trigger] r[j]).timestamp || r[i].id != r[j].id by {
        assert(key_lt(key_of(space, r[i]), key_of(space, r[j])));
    }
    assert forall|k: Key| #[trigger] s.messages.dom().contains(k) && k.0 == space implies exists|
        i: int,
    | 0 <= i < r.len() && #[trigger] r[i] == s.messages[k] by {
        assert(r.contains(s.messages[k]));
    }
}

/// The spaces are read with those of the latest time first, each once, and all of them.
pub proof fn law_spaces_are_read_by_activity(s: StoreV)
    requires
        ordered(s.order, s.spaces),
    ensures
        forall|i: int, j: int|
            0 <= i < j < spaces_of(s).len() ==> (#[trigger] spaces_of(s)[i]).sort_timestamp.0 >= (
            #[trigger] spaces_of(s)[j]).sort_timestamp.0,
        spaces_of(s).len() == s.order.len(),
        forall|id: SpaceId| #[trigger]
            s.spaces.dom().contains(id) ==> exists|i: int|
                0 <= i < s.order.len() && #[trigger] s.order[i] == id && spaces_of(s)[i]
                    == s.spaces[id],
        forall|i: int, j: int|
            0 <= i < j < s.order.len() ==> #[trigger] s.order[i] != #[trigger] s.order[j],
        forall|i: int| 0 <= i < s.order.len() ==> s.spaces.dom().contains(#[trigger] s.order[i]),
{
    let r = spaces_of(s);
    assert forall|i: int, j: int| 0 <= i < j < r.len() implies (#[trigger] r[i]).sort_timestamp.0
        >= (#[trigger] r[j]).sort_timestamp.0 by {
        assert(s.spaces[s.order[i]].sort_timestamp.0 >= s.spaces[s.order[j]].sort_timestamp.0);
    }
    assert forall|id: SpaceId| #[trigger] s.spaces.dom().contains(id) implies exists|i: int|
        0 <= i < s.order.len() && #[trigger] s.order[i] == id && r[i] == s.spaces[id] by {
        assert(s.order.contains(id));
        let i = s.order.index_of(id);
        assert(s.order[i] == id);
        assert(r[i] == s.spaces[s.order[i]]);
    }
}

/// A message that was posted is among the messages that are read of its space.
pub proof fn law_what_was_posted_is_read(
    s: StoreV,
    m: MessageV,
    space_id_raw: Seq<char>,
    topic_id_raw: Option<Seq<char>>,
    message_id_raw: Seq<char>,
    t: StoreV,
    r: Seq<MessageV>,
)
    requires
        ingested(
            s,
            (EventV::MessagePosted { message: m, space_id_raw, topic_id_raw, message_id_raw }),
            t,
        ),
        messages_of(t.messages, m.space_id, r),
    ensures
        r.contains(m),
{
    assert(t.messages.dom().contains((m.space_id, m.timestamp, m.id)));
}

/// What was deleted is not read any more.
pub proof fn law_what_was_deleted_is_not_read(
    s: StoreV,
    space: SpaceId,
    id: MessageId,
    t: StoreV,
    r: Seq<MessageV>,
)
    requires
        ingested(s, (EventV::MessageDeleted { space_id: space, message_id: id }), t),
        messages_of(t.messages, space, r),
    ensures
        forall|i: int| 0 <= i < r.len() ==> (#[trigger] r[i]).id != id,
{
    assert forall|i: int| 0 <= i < r.len() implies (#[trigger] r[i]).id != id by {
        assert(t.messages.dom().contains(key_of(space, r[i])));
    }
}

} // verus!
