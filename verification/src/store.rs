//! What is known of the services: spaces, messages and users.
//!
//! All data comes in through [`Store::ingest`], one event at a time, and is read
//! through [`StoreRead`].
use vstd::prelude::*;

use crate::assoc::{
    assoc, has_key, key_index, lemma_entry, lemma_insert, lemma_key, lemma_push, lemma_remove,
    lemma_update, unique,
};
use crate::event::inbound::{EventV, InboundEvent};
use crate::types::ids::{lemma_id_number, IdInterner, MessageId, PlatformId, Pool, SpaceId, UserId};
use crate::types::message::{messages, reactions, Message, MessageV, Reaction, ReactionV};
use crate::types::space::{spaces, users, PresenceStatus, Space, SpaceV, User, UserV};
use crate::types::timestamp::Timestamp;

verus! {

broadcast use lemma_id_number;

// ───────────────────────── keys ─────────────────────────

/// The key of a message: its space, its time and its name.
pub type Key = (SpaceId, Timestamp, MessageId);

pub open spec fn rank(p: PlatformId) -> int {
    match p {
        PlatformId::GoogleChat => 0,
        PlatformId::Slack => 1,
    }
}

/// Keys are ordered by platform, space, time and name.
pub open spec fn key_lt(a: Key, b: Key) -> bool {
    ||| rank(a.0.platform) < rank(b.0.platform)
    ||| a.0.platform == b.0.platform && {
        ||| a.0.id.number() < b.0.id.number()
        ||| a.0.id.number() == b.0.id.number() && {
            ||| a.1.0 < b.1.0
            ||| a.1.0 == b.1.0 && a.2.0.number() < b.2.0.number()
        }
    }
}

fn key_less(a: Key, b: Key) -> (r: bool)
    ensures
        r == key_lt(a, b),
{
    if a.0.platform != b.0.platform {
        return matches!(a.0.platform, PlatformId::GoogleChat);
    }
    if a.0.id.get() != b.0.id.get() {
        return a.0.id.get() < b.0.id.get();
    }
    if a.1.0 != b.1.0 {
        return a.1.0 < b.1.0;
    }
    a.2.0.get() < b.2.0.get()
}

proof fn lemma_key_total(a: Key, b: Key)
    ensures
        key_lt(a, b) || key_lt(b, a) || a == b,
        !(key_lt(a, b) && key_lt(b, a)),
{
    lemma_id_number(a.0.id, b.0.id);
    lemma_id_number(a.2.0, b.2.0);
}

// ───────────────────────── the model ─────────────────────────

/// What a store holds. Messages are keyed by the space that they were received
/// for.
pub ghost struct StoreV {
    pub spaces: Map<SpaceId, SpaceV>,
    pub messages: Map<Key, MessageV>,
    pub users: Map<UserId, UserV>,
    pub self_users: Map<PlatformId, UserId>,
    pub order: Seq<SpaceId>,
}

/// `order` lists the spaces, each once, those with the latest activity first.
pub open spec fn ordered(order: Seq<SpaceId>, s: Map<SpaceId, SpaceV>) -> bool {
    &&& forall|i: int, j: int|
        0 <= i < j < order.len() ==> #[trigger] order[i] != #[trigger] order[j]
    &&& forall|i: int| 0 <= i < order.len() ==> s.dom().contains(#[trigger] order[i])
    &&& forall|id: SpaceId| #[trigger] s.dom().contains(id) ==> order.contains(id)
    &&& forall|i: int, j: int|
        0 <= i < j < order.len() ==> s[#[trigger] order[i]].sort_timestamp.0 >= s[#[trigger]
            order[j]].sort_timestamp.0
}

pub open spec fn with_spaces(m: Map<SpaceId, SpaceV>, s: Seq<SpaceV>) -> Map<SpaceId, SpaceV>
    decreases s.len(),
{
    if s.len() == 0 {
        m
    } else {
        with_spaces(m, s.drop_last()).insert(s.last().id, s.last())
    }
}

pub open spec fn with_users(m: Map<UserId, UserV>, u: Seq<UserV>) -> Map<UserId, UserV>
    decreases u.len(),
{
    if u.len() == 0 {
        m
    } else {
        with_users(m, u.drop_last()).insert(u.last().id, u.last())
    }
}

pub open spec fn key_of(space: SpaceId, m: MessageV) -> Key {
    (space, m.timestamp, m.id)
}

/// The messages with those of a piece of history, which replace none.
pub open spec fn with_history(m: Map<Key, MessageV>, space: SpaceId, h: Seq<MessageV>) -> Map<
    Key,
    MessageV,
>
    decreases h.len(),
{
    if h.len() == 0 {
        m
    } else {
        let before = with_history(m, space, h.drop_last());
        let k = key_of(space, h.last());
        if before.dom().contains(k) {
            before
        } else {
            before.insert(k, h.last())
        }
    }
}

pub open spec fn names(k: Key, space: SpaceId, id: MessageId) -> bool {
    k.0 == space && k.2 == id
}

/// The messages without the one of that name.
pub open spec fn without(m: Map<Key, MessageV>, space: SpaceId, id: MessageId) -> Map<Key, MessageV> {
    Map::new(|k: Key| m.dom().contains(k) && !names(k, space, id), |k: Key| m[k])
}

/// A new value of a space that is there.
pub open spec fn changed_space(
    m: Map<SpaceId, SpaceV>,
    id: SpaceId,
    f: spec_fn(SpaceV) -> SpaceV,
) -> Map<SpaceId, SpaceV> {
    if m.dom().contains(id) {
        m.insert(id, f(m[id]))
    } else {
        m
    }
}

pub open spec fn touched(s: SpaceV, at: Timestamp) -> SpaceV {
    if at.0 > s.last_activity.0 {
        SpaceV { last_activity: at, sort_timestamp: at, ..s }
    } else {
        s
    }
}

pub open spec fn with_typing(s: SpaceV, user: UserId) -> SpaceV {
    if s.typing_users.contains(user) {
        s
    } else {
        SpaceV { typing_users: s.typing_users.push(user), ..s }
    }
}

pub open spec fn others(u: Seq<UserId>, user: UserId) -> Seq<UserId>
    decreases u.len(),
{
    if u.len() == 0 {
        u
    } else if u.last() == user {
        others(u.drop_last(), user)
    } else {
        others(u.drop_last(), user).push(u.last())
    }
}

/// The first message of that name, by time.
pub open spec fn first_named(m: Map<Key, MessageV>, space: SpaceId, id: MessageId, k: Key) -> bool {
    &&& m.dom().contains(k)
    &&& names(k, space, id)
    &&& forall|q: Key|
        #[trigger] m.dom().contains(q) && names(q, space, id) ==> !key_lt(q, k)
}

/// The messages with new reactions on the first one of that name, if there is one.
pub open spec fn reacted(
    m: Map<Key, MessageV>,
    space: SpaceId,
    id: MessageId,
    r: Seq<ReactionV>,
    n: Map<Key, MessageV>,
) -> bool {
    if exists|k: Key| #[trigger] m.dom().contains(k) && names(k, space, id) {
        exists|k: Key| #[trigger]
            first_named(m, space, id, k) && n == m.insert(k, (MessageV { reactions: r, ..m[k] }))
    } else {
        n == m
    }
}

/// What an event makes of a store. Spaces with the same time of activity may come
/// in any order.
pub open spec fn ingested(s: StoreV, e: EventV, t: StoreV) -> bool {
    &&& ordered(t.order, t.spaces)
    &&& match e {
        EventV::WorldSync { platform, spaces, self_user } => {
            &&& t.spaces == with_spaces(s.spaces, spaces)
            &&& t.users == s.users.insert(self_user.id, self_user)
            &&& t.self_users == s.self_users.insert(platform, self_user.id)
            &&& t.messages == s.messages
        },
        EventV::SpaceUpdated { space } => {
            &&& t.spaces == s.spaces.insert(space.id, space)
            &&& t == (StoreV { spaces: t.spaces, order: t.order, ..s })
        },
        EventV::MessagePosted { message, .. } => {
            &&& t.spaces == changed_space(
                s.spaces,
                message.space_id,
                |p: SpaceV| touched(p, message.timestamp),
            )
            &&& t.messages == s.messages.insert(key_of(message.space_id, message), message)
            &&& t.users == s.users
            &&& t.self_users == s.self_users
        },
        EventV::MessageEdited { message, .. } => t == (StoreV {
            messages: without(s.messages, message.space_id, message.id).insert(
                key_of(message.space_id, message),
                message,
            ),
            ..s
        }),
        EventV::MessageDeleted { space_id, message_id } => t == (StoreV {
            messages: without(s.messages, space_id, message_id),
            ..s
        }),
        EventV::TypingStarted { space_id, user_id, .. } => t == (StoreV {
            spaces: changed_space(s.spaces, space_id, |p: SpaceV| with_typing(p, user_id)),
            ..s
        }),
        EventV::TypingStopped { space_id, user_id } => t == (StoreV {
            spaces: changed_space(
                s.spaces,
                space_id,
                |p: SpaceV| SpaceV { typing_users: others(p.typing_users, user_id), ..p },
            ),
            ..s
        }),
        EventV::PresenceChanged { user_id, presence } => t == (StoreV {
            users: if s.users.dom().contains(user_id) {
                s.users.insert(user_id, (UserV { presence, ..s.users[user_id] }))
            } else {
                s.users
            },
            ..s
        }),
        EventV::ReadStateUpdated { space_id, unread_count, .. } => t == (StoreV {
            spaces: changed_space(s.spaces, space_id, |p: SpaceV| SpaceV { unread_count, ..p }),
            ..s
        }),
        EventV::ReactionUpdated { space_id, message_id, reactions } => {
            &&& reacted(s.messages, space_id, message_id, reactions, t.messages)
            &&& t == (StoreV { messages: t.messages, ..s })
        },
        EventV::HistoryChunk { space_id, messages, .. } => t == (StoreV {
            messages: with_history(s.messages, space_id, messages),
            ..s
        }),
        EventV::UsersResolved { users } => t == (StoreV {
            users: with_users(s.users, users),
            ..s
        }),
        _ => t == s,
    }
}

// ───────────────────────── the store ─────────────────────────

/// Everything known of the services.
pub struct Store {
    spaces: Vec<Space>,
    messages: Vec<(SpaceId, Message)>,
    users: Vec<User>,
    pub interner: IdInterner,
    self_users: Vec<(PlatformId, UserId)>,
    space_order: Vec<SpaceId>,
}

pub open spec fn space_entries(v: Seq<Space>) -> Seq<(SpaceId, SpaceV)> {
    v.map_values(|s: Space| (s.id, s@))
}

pub open spec fn user_entries(v: Seq<User>) -> Seq<(UserId, UserV)> {
    v.map_values(|u: User| (u.id, u@))
}

pub open spec fn message_entries(v: Seq<(SpaceId, Message)>) -> Seq<(Key, MessageV)> {
    v.map_values(|e: (SpaceId, Message)| ((e.0, e.1.timestamp, e.1.id), e.1@))
}

pub open spec fn sorted(s: Seq<(Key, MessageV)>) -> bool {
    forall|i: int, j: int|
        0 <= i < j < s.len() ==> key_lt((#[trigger] s[i]).0, (#[trigger] s[j]).0)
}

proof fn lemma_sorted_unique(s: Seq<(Key, MessageV)>)
    requires
        sorted(s),
    ensures
        unique(s),
{
    assert forall|i: int, j: int| 0 <= i < j < s.len() implies (#[trigger] s[i]).0 != (
    #[trigger] s[j]).0 by {
        lemma_key_total(s[i].0, s[j].0);
    }
}

impl View for Store {
    type V = StoreV;

    closed spec fn view(&self) -> StoreV {
        StoreV {
            spaces: assoc(space_entries(self.spaces@)),
            messages: assoc(message_entries(self.messages@)),
            users: assoc(user_entries(self.users@)),
            self_users: assoc(self.self_users@),
            order: self.space_order@,
        }
    }
}

fn find_space(v: &Vec<Space>, id: SpaceId) -> (r: Option<usize>)
    requires
        unique(space_entries(v@)),
    ensures
        match r {
            Some(i) => i < v@.len() && v@[i as int].id == id && assoc(
                space_entries(v@),
            ).dom().contains(id) && assoc(space_entries(v@))[id] == v@[i as int]@,
            None => !assoc(space_entries(v@)).dom().contains(id),
        },
{
    let ghost es = space_entries(v@);
    let mut i: usize = 0;
    while i < v.len()
        invariant
            i <= v@.len(),
            es == space_entries(v@),
            unique(es),
            forall|j: int| 0 <= j < i ==> (#[trigger] es[j]).0 != id,
        decreases v@.len() - i,
    {
        proof {
            assert(es[i as int] == (v@[i as int].id, v@[i as int]@));
        }
        if v[i].id == id {
            proof {
                lemma_entry(es, i as int);
            }
            return Some(i);
        }
        i += 1;
    }
    proof {
        if assoc(es).dom().contains(id) {
            let j = lemma_key(es, id);
            assert(es[j].0 == id);
        }
    }
    None
}

fn find_user(v: &Vec<User>, id: UserId) -> (r: Option<usize>)
    requires
        unique(user_entries(v@)),
    ensures
        match r {
            Some(i) => i < v@.len() && v@[i as int].id == id && assoc(
                user_entries(v@),
            ).dom().contains(id) && assoc(user_entries(v@))[id] == v@[i as int]@,
            None => !assoc(user_entries(v@)).dom().contains(id),
        },
{
    let ghost es = user_entries(v@);
    let mut i: usize = 0;
    while i < v.len()
        invariant
            i <= v@.len(),
            es == user_entries(v@),
            unique(es),
            forall|j: int| 0 <= j < i ==> (#[trigger] es[j]).0 != id,
        decreases v@.len() - i,
    {
        proof {
            assert(es[i as int] == (v@[i as int].id, v@[i as int]@));
        }
        if v[i].id == id {
            proof {
                lemma_entry(es, i as int);
            }
            return Some(i);
        }
        i += 1;
    }
    proof {
        if assoc(es).dom().contains(id) {
            let j = lemma_key(es, id);
            assert(es[j].0 == id);
        }
    }
    None
}

fn insert_space(v: &mut Vec<Space>, s: Space)
    requires
        unique(space_entries(old(v)@)),
    ensures
        unique(space_entries(final(v)@)),
        assoc(space_entries(final(v)@)) == assoc(space_entries(old(v)@)).insert(s.id, s@),
{
    let ghost es = space_entries(v@);
    let ghost sv = s@;
    match find_space(v, s.id) {
        Some(i) => {
            v.set(i, s);
            proof {
                lemma_update(es, i as int, sv);
                assert(space_entries(v@) =~= es.update(i as int, (es[i as int].0, sv)));
            }
        },
        None => {
            v.push(s);
            proof {
                lemma_push(es, sv.id, sv);
                assert(space_entries(v@) =~= es.push((sv.id, sv)));
            }
        },
    }
}

fn insert_user(v: &mut Vec<User>, u: User)
    requires
        unique(user_entries(old(v)@)),
    ensures
        unique(user_entries(final(v)@)),
        assoc(user_entries(final(v)@)) == assoc(user_entries(old(v)@)).insert(u.id, u@),
{
    let ghost es = user_entries(v@);
    let ghost uv = u@;
    match find_user(v, u.id) {
        Some(i) => {
            v.set(i, u);
            proof {
                lemma_update(es, i as int, uv);
                assert(user_entries(v@) =~= es.update(i as int, (es[i as int].0, uv)));
            }
        },
        None => {
            v.push(u);
            proof {
                lemma_push(es, uv.id, uv);
                assert(user_entries(v@) =~= es.push((uv.id, uv)));
            }
        },
    }
}

fn insert_self(v: &mut Vec<(PlatformId, UserId)>, p: PlatformId, u: UserId)
    requires
        unique(old(v)@),
    ensures
        unique(final(v)@),
        assoc(final(v)@) == assoc(old(v)@).insert(p, u),
{
    let ghost es = v@;
    let mut i: usize = 0;
    while i < v.len()
        invariant
            i <= v@.len(),
            v@ == es,
            es == old(v)@,
            unique(es),
            forall|j: int| 0 <= j < i ==> (#[trigger] es[j]).0 != p,
        decreases v@.len() - i,
    {
        if v[i].0 == p {
            v.set(i, (p, u));
            proof {
                lemma_update(es, i as int, u);
            }
            return ;
        }
        i += 1;
    }
    proof {
        if assoc(es).dom().contains(p) {
            let j = lemma_key(es, p);
            assert(es[j].0 == p);
        }
        lemma_push(es, p, u);
    }
    v.push((p, u));
}

/// The place of the first message whose key is not below `k`.
fn lower_bound(v: &Vec<(SpaceId, Message)>, k: Key) -> (r: usize)
    ensures
        r <= v@.len(),
        forall|j: int| 0 <= j < r ==> key_lt((#[trigger] message_entries(v@)[j]).0, k),
        r < v@.len() ==> !key_lt(message_entries(v@)[r as int].0, k),
{
    let ghost es = message_entries(v@);
    let mut i: usize = 0;
    while i < v.len()
        invariant
            i <= v@.len(),
            es == message_entries(v@),
            forall|j: int| 0 <= j < i ==> key_lt((#[trigger] es[j]).0, k),
        decreases v@.len() - i,
    {
        if !key_less((v[i].0, v[i].1.timestamp, v[i].1.id), k) {
            return i;
        }
        i += 1;
    }
    i
}

/// Puts a message in its place. One with the same key gives way to it, or stays
/// where `replace` is false.
fn insert_message(v: &mut Vec<(SpaceId, Message)>, space: SpaceId, m: Message, replace: bool)
    requires
        sorted(message_entries(old(v)@)),
    ensures
        sorted(message_entries(final(v)@)),
        ({
            let before = assoc(message_entries(old(v)@));
            let k = key_of(space, m@);
            assoc(message_entries(final(v)@)) == if !replace && before.dom().contains(k) {
                before
            } else {
                before.insert(k, m@)
            }
        }),
{
    let ghost es = message_entries(v@);
    let ghost mv = m@;
    let k: Key = (space, m.timestamp, m.id);
    let i: usize = lower_bound(v, k);
    proof {
        lemma_sorted_unique(es);
        if i < es.len() {
            lemma_key_total(es[i as int].0, k);
            assert(es[i as int].0 == (v@[i as int].0, v@[i as int].1.timestamp, v@[i as int].1.id));
        }
    }
    if i < v.len() && !key_less(k, (v[i].0, v[i].1.timestamp, v[i].1.id)) {
        proof {
            assert(es[i as int].0 == k);
            lemma_entry(es, i as int);
        }
        if replace {
            v.set(i, (space, m));
            proof {
                lemma_update(es, i as int, mv);
                assert(message_entries(v@) =~= es.update(i as int, (es[i as int].0, mv)));
            }
        }
    } else {
        proof {
            if assoc(es).dom().contains(k) {
                let j = lemma_key(es, k);
                lemma_key_total(es[j].0, k);
                if j > i {
                    lemma_key_total(es[i as int].0, es[j].0);
                }
            }
            lemma_insert(es, i as int, k, mv);
        }
        v.insert(i, (space, m));
        proof {
            let t = es.insert(i as int, (k, mv));
            assert(message_entries(v@) =~= t);
            assert forall|a: int, b: int| 0 <= a < b < t.len() implies key_lt(
                (#[trigger] t[a]).0,
                (#[trigger] t[b]).0,
            ) by {
                if b == i {
                    assert(t[a] == es[a]);
                } else if a == i {
                    assert(t[b] == es[b - 1]);
                    if b - 1 > i {
                        assert(key_lt(es[i as int].0, es[b - 1].0));
                    }
                } else {
                    let x = if a < i {
                        a
                    } else {
                        a - 1
                    };
                    let y = if b < i {
                        b
                    } else {
                        b - 1
                    };
                    assert(t[a] == es[x] && t[b] == es[y]);
                }
            }
        }
    }
}

/// Takes out the messages of that name.
fn remove_messages(v: &mut Vec<(SpaceId, Message)>, space: SpaceId, id: MessageId)
    requires
        sorted(message_entries(old(v)@)),
    ensures
        sorted(message_entries(final(v)@)),
        assoc(message_entries(final(v)@)) == without(assoc(message_entries(old(v)@)), space, id),
{
    let ghost goal = without(assoc(message_entries(v@)), space, id);
    let mut i: usize = 0;
    while i < v.len()
        invariant
            i <= v@.len(),
            sorted(message_entries(v@)),
            goal == without(assoc(message_entries(old(v)@)), space, id),
            goal == without(assoc(message_entries(v@)), space, id),
            forall|j: int| 0 <= j < i ==> !names((#[trigger] message_entries(v@)[j]).0, space, id),
        decreases v@.len() - i,
    {
        let ghost es = message_entries(v@);
        proof {
            lemma_sorted_unique(es);
            assert(es[i as int].0 == (v@[i as int].0, v@[i as int].1.timestamp, v@[i as int].1.id));
        }
        if v[i].0 == space && v[i].1.id == id {
            let _ = v.remove(i);
            proof {
                let t = message_entries(v@);
                assert(t =~= es.remove(i as int));
                lemma_remove(es, i as int);
                assert(without(assoc(t), space, id) =~= without(assoc(es), space, id));
                assert forall|a: int, b: int| 0 <= a < b < t.len() implies key_lt(
                    (#[trigger] t[a]).0,
                    (#[trigger] t[b]).0,
                ) by {
                    let x = if a < i {
                        a
                    } else {
                        a + 1
                    };
                    let y = if b < i {
                        b
                    } else {
                        b + 1
                    };
                    assert(t[a] == es[x] && t[b] == es[y]);
                }
                assert forall|j: int| 0 <= j < i implies !names(
                    (#[trigger] t[j]).0,
                    space,
                    id,
                ) by {
                    assert(t[j] == es[j]);
                }
            }
        } else {
            i += 1;
        }
    }
    proof {
        let es = message_entries(v@);
        lemma_sorted_unique(es);
        assert forall|k: Key| #[trigger] assoc(es).dom().contains(k) implies !names(
            k,
            space,
            id,
        ) by {
            let j = lemma_key(es, k);
            assert(es[j].0 == k);
        }
        assert(without(assoc(es), space, id) =~= assoc(es));
    }
}

/// `o` lists the first `n` of the spaces, each once and with its time in `st`, the
/// latest first.
spec fn partly_ordered(
    es: Seq<(SpaceId, SpaceV)>,
    n: int,
    o: Seq<SpaceId>,
    st: Seq<u64>,
) -> bool {
    &&& o.len() == n
    &&& st.len() == n
    &&& forall|a: int, b: int| 0 <= a < b < n ==> #[trigger] o[a] != #[trigger] o[b]
    &&& forall|a: int|
        0 <= a < n ==> assoc(es).dom().contains(#[trigger] o[a]) && assoc(
            es,
        )[o[a]].sort_timestamp.0 == st[a]
    &&& forall|a: int, b: int| 0 <= a < b < n ==> #[trigger] st[a] >= #[trigger] st[b]
    &&& forall|a: int| 0 <= a < n ==> o.contains((#[trigger] es[a]).0)
    &&& forall|b: int| 0 <= b < n ==> has_key(es.take(n), #[trigger] o[b])
}

proof fn lemma_order_step(
    es: Seq<(SpaceId, SpaceV)>,
    n: int,
    o: Seq<SpaceId>,
    st: Seq<u64>,
    p: int,
)
    requires
        unique(es),
        0 <= n < es.len(),
        partly_ordered(es, n, o, st),
        0 <= p <= n,
        forall|a: int| 0 <= a < p ==> #[trigger] st[a] >= es[n].1.sort_timestamp.0,
        p < n ==> st[p] < es[n].1.sort_timestamp.0,
    ensures
        partly_ordered(
            es,
            n + 1,
            o.insert(p, es[n].0),
            st.insert(p, es[n].1.sort_timestamp.0),
        ),
{
    let id = es[n].0;
    let ts = es[n].1.sort_timestamp.0;
    let q = o.insert(p, id);
    let s = st.insert(p, ts);
    lemma_entry(es, n);
    assert forall|b: int| 0 <= b < n implies #[trigger] o[b] != id by {
        let a = key_index(es.take(n), o[b]);
        assert(es.take(n)[a].0 == o[b]);
        assert(es[a].0 != es[n].0);
    }
    assert forall|a: int, b: int| 0 <= a < b < n + 1 implies #[trigger] q[a] != #[trigger] q[b] by {
        if a == p {
            assert(q[b] == o[b - 1]);
        } else if b == p {
            assert(q[a] == o[a]);
        } else {
            let x = if a < p { a } else { a - 1 };
            let y = if b < p { b } else { b - 1 };
            assert(q[a] == o[x] && q[b] == o[y]);
        }
    }
    assert forall|a: int| 0 <= a < n + 1 implies assoc(es).dom().contains(#[trigger] q[a]) && assoc(
        es,
    )[q[a]].sort_timestamp.0 == s[a] by {
        if a < p {
            assert(q[a] == o[a] && s[a] == st[a]);
        } else if a > p {
            assert(q[a] == o[a - 1] && s[a] == st[a - 1]);
        }
    }
    assert forall|a: int, b: int| 0 <= a < b < n + 1 implies #[trigger] s[a] >= #[trigger] s[b] by {
        if a == p {
            assert(s[b] == st[b - 1]);
            if b - 1 > p {
                assert(st[p] >= st[b - 1]);
            }
        } else if b == p {
            assert(s[a] == st[a]);
        } else {
            let x = if a < p { a } else { a - 1 };
            let y = if b < p { b } else { b - 1 };
            assert(s[a] == st[x] && s[b] == st[y]);
        }
    }
    assert forall|a: int| 0 <= a < n + 1 implies q.contains((#[trigger] es[a]).0) by {
        if a == n {
            assert(q[p] == id);
        } else {
            let b = o.index_of(es[a].0);
            let c = if b < p { b } else { b + 1 };
            assert(q[c] == o[b]);
        }
    }
    assert forall|b: int| 0 <= b < n + 1 implies has_key(es.take(n + 1), #[trigger] q[b]) by {
        let t = es.take(n + 1);
        if b == p {
            assert(t[n].0 == q[b]);
        } else {
            let c = if b < p { b } else { b - 1 };
            assert(q[b] == o[c]);
            let a = key_index(es.take(n), o[c]);
            assert(es.take(n)[a].0 == o[c]);
            assert(t[a].0 == q[b]);
        }
    }
}

/// The spaces in the order of their activity, the latest first.
fn order_of(v: &Vec<Space>) -> (r: Vec<SpaceId>)
    requires
        unique(space_entries(v@)),
    ensures
        ordered(r@, assoc(space_entries(v@))),
{
    let ghost es = space_entries(v@);
    let mut out: Vec<SpaceId> = Vec::new();
    let mut stamps: Vec<u64> = Vec::new();
    let mut i: usize = 0;
    while i < v.len()
        invariant
            i <= v@.len(),
            es == space_entries(v@),
            unique(es),
            partly_ordered(es, i as int, out@, stamps@),
        decreases v@.len() - i,
    {
        let id: SpaceId = v[i].id;
        let ts: u64 = v[i].sort_timestamp.0;
        let mut p: usize = 0;
        while p < i && stamps[p] >= ts
            invariant
                p <= i,
                stamps@.len() == i,
                forall|a: int| 0 <= a < p ==> #[trigger] stamps@[a] >= ts,
            decreases i - p,
        {
            p += 1;
        }
        proof {
            assert(es[i as int] == (v@[i as int].id, v@[i as int]@));
            lemma_order_step(es, i as int, out@, stamps@, p as int);
        }
        out.insert(p, id);
        stamps.insert(p, ts);
        i += 1;
    }
    proof {
        let m = assoc(es);
        assert forall|id: SpaceId| #[trigger] m.dom().contains(id) implies out@.contains(id) by {
            let a = lemma_key(es, id);
            assert(es[a].0 == id);
        }
        assert forall|a: int, b: int| 0 <= a < b < out@.len() implies m[#[trigger]
            out@[a]].sort_timestamp.0 >= m[#[trigger] out@[b]].sort_timestamp.0 by {
            assert(stamps@[a] >= stamps@[b]);
        }
    }
    out
}

/// A change of a space that leaves its place in the order keeps the order.
proof fn lemma_order_kept(order: Seq<SpaceId>, m: Map<SpaceId, SpaceV>, id: SpaceId, s: SpaceV)
    requires
        ordered(order, m),
        m.dom().contains(id),
        s.sort_timestamp == m[id].sort_timestamp,
    ensures
        ordered(order, m.insert(id, s)),
{
    let n = m.insert(id, s);
    assert forall|i: int, j: int| 0 <= i < j < order.len() implies n[#[trigger]
        order[i]].sort_timestamp.0 >= n[#[trigger] order[j]].sort_timestamp.0 by {
        assert(m[order[i]].sort_timestamp.0 >= m[order[j]].sort_timestamp.0);
    }
    assert forall|q: SpaceId| #[trigger] n.dom().contains(q) implies order.contains(q) by {
        assert(m.dom().contains(q));
    }
}

impl Store {
    /// Keys are held once, messages in the order of their keys, and the order of
    /// the spaces is up to date.
    pub closed spec fn wf(self) -> bool {
        &&& unique(space_entries(self.spaces@))
        &&& unique(user_entries(self.users@))
        &&& unique(self.self_users@)
        &&& sorted(message_entries(self.messages@))
        &&& ordered(self.space_order@, assoc(space_entries(self.spaces@)))
    }

    /// The strings that the store's names stand for.
    pub closed spec fn pool(self) -> Pool {
        self.interner@
    }

    /// A store that knows nothing.
    pub fn new() -> (r: Store)
        ensures
            r.wf(),
            r@ == (StoreV {
                spaces: Map::empty(),
                messages: Map::empty(),
                users: Map::empty(),
                self_users: Map::empty(),
                order: Seq::empty(),
            }),
            r.pool() == Pool::empty(),
    {
        let r = Store {
            spaces: Vec::new(),
            messages: Vec::new(),
            users: Vec::new(),
            interner: IdInterner::new(),
            self_users: Vec::new(),
            space_order: Vec::new(),
        };
        proof {
            assert(r@.spaces =~= Map::empty());
            assert(r@.messages =~= Map::empty());
            assert(r@.users =~= Map::empty());
            assert(r@.self_users =~= Map::empty());
            assert(r@.order =~= Seq::empty());
        }
        r
    }

    /// Takes in an event.
    pub fn ingest(&mut self, event: InboundEvent)
        requires
            old(self).wf(),
        ensures
            final(self).wf(),
            ingested(old(self)@, event@, final(self)@),
            final(self).pool() == old(self).pool(),
    {
        match event {
            InboundEvent::Connected { .. } => {},
            InboundEvent::Reconnecting { .. } => {},
            InboundEvent::Disconnected { .. } => {},
            InboundEvent::MembershipChanged { .. } => {},
            InboundEvent::WorldSync { platform, spaces: list, self_user } => {
                let self_id = self_user.id;
                insert_user(&mut self.users, self_user);
                insert_self(&mut self.self_users, platform, self_id);
                self.add_spaces(list);
                self.rebuild_space_order();
            },
            InboundEvent::SpaceUpdated { space } => {
                insert_space(&mut self.spaces, space);
                self.rebuild_space_order();
            },
            InboundEvent::MessagePosted { message, .. } => {
                let space = message.space_id;
                self.touch(space, message.timestamp);
                insert_message(&mut self.messages, space, message, true);
                self.rebuild_space_order();
            },
            InboundEvent::MessageEdited { message, .. } => {
                let space = message.space_id;
                remove_messages(&mut self.messages, space, message.id);
                insert_message(&mut self.messages, space, message, true);
            },
            InboundEvent::MessageDeleted { space_id, message_id } => {
                remove_messages(&mut self.messages, space_id, message_id);
            },
            InboundEvent::TypingStarted { space_id, user_id, .. } => {
                self.start_typing(space_id, user_id);
            },
            InboundEvent::TypingStopped { space_id, user_id } => {
                self.stop_typing(space_id, user_id);
            },
            InboundEvent::PresenceChanged { user_id, presence } => {
                self.set_presence(user_id, presence);
            },
            InboundEvent::ReadStateUpdated { space_id, unread_count, .. } => {
                self.set_unread(space_id, unread_count);
            },
            InboundEvent::ReactionUpdated { space_id, message_id, reactions } => {
                self.set_reactions(space_id, message_id, reactions);
            },
            InboundEvent::HistoryChunk { space_id, messages: list, .. } => {
                self.add_history(space_id, list);
            },
            InboundEvent::UsersResolved { users: list } => {
                self.add_users(list);
            },
        }
    }

    fn rebuild_space_order(&mut self)
        requires
            unique(space_entries(old(self).spaces@)),
        ensures
            final(self)@ == (StoreV { order: final(self)@.order, ..old(self)@ }),
            ordered(final(self)@.order, final(self)@.spaces),
            final(self).spaces == old(self).spaces,
            final(self).users == old(self).users,
            final(self).messages == old(self).messages,
            final(self).self_users == old(self).self_users,
            final(self).interner == old(self).interner,
    {
        self.space_order = order_of(&self.spaces);
    }

    fn add_spaces(&mut self, list: Vec<Space>)
        requires
            unique(space_entries(old(self).spaces@)),
        ensures
            unique(space_entries(final(self).spaces@)),
            assoc(space_entries(final(self).spaces@)) == with_spaces(
                assoc(space_entries(old(self).spaces@)),
                spaces(list@),
            ),
            final(self).users == old(self).users,
            final(self).messages == old(self).messages,
            final(self).self_users == old(self).self_users,
            final(self).interner == old(self).interner,
            final(self).space_order == old(self).space_order,
    {
        let ghost all = spaces(list@);
        let ghost start = assoc(space_entries(self.spaces@));
        proof {
            assert(all.take(0) =~= Seq::<SpaceV>::empty());
        }
        for s in it: list
            invariant
                it.seq() == list@,
                all == spaces(list@),
                unique(space_entries(self.spaces@)),
                start == assoc(space_entries(old(self).spaces@)),
                assoc(space_entries(self.spaces@)) == with_spaces(
                    start,
                    all.take(it.index() as int),
                ),
                self.users == old(self).users,
                self.messages == old(self).messages,
                self.self_users == old(self).self_users,
                self.interner == old(self).interner,
                self.space_order == old(self).space_order,
        {
            proof {
                assert(all[it.index() as int] == s@);
                assert(all.take(it.index() + 1).drop_last() =~= all.take(it.index() as int));
            }
            insert_space(&mut self.spaces, s);
        }
        proof {
            assert(all.take(all.len() as int) =~= all);
        }
    }

    fn add_users(&mut self, list: Vec<User>)
        requires
            old(self).wf(),
        ensures
            final(self).wf(),
            final(self)@ == (StoreV {
                users: with_users(old(self)@.users, users(list@)),
                ..old(self)@
            }),
            final(self).interner == old(self).interner,
    {
        let ghost all = users(list@);
        let ghost start = assoc(user_entries(self.users@));
        proof {
            assert(all.take(0) =~= Seq::<UserV>::empty());
        }
        for u in it: list
            invariant
                it.seq() == list@,
                all == users(list@),
                unique(user_entries(self.users@)),
                start == assoc(user_entries(old(self).users@)),
                assoc(user_entries(self.users@)) == with_users(start, all.take(it.index() as int)),
                self.spaces == old(self).spaces,
                self.messages == old(self).messages,
                self.self_users == old(self).self_users,
                self.interner == old(self).interner,
                self.space_order == old(self).space_order,
        {
            proof {
                assert(all[it.index() as int] == u@);
                assert(all.take(it.index() + 1).drop_last() =~= all.take(it.index() as int));
            }
            insert_user(&mut self.users, u);
        }
        proof {
            assert(all.take(all.len() as int) =~= all);
        }
    }

    fn add_history(&mut self, space: SpaceId, list: Vec<Message>)
        requires
            old(self).wf(),
        ensures
            final(self).wf(),
            final(self)@ == (StoreV {
                messages: with_history(old(self)@.messages, space, messages(list@)),
                ..old(self)@
            }),
            final(self).interner == old(self).interner,
    {
        let ghost all = messages(list@);
        let ghost start = assoc(message_entries(self.messages@));
        proof {
            assert(all.take(0) =~= Seq::<MessageV>::empty());
        }
        for m in it: list
            invariant
                it.seq() == list@,
                all == messages(list@),
                sorted(message_entries(self.messages@)),
                start == assoc(message_entries(old(self).messages@)),
                assoc(message_entries(self.messages@)) == with_history(
                    start,
                    space,
                    all.take(it.index() as int),
                ),
                self.spaces == old(self).spaces,
                self.users == old(self).users,
                self.self_users == old(self).self_users,
                self.interner == old(self).interner,
                self.space_order == old(self).space_order,
        {
            proof {
                assert(all[it.index() as int] == m@);
                assert(all.take(it.index() + 1).drop_last() =~= all.take(it.index() as int));
            }
            insert_message(&mut self.messages, space, m, false);
        }
        proof {
            assert(all.take(all.len() as int) =~= all);
        }
    }

    fn touch(&mut self, space: SpaceId, at: Timestamp)
        requires
            old(self).wf(),
        ensures
            unique(space_entries(final(self).spaces@)),
            final(self)@ == (StoreV {
                spaces: changed_space(old(self)@.spaces, space, |p: SpaceV| touched(p, at)),
                ..old(self)@
            }),
            final(self).users == old(self).users,
            final(self).messages == old(self).messages,
            final(self).self_users == old(self).self_users,
            final(self).interner == old(self).interner,
    {
        let ghost es = space_entries(self.spaces@);
        if let Some(i) = find_space(&self.spaces, space) {
            if at.0 > self.spaces[i].last_activity.0 {
                self.spaces[i].last_activity = at;
                self.spaces[i].sort_timestamp = at;
            }
            proof {
                let v = touched(es[i as int].1, at);
                lemma_update(es, i as int, v);
                assert(space_entries(self.spaces@) =~= es.update(i as int, (es[i as int].0, v)));
            }
        }
    }

    fn start_typing(&mut self, space: SpaceId, user: UserId)
        requires
            old(self).wf(),
        ensures
            final(self).wf(),
            final(self)@ == (StoreV {
                spaces: changed_space(old(self)@.spaces, space, |p: SpaceV| with_typing(p, user)),
                ..old(self)@
            }),
            final(self).interner == old(self).interner,
    {
        let ghost es = space_entries(self.spaces@);
        if let Some(i) = find_space(&self.spaces, space) {
            let mut there = false;
            let mut k: usize = 0;
            while k < self.spaces[i].typing_users.len()
                invariant
                    *self == *old(self),
                    i < self.spaces@.len(),
                    k <= self.spaces@[i as int].typing_users@.len(),
                    there <==> exists|j: int|
                        0 <= j < k && self.spaces@[i as int].typing_users@[j] == user,
                decreases self.spaces@[i as int].typing_users@.len() - k,
            {
                if self.spaces[i].typing_users[k] == user {
                    there = true;
                }
                k += 1;
            }
            if !there {
                self.spaces[i].typing_users.push(user);
            }
            proof {
                let v = with_typing(es[i as int].1, user);
                lemma_update(es, i as int, v);
                assert(space_entries(self.spaces@) =~= es.update(i as int, (es[i as int].0, v)));
                lemma_order_kept(self.space_order@, assoc(es), space, v);
            }
        }
    }

    fn stop_typing(&mut self, space: SpaceId, user: UserId)
        requires
            old(self).wf(),
        ensures
            final(self).wf(),
            final(self)@ == (StoreV {
                spaces: changed_space(
                    old(self)@.spaces,
                    space,
                    |p: SpaceV| SpaceV { typing_users: others(p.typing_users, user), ..p },
                ),
                ..old(self)@
            }),
            final(self).interner == old(self).interner,
    {
        let ghost es = space_entries(self.spaces@);
        if let Some(i) = find_space(&self.spaces, space) {
            let mut left: Vec<UserId> = Vec::new();
            let mut k: usize = 0;
            let ghost tu = self.spaces@[i as int].typing_users@;
            proof {
                assert(tu.take(0) =~= Seq::<UserId>::empty());
            }
            while k < self.spaces[i].typing_users.len()
                invariant
                    *self == *old(self),
                    i < self.spaces@.len(),
                    tu == self.spaces@[i as int].typing_users@,
                    k <= tu.len(),
                    left@ == others(tu.take(k as int), user),
                decreases tu.len() - k,
            {
                proof {
                    assert(tu.take(k + 1).drop_last() =~= tu.take(k as int));
                }
                let u: UserId = self.spaces[i].typing_users[k];
                if u != user {
                    left.push(u);
                }
                k += 1;
            }
            proof {
                assert(tu.take(tu.len() as int) =~= tu);
            }
            self.spaces[i].typing_users = left;
            proof {
                let v = SpaceV { typing_users: others(tu, user), ..es[i as int].1 };
                lemma_update(es, i as int, v);
                assert(space_entries(self.spaces@) =~= es.update(i as int, (es[i as int].0, v)));
                lemma_order_kept(self.space_order@, assoc(es), space, v);
            }
        }
    }

    fn set_unread(&mut self, space: SpaceId, unread_count: u32)
        requires
            old(self).wf(),
        ensures
            final(self).wf(),
            final(self)@ == (StoreV {
                spaces: changed_space(
                    old(self)@.spaces,
                    space,
                    |p: SpaceV| SpaceV { unread_count, ..p },
                ),
                ..old(self)@
            }),
            final(self).interner == old(self).interner,
    {
        let ghost es = space_entries(self.spaces@);
        if let Some(i) = find_space(&self.spaces, space) {
            self.spaces[i].unread_count = unread_count;
            proof {
                let v = SpaceV { unread_count, ..es[i as int].1 };
                lemma_update(es, i as int, v);
                assert(space_entries(self.spaces@) =~= es.update(i as int, (es[i as int].0, v)));
                lemma_order_kept(self.space_order@, assoc(es), space, v);
            }
        }
    }

    fn set_presence(&mut self, user: UserId, presence: PresenceStatus)
        requires
            old(self).wf(),
        ensures
            final(self).wf(),
            final(self)@ == (StoreV {
                users: if old(self)@.users.dom().contains(user) {
                    old(self)@.users.insert(user, (UserV { presence, ..old(self)@.users[user] }))
                } else {
                    old(self)@.users
                },
                ..old(self)@
            }),
            final(self).interner == old(self).interner,
    {
        let ghost es = user_entries(self.users@);
        if let Some(i) = find_user(&self.users, user) {
            self.users[i].presence = presence;
            proof {
                let v = UserV { presence, ..es[i as int].1 };
                lemma_update(es, i as int, v);
                assert(user_entries(self.users@) =~= es.update(i as int, (es[i as int].0, v)));
            }
        }
    }

    fn set_reactions(&mut self, space: SpaceId, id: MessageId, list: Vec<Reaction>)
        requires
            old(self).wf(),
        ensures
            final(self).wf(),
            reacted(old(self)@.messages, space, id, reactions(list@), final(self)@.messages),
            final(self)@ == (StoreV { messages: final(self)@.messages, ..old(self)@ }),
            final(self).interner == old(self).interner,
    {
        let ghost es = message_entries(self.messages@);
        let ghost m = assoc(es);
        let mut i: usize = 0;
        proof {
            lemma_sorted_unique(es);
        }
        while i < self.messages.len()
            invariant
                *self == *old(self),
                i <= self.messages@.len(),
                es == message_entries(self.messages@),
                forall|j: int| 0 <= j < i ==> !names((#[trigger] es[j]).0, space, id),
            ensures
                i < es.len() ==> names(es[i as int].0, space, id),
            decreases self.messages@.len() - i,
        {
            proof {
                assert(es[i as int] == ((
                    self.messages@[i as int].0,
                    self.messages@[i as int].1.timestamp,
                    self.messages@[i as int].1.id,
                ), self.messages@[i as int].1@));
            }
            if self.messages[i].0 == space && self.messages[i].1.id == id {
                break ;
            }
            i += 1;
        }
        if i < self.messages.len() {
            let ghost k = es[i as int].0;
            self.messages[i].1.reactions = list;
            proof {
                let v = MessageV { reactions: reactions(list@), ..es[i as int].1 };
                lemma_entry(es, i as int);
                lemma_update(es, i as int, v);
                let t = message_entries(self.messages@);
                assert(t =~= es.update(i as int, (k, v)));
                assert forall|a: int, b: int| 0 <= a < b < t.len() implies key_lt(
                    (#[trigger] t[a]).0,
                    (#[trigger] t[b]).0,
                ) by {
                    assert(key_lt(es[a].0, es[b].0));
                }
                assert forall|q: Key| #[trigger] m.dom().contains(q) && names(
                    q,
                    space,
                    id,
                ) implies !key_lt(q, k) by {
                    let j = lemma_key(es, q);
                    assert(es[j].0 == q);
                    lemma_key_total(q, k);
                }
                assert(first_named(m, space, id, k));
            }
        } else {
            proof {
                assert forall|q: Key| #[trigger] m.dom().contains(q) implies !names(
                    q,
                    space,
                    id,
                ) by {
                    let j = lemma_key(es, q);
                    assert(es[j].0 == q);
                }
            }
        }
    }
}

impl Default for Store {
    fn default() -> (r: Store)
        ensures
            r.wf(),
            r@ == (StoreV {
                spaces: Map::empty(),
                messages: Map::empty(),
                users: Map::empty(),
                self_users: Map::empty(),
                order: Seq::empty(),
            }),
            r.pool() == Pool::empty(),
    {
        Store::new()
    }
}

// ───────────────────────── reading ─────────────────────────

/// `r` holds the messages of a space, each once, in the order of their time.
pub open spec fn messages_of(m: Map<Key, MessageV>, space: SpaceId, r: Seq<MessageV>) -> bool {
    &&& forall|i: int|
        #![trigger r[i]]
        0 <= i < r.len() ==> m.dom().contains(key_of(space, r[i])) && m[key_of(space, r[i])] == r[i]
    &&& forall|i: int, j: int|
        0 <= i < j < r.len() ==> key_lt(
            key_of(space, #[trigger] r[i]),
            key_of(space, #[trigger] r[j]),
        )
    &&& forall|k: Key| #[trigger] m.dom().contains(k) && k.0 == space ==> r.contains(m[k])
}

/// The spaces in their order.
pub open spec fn spaces_of(s: StoreV) -> Seq<SpaceV> {
    s.order.map_values(|id: SpaceId| s.spaces[id])
}

/// The messages of a space that have not been given out yet.
pub struct SpaceMessageIter<'a> {
    items: Vec<&'a Message>,
    at: usize,
}

impl<'a> View for SpaceMessageIter<'a> {
    type V = Seq<MessageV>;

    closed spec fn view(&self) -> Seq<MessageV> {
        self.items@.map_values(|m: &'a Message| m@).skip(self.at as int)
    }
}

impl<'a> SpaceMessageIter<'a> {
    #[verifier::type_invariant]
    spec fn inv(self) -> bool {
        self.at <= self.items@.len()
    }

    /// The next message.
    pub fn next(&mut self) -> (r: Option<&'a Message>)
        ensures
            match r {
                Some(m) => old(self)@.len() > 0 && m@ == old(self)@[0] && final(self)@ == old(
                    self,
                )@.drop_first(),
                None => old(self)@.len() == 0 && final(self)@ == old(self)@,
            },
    {
        proof {
            use_type_invariant(&*self);
        }
        if self.at < self.items.len() {
            let i: usize = self.at;
            self.at = i + 1;
            proof {
                assert(self@ =~= old(self)@.drop_first());
            }
            Some(self.items[i])
        } else {
            None
        }
    }

    /// The number of messages that have not been given out yet.
    pub fn count(&self) -> (r: usize)
        ensures
            r == self@.len(),
    {
        proof {
            use_type_invariant(self);
        }
        self.items.len() - self.at
    }

    /// The messages that have not been given out yet.
    pub fn collect(self) -> (r: Vec<&'a Message>)
        ensures
            r@.map_values(|m: &'a Message| m@) == self@,
    {
        proof {
            use_type_invariant(&self);
        }
        let mut out: Vec<&'a Message> = Vec::new();
        let mut i: usize = self.at;
        let ghost all = self.items@.map_values(|m: &'a Message| m@);
        while i < self.items.len()
            invariant
                self.at <= i <= self.items@.len(),
                all == self.items@.map_values(|m: &'a Message| m@),
                out@.map_values(|m: &'a Message| m@) == all.subrange(self.at as int, i as int),
            decreases self.items@.len() - i,
        {
            let ghost done = out@.map_values(|m: &'a Message| m@);
            let m = self.items[i];
            out.push(m);
            proof {
                assert(out@.map_values(|m: &'a Message| m@) =~= done.push(m@));
                assert(all.subrange(self.at as int, i + 1) =~= all.subrange(
                    self.at as int,
                    i as int,
                ).push(all[i as int]));
            }
            i += 1;
        }
        out
    }
}

/// The spaces, in their order, that have not been given out yet.
pub struct SortedSpaceIter<'a> {
    items: Vec<&'a Space>,
    at: usize,
}

impl<'a> View for SortedSpaceIter<'a> {
    type V = Seq<SpaceV>;

    closed spec fn view(&self) -> Seq<SpaceV> {
        self.items@.map_values(|s: &'a Space| s@).skip(self.at as int)
    }
}

impl<'a> SortedSpaceIter<'a> {
    #[verifier::type_invariant]
    spec fn inv(self) -> bool {
        self.at <= self.items@.len()
    }

    /// The next space.
    pub fn next(&mut self) -> (r: Option<&'a Space>)
        ensures
            match r {
                Some(s) => old(self)@.len() > 0 && s@ == old(self)@[0] && final(self)@ == old(
                    self,
                )@.drop_first(),
                None => old(self)@.len() == 0 && final(self)@ == old(self)@,
            },
    {
        proof {
            use_type_invariant(&*self);
        }
        if self.at < self.items.len() {
            let i: usize = self.at;
            self.at = i + 1;
            proof {
                assert(self@ =~= old(self)@.drop_first());
            }
            Some(self.items[i])
        } else {
            None
        }
    }

    /// The space behind the next `n`.
    pub fn nth(&self, n: usize) -> (r: Option<&'a Space>)
        ensures
            match r {
                Some(s) => n < self@.len() && s@ == self@[n as int],
                None => n >= self@.len(),
            },
    {
        proof {
            use_type_invariant(self);
        }
        if n < self.items.len() - self.at {
            Some(self.items[self.at + n])
        } else {
            None
        }
    }

    /// The number of spaces that have not been given out yet.
    pub fn count(&self) -> (r: usize)
        ensures
            r == self@.len(),
    {
        proof {
            use_type_invariant(self);
        }
        self.items.len() - self.at
    }

    /// The spaces that have not been given out yet.
    pub fn collect(self) -> (r: Vec<&'a Space>)
        ensures
            r@.map_values(|s: &'a Space| s@) == self@,
    {
        proof {
            use_type_invariant(&self);
        }
        let mut out: Vec<&'a Space> = Vec::new();
        let mut i: usize = self.at;
        let ghost all = self.items@.map_values(|s: &'a Space| s@);
        while i < self.items.len()
            invariant
                self.at <= i <= self.items@.len(),
                all == self.items@.map_values(|s: &'a Space| s@),
                out@.map_values(|s: &'a Space| s@) == all.subrange(self.at as int, i as int),
            decreases self.items@.len() - i,
        {
            let ghost done = out@.map_values(|s: &'a Space| s@);
            let s = self.items[i];
            out.push(s);
            proof {
                assert(out@.map_values(|s: &'a Space| s@) =~= done.push(s@));
                assert(all.subrange(self.at as int, i + 1) =~= all.subrange(
                    self.at as int,
                    i as int,
                ).push(all[i as int]));
            }
            i += 1;
        }
        out
    }
}

/// Reading what is known of the services.
pub trait StoreRead {
    /// What is known.
    spec fn known(&self) -> StoreV;

    /// What is held is in order.
    spec fn sound(&self) -> bool;

    /// The messages of a space, in the order of their time.
    fn messages_in_space<'a>(&'a self, space: SpaceId) -> (r: SpaceMessageIter<'a>)
        requires
            self.sound(),
        ensures
            messages_of(self.known().messages, space, r@),
    ;

    /// The spaces, each once, those with the latest activity first.
    fn spaces_sorted<'a>(&'a self) -> (r: SortedSpaceIter<'a>)
        requires
            self.sound(),
        ensures
            r@ == spaces_of(self.known()),
            ordered(self.known().order, self.known().spaces),
    ;

    /// The user of that name.
    fn user(&self, id: UserId) -> (r: Option<&User>)
        requires
            self.sound(),
        ensures
            match r {
                Some(u) => self.known().users.dom().contains(id) && u@ == self.known().users[id],
                None => !self.known().users.dom().contains(id),
            },
    ;

    /// The space of that name.
    fn space(&self, id: SpaceId) -> (r: Option<&Space>)
        requires
            self.sound(),
        ensures
            match r {
                Some(s) => self.known().spaces.dom().contains(id) && s@ == self.known().spaces[id],
                None => !self.known().spaces.dom().contains(id),
            },
    ;

    /// The user who is signed in on a platform.
    fn self_user(&self, platform: PlatformId) -> (r: Option<UserId>)
        requires
            self.sound(),
        ensures
            match r {
                Some(u) => self.known().self_users.dom().contains(platform)
                    && u == self.known().self_users[platform],
                None => !self.known().self_users.dom().contains(platform),
            },
    ;
}

impl StoreRead for Store {
    open spec fn known(&self) -> StoreV {
        self@
    }

    open spec fn sound(&self) -> bool {
        self.wf()
    }

    fn messages_in_space<'a>(&'a self, space: SpaceId) -> (r: SpaceMessageIter<'a>) {
        let ghost es = message_entries(self.messages@);
        let ghost m = assoc(es);
        let mut items: Vec<&'a Message> = Vec::new();
        let ghost mut at: Seq<int> = Seq::empty();
        let mut i: usize = 0;
        proof {
            lemma_sorted_unique(es);
        }
        while i < self.messages.len()
            invariant
                i <= self.messages@.len(),
                es == message_entries(self.messages@),
                at.len() == items@.len(),
                forall|a: int|
                    0 <= a < at.len() ==> 0 <= #[trigger] at[a] < i && es[at[a]].0.0 == space
                        && items@[a]@ == es[at[a]].1,
                forall|a: int, b: int| 0 <= a < b < at.len() ==> #[trigger] at[a] < #[trigger] at[b],
                forall|j: int|
                    0 <= j < i && (#[trigger] es[j]).0.0 == space ==> at.contains(j),
            decreases self.messages@.len() - i,
        {
            let ghost before = at;
            if self.messages[i].0 == space {
                items.push(&self.messages[i].1);
                proof {
                    at = at.push(i as int);
                    assert(es[i as int].0.0 == space);
                    assert forall|j: int| 0 <= j < i + 1 && (#[trigger] es[j]).0.0
                        == space implies at.contains(j) by {
                        if j == i {
                            assert(at[at.len() - 1] == j);
                        } else {
                            assert(before.contains(j));
                            assert(at[before.index_of(j)] == j);
                        }
                    }
                }
            }
            i += 1;
        }
        let r = SpaceMessageIter { items, at: 0 };
        proof {
            let rv = r@;
            assert(rv =~= items@.map_values(|m: &'a Message| m@));
            assert forall|a: int| #![trigger rv[a]] 0 <= a < rv.len() implies m.dom().contains(
                key_of(space, rv[a]),
            ) && m[key_of(space, rv[a])] == rv[a] by {
                let j = at[a];
                assert(es[j].1 == rv[a]);
                assert(es[j].0 == key_of(space, rv[a]));
                lemma_entry(es, j);
            }
            assert forall|a: int, b: int| 0 <= a < b < rv.len() implies key_lt(
                key_of(space, #[trigger] rv[a]),
                key_of(space, #[trigger] rv[b]),
            ) by {
                assert(at[a] < at[b]);
                assert(es[at[a]].0 == key_of(space, rv[a]));
                assert(es[at[b]].0 == key_of(space, rv[b]));
            }
            assert forall|k: Key| #[trigger] m.dom().contains(k) && k.0
                == space implies rv.contains(m[k]) by {
                let j = lemma_key(es, k);
                assert(es[j].0.0 == space);
                let a = at.index_of(j);
                assert(at[a] == j);
                assert(rv[a] == es[j].1);
            }
        }
        r
    }

    fn spaces_sorted<'a>(&'a self) -> (r: SortedSpaceIter<'a>) {
        let ghost m = assoc(space_entries(self.spaces@));
        let ghost want = spaces_of(self@);
        let mut items: Vec<&'a Space> = Vec::new();
        let mut i: usize = 0;
        while i < self.space_order.len()
            invariant
                i <= self.space_order@.len(),
                self.wf(),
                m == assoc(space_entries(self.spaces@)),
                want == spaces_of(self@),
                items@.map_values(|s: &'a Space| s@) == want.take(i as int),
            decreases self.space_order@.len() - i,
        {
            let ghost done = items@.map_values(|s: &'a Space| s@);
            proof {
                assert(m.dom().contains(self.space_order@[i as int]));
            }
            match find_space(&self.spaces, self.space_order[i]) {
                Some(k) => {
                    items.push(&self.spaces[k]);
                    proof {
                        assert(items@.map_values(|s: &'a Space| s@) =~= done.push(
                            self.spaces@[k as int]@,
                        ));
                        assert(want.take(i + 1) =~= want.take(i as int).push(want[i as int]));
                    }
                },
                None => {},
            }
            i += 1;
        }
        let r = SortedSpaceIter { items, at: 0 };
        proof {
            assert(want.take(want.len() as int) =~= want);
            assert(r@ =~= want);
        }
        r
    }

    fn user(&self, id: UserId) -> (r: Option<&User>) {
        match find_user(&self.users, id) {
            Some(i) => Some(&self.users[i]),
            None => None,
        }
    }

    fn space(&self, id: SpaceId) -> (r: Option<&Space>) {
        match find_space(&self.spaces, id) {
            Some(i) => Some(&self.spaces[i]),
            None => None,
        }
    }

    fn self_user(&self, platform: PlatformId) -> (r: Option<UserId>) {
        let ghost es = self.self_users@;
        let mut i: usize = 0;
        while i < self.self_users.len()
            invariant
                i <= self.self_users@.len(),
                es == self.self_users@,
                unique(es),
                forall|j: int| 0 <= j < i ==> (#[trigger] es[j]).0 != platform,
            decreases self.self_users@.len() - i,
        {
            if self.self_users[i].0 == platform {
                proof {
                    lemma_entry(es, i as int);
                }
                return Some(self.self_users[i].1);
            }
            i += 1;
        }
        proof {
            if assoc(es).dom().contains(platform) {
                let j = lemma_key(es, platform);
                assert(es[j].0 == platform);
            }
        }
        None
    }
}

// ───────────────────────── laws ─────────────────────────

/// Whatever event comes in, the spaces stay listed once each, those with the latest
/// activity first, and no space or user is ever lost.
pub proof fn law_order_is_kept(s: StoreV, e: EventV, t: StoreV)
    requires
        ingested(s, e, t),
    ensures
        ordered(t.order, t.spaces),
        forall|id: SpaceId| #[trigger] s.spaces.dom().contains(id) ==> t.spaces.dom().contains(id),
        forall|id: UserId| #[trigger] s.users.dom().contains(id) ==> t.users.dom().contains(id),
{
    match e {
        EventV::WorldSync { spaces, .. } => lemma_with_spaces(s.spaces, spaces),
        EventV::UsersResolved { users } => lemma_with_users(s.users, users),
        _ => {},
    }
}

proof fn lemma_with_spaces(m: Map<SpaceId, SpaceV>, s: Seq<SpaceV>)
    ensures
        forall|id: SpaceId| #[trigger] m.dom().contains(id) ==> with_spaces(m, s).dom().contains(id),
    decreases s.len(),
{
    if s.len() > 0 {
        lemma_with_spaces(m, s.drop_last());
    }
}

proof fn lemma_with_users(m: Map<UserId, UserV>, u: Seq<UserV>)
    ensures
        forall|id: UserId| #[trigger] m.dom().contains(id) ==> with_users(m, u).dom().contains(id),
    decreases u.len(),
{
    if u.len() > 0 {
        lemma_with_users(m, u.drop_last());
    }
}

/// A message that was posted is there, with the time of its space brought forward
/// to it.
pub proof fn law_posted_is_there(
    s: StoreV,
    m: MessageV,
    space_id_raw: Seq<char>,
    topic_id_raw: Option<Seq<char>>,
    message_id_raw: Seq<char>,
    t: StoreV,
)
    requires
        ingested(
            s,
            (EventV::MessagePosted { message: m, space_id_raw, topic_id_raw, message_id_raw }),
            t,
        ),
    ensures
        t.messages.dom().contains(key_of(m.space_id, m)),
        t.messages[key_of(m.space_id, m)] == m,
        s.spaces.dom().contains(m.space_id) ==> t.spaces[m.space_id].last_activity.0
            >= m.timestamp.0,
{
}

/// A message that was deleted is gone, and every other message stays.
pub proof fn law_deleted_is_gone(s: StoreV, space: SpaceId, id: MessageId, t: StoreV)
    requires
        ingested(s, (EventV::MessageDeleted { space_id: space, message_id: id }), t),
    ensures
        forall|k: Key| #[trigger] t.messages.dom().contains(k) ==> !names(k, space, id),
        forall|k: Key|
            #[trigger] s.messages.dom().contains(k) && !names(k, space, id)
                ==> t.messages.dom().contains(k) && t.messages[k] == s.messages[k],
{
}

/// After an edit the edited message is the only one of its name.
pub proof fn law_edit_replaces(
    s: StoreV,
    m: MessageV,
    space_id_raw: Seq<char>,
    topic_id_raw: Option<Seq<char>>,
    message_id_raw: Seq<char>,
    t: StoreV,
)
    requires
        ingested(
            s,
            (EventV::MessageEdited { message: m, space_id_raw, topic_id_raw, message_id_raw }),
            t,
        ),
    ensures
        t.messages.dom().contains(key_of(m.space_id, m)),
        forall|k: Key|
            #[trigger] t.messages.dom().contains(k) && names(k, m.space_id, m.id) ==> k == key_of(
                m.space_id,
                m,
            ) && t.messages[k] == m,
{
}

/// History adds messages and changes none that is there.
pub proof fn law_history_keeps_messages(
    s: StoreV,
    space: SpaceId,
    h: Seq<MessageV>,
    has_more: bool,
    t: StoreV,
)
    requires
        ingested(s, (EventV::HistoryChunk { space_id: space, messages: h, has_more }), t),
    ensures
        forall|k: Key| #[trigger]
            s.messages.dom().contains(k) ==> t.messages.dom().contains(k) && t.messages[k]
                == s.messages[k],
        forall|i: int|
            0 <= i < h.len() ==> t.messages.dom().contains(key_of(space, #[trigger] h[i])),
        forall|k: Key| #[trigger]
            t.messages.dom().contains(k) && k.0 != space ==> s.messages.dom().contains(k),
{
    lemma_with_history(s.messages, space, h);
}

proof fn lemma_with_history(m: Map<Key, MessageV>, space: SpaceId, h: Seq<MessageV>)
    ensures
        forall|k: Key| #[trigger]
            m.dom().contains(k) ==> with_history(m, space, h).dom().contains(k) && with_history(
                m,
                space,
                h,
            )[k] == m[k],
        forall|i: int|
            0 <= i < h.len() ==> with_history(m, space, h).dom().contains(
                key_of(space, #[trigger] h[i]),
            ),
        forall|k: Key| #[trigger]
            with_history(m, space, h).dom().contains(k) && k.0 != space ==> m.dom().contains(k),
    decreases h.len(),
{
    if h.len() > 0 {
        lemma_with_history(m, space, h.drop_last());
        let n = with_history(m, space, h);
        assert forall|i: int| 0 <= i < h.len() implies n.dom().contains(
            key_of(space, #[trigger] h[i]),
        ) by {
            if i < h.len() - 1 {
                assert(h.drop_last()[i] == h[i]);
            }
        }
        let before = with_history(m, space, h.drop_last());
        assert forall|k: Key| #[trigger] n.dom().contains(k) && k.0 != space implies m.dom().contains(
            k,
        ) by {
            assert(before.dom().contains(k));
        }
    }
}

/// An event about the messages of one space leaves those of every other space as
/// they were.
pub proof fn law_spaces_do_not_leak(s: StoreV, e: EventV, t: StoreV, space: SpaceId, k: Key)
    requires
        ingested(s, e, t),
        match e {
            EventV::MessagePosted { message, .. } => message.space_id == space,
            EventV::MessageEdited { message, .. } => message.space_id == space,
            EventV::MessageDeleted { space_id, .. } => space_id == space,
            EventV::ReactionUpdated { space_id, .. } => space_id == space,
            EventV::HistoryChunk { space_id, .. } => space_id == space,
            _ => false,
        },
        k.0 != space,
    ensures
        t.messages.dom().contains(k) <==> s.messages.dom().contains(k),
        s.messages.dom().contains(k) ==> t.messages[k] == s.messages[k],
{
    match e {
        EventV::HistoryChunk { messages, .. } => lemma_with_history(s.messages, space, messages),
        _ => {},
    }
}

/// A user who stopped typing is not listed as typing, whoever else is.
pub proof fn law_stopped_typing(s: StoreV, space: SpaceId, user: UserId, t: StoreV)
    requires
        ingested(s, (EventV::TypingStopped { space_id: space, user_id: user }), t),
        s.spaces.dom().contains(space),
    ensures
        !t.spaces[space].typing_users.contains(user),
        forall|u: UserId|
            u != user ==> (t.spaces[space].typing_users.contains(u)
                <==> #[trigger] s.spaces[space].typing_users.contains(u)),
{
    lemma_others(s.spaces[space].typing_users, user);
}

proof fn lemma_others(u: Seq<UserId>, user: UserId)
    ensures
        !others(u, user).contains(user),
        forall|q: UserId| q != user ==> (others(u, user).contains(q) <==> #[trigger] u.contains(q)),
    decreases u.len(),
{
    if u.len() > 0 {
        let front = u.drop_last();
        lemma_others(front, user);
        assert forall|q: UserId| q != user implies (others(u, user).contains(q)
            <==> #[trigger] u.contains(q)) by {
            assert(front.contains(q) <==> others(front, user).contains(q));
            if u.contains(q) {
                let i = u.index_of(q);
                if i < front.len() {
                    assert(front[i] == q);
                    assert(front.contains(q));
                    let j = others(front, user).index_of(q);
                    if u.last() != user {
                        assert(others(u, user)[j] == q);
                    }
                } else {
                    assert(others(u, user).last() == q);
                }
            }
            if others(u, user).contains(q) {
                let i = others(u, user).index_of(q);
                if u.last() != user && i == others(u, user).len() - 1 {
                    assert(u[u.len() - 1] == q);
                } else {
                    assert(others(front, user)[i] == q);
                    assert(front.contains(q));
                    let j = front.index_of(q);
                    assert(u[j] == q);
                }
            }
        }
        if others(u, user).contains(user) {
            let i = others(u, user).index_of(user);
            if u.last() != user && i == others(u, user).len() - 1 {
            } else {
                assert(others(front, user)[i] == user);
                assert(others(front, user).contains(user));
            }
        }
    }
}

} // verus!
