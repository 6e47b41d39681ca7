//! What the loading of the spaces comes to: every space that the service or the page lists,
//! under its name, with what it is called, and the user who is signed in.
use vstd::prelude::*;

use crate::googlechat::convert::world_items;
use crate::googlechat::proto;
use crate::googlechat::reply::text_member;
use crate::googlechat::told::{
    enough, grown, is_space, lemma_grown_same, lemma_grown_through, lemma_one_name,
    lemma_still_means, means, reads,
};
use crate::googlechat::world::{
    after_reply, clean_name, entry_spaces, event_groups, item_name, item_spaces, known,
    page_entries, page_name, without_section, LoadReply, LoadV, Stage,
};
use crate::json::{parsed, JsonV};
use crate::text::{after, ends, or_empty, starts, trimmed, white};
use crate::types::ids::{PlatformId, Pool};
use crate::types::space::{SpaceKind, SpaceV, UserV};

verus! {

broadcast use vstd::string::group_string_axioms;

// ───────────────────────── spaces of the world ─────────────────────────

/// `s` is the name under which a space is kept: that of the room, or that of the direct
/// message with a prefix.
pub open spec fn keeps_as(g: proto::GroupId, s: Seq<char>) -> bool {
    if g.space_id is Some {
        reads(g.space_id->0.space_id, s)
    } else {
        g.dm_id is Some && exists|t: Seq<char>| #[trigger]
            reads(g.dm_id->0.dm_id, t) && s == "dm/"@ + t
    }
}

/// The space has a name: it is a room with one, or a direct message.
pub open spec fn has_name(g: Option<proto::GroupId>) -> bool {
    g is Some && if g->0.space_id is Some {
        g->0.space_id->0.space_id matches Some(t) && t@.len() > 0
    } else {
        g->0.dm_id is Some
    }
}

/// `v` is the space of that group: kept under its name, shown under the name given, or else
/// under the name under which it is kept, and of no known time.
pub open spec fn is_listed(
    v: SpaceV,
    g: proto::GroupId,
    shown: Option<String>,
    pool: Pool,
) -> bool {
    &&& exists|s: Seq<char>| #[trigger]
        keeps_as(g, s) && is_space(v.id, s, pool) && v.name == if shown is Some {
            shown->0@
        } else {
            s
        }
    &&& v.kind == if g.space_id is Some {
        SpaceKind::Room
    } else {
        SpaceKind::DirectMessage
    }
    &&& v.platform == PlatformId::GoogleChat
    &&& v.unread_count == 0
    &&& v.last_activity.0 == 0
    &&& v.sort_timestamp.0 == 0
    &&& v.typing_users.len() == 0
}

proof fn lemma_item_name(g: Option<proto::GroupId>)
    ensures
        item_name(g) is Some <==> has_name(g),
        item_name(g) matches Some((name, dm)) ==> keeps_as(g->0, name) && (dm
            <==> g->0.space_id is None),
{
    if g is Some && g->0.space_id is None && g->0.dm_id is Some {
        let t = or_empty(crate::text::text_opt(g->0.dm_id->0.dm_id));
        reveal_strlit("dm/");
        assert(reads(g->0.dm_id->0.dm_id, t));
        assert(("dm/"@ + t).len() > 0);
    }
}

proof fn lemma_listed_stays(
    v: SpaceV,
    g: proto::GroupId,
    shown: Option<String>,
    p: Pool,
    q: Pool,
)
    requires
        is_listed(v, g, shown, p),
        grown(p, q),
    ensures
        is_listed(v, g, shown, q),
{
    let s = choose|s: Seq<char>| #[trigger]
        keeps_as(g, s) && is_space(v.id, s, p) && v.name == if shown is Some {
            shown->0@
        } else {
            s
        };
    lemma_still_means(p, q, v.id.id, s);
}

/// The items that have a name.
pub open spec fn with_names(items: Seq<proto::WorldItemLite>) -> Seq<proto::WorldItemLite> {
    items.filter(|i: proto::WorldItemLite| has_name(i.group_id))
}

/// Every item of the world that has a name is loaded as a space, in their order, and nothing
/// else is.
pub proof fn law_all_items_are_loaded(items: Seq<proto::WorldItemLite>, pool: Pool)
    ensures
        ({
            let (q, o) = item_spaces(items, pool);
            let ms = with_names(items);
            &&& grown(pool, q)
            &&& o.len() == ms.len()
            &&& enough(q) ==> forall|i: int|
                0 <= i < o.len() ==> is_listed(
                    #[trigger] o[i],
                    ms[i].group_id->0,
                    ms[i].room_name,
                    q,
                )
        }),
    decreases items.len(),
{
    reveal(Seq::filter);
    let (q, o) = item_spaces(items, pool);
    let ms = with_names(items);
    if items.len() == 0 {
        lemma_grown_same(pool);
    } else {
        let front = items.drop_last();
        let it = items.last();
        let (p, before) = item_spaces(front, pool);
        let had = with_names(front);
        law_all_items_are_loaded(front, pool);
        lemma_item_name(it.group_id);
        if has_name(it.group_id) {
            lemma_one_name(p, (item_name(it.group_id)->0).0);
        } else {
            lemma_grown_same(p);
        }
        lemma_grown_through(pool, p, q);
        if enough(q) {
            assert forall|i: int| 0 <= i < o.len() implies is_listed(
                #[trigger] o[i],
                ms[i].group_id->0,
                ms[i].room_name,
                q,
            ) by {
                if i < before.len() {
                    assert(o[i] == before[i] && ms[i] == had[i]);
                    lemma_listed_stays(before[i], had[i].group_id->0, had[i].room_name, p, q);
                } else {
                    let name = (item_name(it.group_id)->0).0;
                    assert(keeps_as(it.group_id->0, name));
                }
            }
        }
    }
}

// ───────────────────────── spaces of the page ─────────────────────────

/// The text of a member of an entry, if it has one.
pub open spec fn entry_text(e: JsonV, key: Seq<char>) -> Seq<char> {
    match e.member(key) {
        Some(JsonV::Text(t)) => t,
        _ => Seq::empty(),
    }
}

/// `v` is the space of an entry of the side bar: shown under its name without what the side
/// bar adds, and a direct message where its id has the prefix of one.
pub open spec fn is_entry(v: SpaceV, e: JsonV, pool: Pool) -> bool {
    let id = entry_text(e, "id"@);
    let shown = clean_name(entry_text(e, "name"@));
    &&& v.name == shown
    &&& is_space(
        v.id,
        if starts(id, "dm/"@) {
            id
        } else if starts(id, "space/"@) {
            after(id, 6)
        } else if starts(id, "spaces/"@) {
            after(id, 7)
        } else if id.len() > 0 {
            id
        } else {
            shown
        },
        pool,
    )
    &&& v.kind == SpaceKind::DirectMessage <==> starts(id, "dm/"@)
    &&& v.kind == SpaceKind::Room <==> !starts(id, "dm/"@)
    &&& v.last_activity.0 == 0 && v.sort_timestamp.0 == 0 && v.unread_count == 0
}

/// The entries that have a name.
pub open spec fn named_entries(es: Seq<JsonV>) -> Seq<JsonV> {
    es.filter(|e: JsonV| entry_text(e, "name"@).len() > 0)
}

/// Every entry of the side bar that has a name is loaded as a space, in their order, and nothing
/// else is.
pub proof fn law_all_entries_are_loaded(es: Seq<JsonV>, pool: Pool)
    ensures
        ({
            let (q, o) = entry_spaces(es, pool);
            let ms = named_entries(es);
            &&& grown(pool, q)
            &&& o.len() == ms.len()
            &&& enough(q) ==> forall|i: int| 0 <= i < o.len() ==> is_entry(#[trigger] o[i], ms[i], q)
        }),
    decreases es.len(),
{
    reveal(Seq::filter);
    reveal_strlit("space/");
    reveal_strlit("spaces/");
    let (q, o) = entry_spaces(es, pool);
    let ms = named_entries(es);
    if es.len() == 0 {
        lemma_grown_same(pool);
    } else {
        let front = es.drop_last();
        let e = es.last();
        let (p, before) = entry_spaces(front, pool);
        let had = named_entries(front);
        law_all_entries_are_loaded(front, pool);
        let raw = or_empty(text_member(e, "name"@));
        let id = or_empty(text_member(e, "id"@));
        assert(raw == entry_text(e, "name"@));
        assert(id == entry_text(e, "id"@));
        if raw.len() > 0 {
            lemma_one_name(p, page_name(id, clean_name(raw)));
        } else {
            lemma_grown_same(p);
        }
        lemma_grown_through(pool, p, q);
        if enough(q) {
            assert forall|i: int| 0 <= i < o.len() implies is_entry(#[trigger] o[i], ms[i], q) by {
                if i < before.len() {
                    assert(o[i] == before[i] && ms[i] == had[i]);
                    let s = crate::types::ids::string_of(p, before[i].id.id)->0;
                    lemma_still_means(p, q, before[i].id.id, s);
                }
            }
        }
    }
}

/// A name that the side bar adds nothing to.
pub open spec fn is_clean(s: Seq<char>) -> bool {
    &&& s.len() > 0 && !white(s[0]) && !white(s.last())
    &&& !starts(s, "Unread "@) && !starts(s, "Muted "@) && !starts(s, "Active "@)
    &&& !ends(s, " Pinned conversations"@) && !ends(s, " Conversations"@) && !ends(
        s,
        " conversations"@,
    ) && !ends(s, " Pinned"@)
}

/// A clean name is shown as it is. The marks of a space's state before it and the name of its
/// section behind it are left off.
pub proof fn law_a_clean_name_stays(s: Seq<char>)
    requires
        is_clean(s),
    ensures
        clean_name(s) == s,
        clean_name("Unread "@ + s) == s,
        clean_name("Muted "@ + s) == s,
        clean_name("Active "@ + s) == s,
        clean_name("Unread "@ + s + " Pinned conversations"@) == s,
{
    reveal_strlit("Unread ");
    reveal_strlit("Muted ");
    reveal_strlit("Active ");
    reveal_strlit(" Pinned conversations");
    assert(trimmed(s) == s);
    let a = "Unread "@ + s;
    let b = "Muted "@ + s;
    let c = "Active "@ + s;
    let u = s + " Pinned conversations"@;
    let d = "Unread "@ + s + " Pinned conversations"@;
    assert(a.last() == s.last() && b.last() == s.last() && c.last() == s.last());
    assert(trimmed(a) == a && trimmed(b) == b && trimmed(c) == c);
    assert(a.subrange(0, 7) =~= "Unread "@ && after(a, 7) =~= s);
    assert(b.subrange(0, 6) =~= "Muted "@ && after(b, 6) =~= s);
    assert(b.subrange(0, 7)[0] == 'M' && c.subrange(0, 7)[0] == 'A' && c.subrange(0, 6)[0] == 'A');
    assert(c.subrange(0, 7) =~= "Active "@ && after(c, 7) =~= s);
    assert(trimmed(d) == d);
    assert(d.subrange(0, 7) =~= "Unread "@ && after(d, 7) =~= u);
    let n = u.len() - " Pinned conversations"@.len();
    assert(u.subrange(n, u.len() as int) =~= " Pinned conversations"@);
    assert(u.take(n) =~= s);
}

// ───────────────────────── spaces of recent events ─────────────────────────

proof fn lemma_groups_grow(events: Seq<proto::Event>, n: int)
    requires
        0 <= n <= events.len(),
    ensures
        event_groups(events.take(n)).len() <= event_groups(events).len(),
        event_groups(events).take(event_groups(events.take(n)).len() as int) == event_groups(
            events.take(n),
        ),
    decreases events.len() - n,
{
    let all = event_groups(events);
    if n == events.len() {
        assert(events.take(n) =~= events);
        assert(all.take(all.len() as int) =~= all);
    } else {
        lemma_groups_grow(events, n + 1);
        let next = event_groups(events.take(n + 1));
        let this = event_groups(events.take(n));
        assert(events.take(n + 1).drop_last() =~= events.take(n));
        assert(next.take(this.len() as int) =~= this);
        assert(all.take(this.len() as int) =~= all.take(next.len() as int).take(this.len() as int));
    }
}

/// The space of every event that names one is gathered, under its name, and the spaces of
/// earlier events come before those of later ones.
pub proof fn law_the_space_of_every_event_is_gathered(events: Seq<proto::Event>, i: int)
    requires
        0 <= i < events.len(),
    ensures
        has_name(events[i].group_id) ==> exists|k: int|
            0 <= k < event_groups(events).len() && keeps_as(
                events[i].group_id->0,
                (#[trigger] event_groups(events)[k]).id,
            ),
        event_groups(events).take(event_groups(events.take(i)).len() as int) == event_groups(
            events.take(i),
        ),
        event_groups(Seq::empty()).len() == 0,
{
    let all = event_groups(events);
    lemma_groups_grow(events, i);
    lemma_groups_grow(events, i + 1);
    lemma_item_name(events[i].group_id);
    if has_name(events[i].group_id) {
        let name = (item_name(events[i].group_id)->0).0;
        let next = event_groups(events.take(i + 1));
        let this = event_groups(events.take(i));
        assert(events.take(i + 1).drop_last() =~= events.take(i));
        assert(events.take(i + 1).last() == events[i]);
        let k = if known(this, name) {
            choose|k: int| 0 <= k < this.len() && (#[trigger] this[k]).id == name
        } else {
            this.len() as int
        };
        assert(next[k].id == name);
        assert(all.take(next.len() as int)[k] == all[k]);
        assert(keeps_as(events[i].group_id->0, all[k].id));
    }
}

/// Every space that is gathered is that of an event, with the id by which the service is asked
/// for it.
pub proof fn law_only_spaces_of_events_are_gathered(events: Seq<proto::Event>, k: int)
    requires
        0 <= k < event_groups(events).len(),
    ensures
        exists|i: int|
            0 <= i < events.len() && (#[trigger] events[i]).group_id == Some(
                event_groups(events)[k].group_id,
            ) && keeps_as(event_groups(events)[k].group_id, event_groups(events)[k].id)
                && (event_groups(events)[k].is_dm <==> event_groups(events)[k].group_id.space_id
                is None),
    decreases events.len(),
{
    let front = events.drop_last();
    let before = event_groups(front);
    lemma_item_name(events.last().group_id);
    if k < before.len() {
        law_only_spaces_of_events_are_gathered(front, k);
        let i = choose|i: int|
            0 <= i < front.len() && (#[trigger] front[i]).group_id == Some(before[k].group_id)
                && keeps_as(before[k].group_id, before[k].id) && (before[k].is_dm
                <==> before[k].group_id.space_id is None);
        assert(events[i] == front[i]);
    } else {
        assert(events[events.len() - 1] == events.last());
    }
}

// ───────────────────────── steps ─────────────────────────

/// `s` names the user who is signed in, and is empty where the reply tells of none.
pub open spec fn names_self(r: Option<proto::GetSelfUserStatusResponse>, s: Seq<char>) -> bool {
    if r matches Some(x) && x.user_status matches Some(u) && u.user_id is Some {
        reads(r->0.user_status->0.user_id->0.id, s)
    } else {
        s.len() == 0
    }
}

/// The user who is signed in is kept under that user's name, or as `self` where it is not known.
pub open spec fn is_self(u: UserV, id: Seq<char>, pool: Pool) -> bool {
    &&& u.id.platform == PlatformId::GoogleChat
    &&& means(
        pool,
        u.id.id,
        if id.len() > 0 {
            id
        } else {
            "self"@
        },
    )
    &&& !u.is_bot
    &&& u.presence == crate::types::space::PresenceStatus::Active
    &&& u.avatar_url is None
}

/// Who is signed in is asked first. Plain HTTP calls go on to the missed events; a browser goes on
/// to the name of the user, or where the user is not known to the world.
pub proof fn law_the_user_is_learned(
    s: LoadV,
    r: Option<proto::GetSelfUserStatusResponse>,
    pool: Pool,
    id: Seq<char>,
)
    requires
        s.stage == Stage::SelfStatus,
        names_self(r, id),
        enough(after_reply(s, LoadReply::SelfStatus(r), pool).1),
    ensures
        ({
            let (t, q) = after_reply(s, LoadReply::SelfStatus(r), pool);
            &&& t.self_id == id
            &&& t.stage == if s.direct {
                Stage::CatchUp
            } else if id.len() > 0 {
                Stage::Members
            } else {
                Stage::World
            }
            &&& t.stage != Stage::Members ==> t.me is Some && is_self(t.me->0, id, q)
                && t.me->0.display_name == "Me"@ && t.me->0.email is None
            &&& t.spaces == s.spaces && t.groups == s.groups && t.direct == s.direct
        }),
{
    let (t, q) = after_reply(s, LoadReply::SelfStatus(r), pool);
    assert(t.self_id =~= id);
    lemma_one_name(pool, crate::googlechat::world::own_name(id));
}

/// The user who is signed in takes the name and the address of the first user of the reply.
pub proof fn law_the_users_name_is_learned(
    s: LoadV,
    r: proto::GetMembersResponse,
    pool: Pool,
)
    requires
        s.stage == Stage::Members,
        enough(after_reply(s, LoadReply::Members(Some(r)), pool).1),
        r.members@.len() > 0,
        r.members@[0].user is Some,
    ensures
        ({
            let (t, q) = after_reply(s, LoadReply::Members(Some(r)), pool);
            let u = r.members@[0].user->0;
            &&& t.stage == Stage::World
            &&& t.me is Some && is_self(t.me->0, s.self_id, q)
            &&& t.me->0.display_name == if u.name is Some {
                u.name->0@
            } else {
                "Me"@
            }
            &&& t.me->0.email == if u.email is Some {
                Some(u.email->0@)
            } else {
                None
            }
            &&& t.self_id == s.self_id && t.spaces == s.spaces && t.direct == s.direct
        }),
{
    lemma_one_name(pool, crate::googlechat::world::own_name(s.self_id));
}

/// The spaces of the world are all taken, and where there are none the page is read. The spaces
/// of the page are all taken, and that ends the loading.
pub proof fn law_the_spaces_are_taken(
    s: LoadV,
    r: proto::PaginatedWorldResponse,
    page: String,
    j: JsonV,
    pool: Pool,
)
    requires
        parsed(page@) == Ok::<JsonV, Seq<char>>(j),
        j.member("error"@) is None,
    ensures
        s.stage == Stage::World ==> {
            let (t, q) = after_reply(s, LoadReply::World(Some(r)), pool);
            &&& t.spaces == item_spaces(world_items(r), pool).1
            &&& t.stage == if with_names(world_items(r)).len() == 0 {
                Stage::Page
            } else {
                Stage::Done
            }
            &&& t.me == s.me && t.self_id == s.self_id
        },
        s.stage == Stage::Page ==> {
            let (t, q) = after_reply(s, LoadReply::Page(Some(page)), pool);
            &&& t.stage == Stage::Done
            &&& t.me == s.me && t.self_id == s.self_id
            &&& t.spaces == entry_spaces(page_entries(j), pool).1
            &&& j.member("spaces"@) matches Some(JsonV::Array(a)) ==> page_entries(j) == a
        },
{
    law_all_items_are_loaded(world_items(r), pool);
}

/// The spaces of the missed events are asked for one after the other, in their order, and each
/// is taken under its name, shown as the reply names it. The last one ends the loading.
pub proof fn law_each_gathered_space_is_taken(
    s: LoadV,
    missed: proto::CatchUpResponse,
    r: Option<proto::GetGroupResponse>,
    pool: Pool,
)
    requires
        enough(after_reply(s, LoadReply::Group(r), pool).1),
    ensures
        s.stage == Stage::CatchUp ==> {
            let t = after_reply(s, LoadReply::CatchUp(Some(missed)), pool).0;
            &&& t.groups == event_groups(missed.events@)
            &&& t.spaces.len() == 0
            &&& t.stage == if t.groups.len() > 0 {
                Stage::Group
            } else {
                Stage::Done
            }
            &&& t.me == s.me
        },
        s.stage == Stage::Group && s.sound() ==> {
            let (t, q) = after_reply(s, LoadReply::Group(r), pool);
            let g = s.groups[s.spaces.len() as int];
            &&& t.spaces.len() == s.spaces.len() + 1
            &&& t.spaces.take(s.spaces.len() as int) == s.spaces
            &&& is_space(t.spaces.last().id, g.id, q)
            &&& t.spaces.last().kind == if g.is_dm {
                SpaceKind::DirectMessage
            } else {
                SpaceKind::Room
            }
            &&& t.spaces.last().name == if r matches Some(x) && x.group matches Some(y)
                && y.name is Some {
                r->0.group->0.name->0@
            } else {
                g.id
            }
            &&& t.stage == Stage::Done <==> t.spaces.len() == s.groups.len()
            &&& t.groups == s.groups && t.me == s.me
        },
{
    if s.stage == Stage::Group && s.sound() {
        let g = s.groups[s.spaces.len() as int];
        let t = after_reply(s, LoadReply::Group(r), pool).0;
        lemma_one_name(pool, g.id);
        assert(t.spaces.take(s.spaces.len() as int) =~= s.spaces);
    }
}

/// What the side bar writes behind a name is cut off, whichever section it is.
pub proof fn law_each_section_is_cut_off(s: Seq<char>)
    ensures
        without_section(s + " Pinned conversations"@) == s,
        without_section(s + " Conversations"@) == s,
        !ends(s, " Pinned"@) ==> without_section(s + " conversations"@) == s,
        without_section(s + " Pinned"@) == s,
{
    reveal_strlit(" Pinned conversations");
    reveal_strlit(" Conversations");
    reveal_strlit(" conversations");
    reveal_strlit(" Pinned");
    let n = s.len() as int;
    let a = s + " Pinned conversations"@;
    let b = s + " Conversations"@;
    let c = s + " conversations"@;
    let d = s + " Pinned"@;
    assert(a.subrange(n, n + 21) =~= " Pinned conversations"@);
    assert(a.take(n) =~= s);
    assert(a.subrange(0, n) =~= s);
    assert(b.subrange(n, n + 14) =~= " Conversations"@);
    assert(b.subrange(0, n) =~= s);
    assert(c.subrange(n, n + 14) =~= " conversations"@);
    assert(c.subrange(0, n) =~= s);
    assert(d.subrange(n, n + 7) =~= " Pinned"@);
    assert(d.subrange(0, n) =~= s);
    if ends(b, " Pinned conversations"@) {
        let k = b.len() - 21;
        assert(b.subrange(k, k + 21)[8] == b[k + 8]);
        assert(b[n + 1] == 'C');
    }
    if ends(c, " Pinned conversations"@) {
        let k = c.len() - 21;
        let tail = c.subrange(k, k + 21);
        assert(k + 7 == n);
        assert(s.subrange(n - 7, n) =~= tail.subrange(0, 7));
        assert(tail.subrange(0, 7) =~= " Pinned"@);
        assert(ends(s, " Pinned"@));
    }
    if ends(c, " Conversations"@) {
        let k = c.len() - 14;
        assert(c.subrange(k, k + 14)[1] == c[n + 1]);
    }
    assert(d.last() == 'd');
    if ends(d, " Pinned conversations"@) {
        assert(d.subrange(d.len() - 21, d.len() as int)[20] == d.last());
    }
    if ends(d, " Conversations"@) {
        assert(d.subrange(d.len() - 14, d.len() as int)[13] == d.last());
    }
    if ends(d, " conversations"@) {
        assert(d.subrange(d.len() - 14, d.len() as int)[13] == d.last());
    }
}

} // verus!
