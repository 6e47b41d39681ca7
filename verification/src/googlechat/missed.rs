//! What is not understood is noted and gives out nothing, and what a loading needs is asked
//! for.
use vstd::prelude::*;

use crate::googlechat::dispatch::{dispatched, noted, noted_all, recognized, Feed};
use crate::googlechat::proto;
use crate::googlechat::world::{
    after_reply, calls_for, is_world_request, month_before, LoadCall, LoadReply, LoadV, Stage,
};
use crate::types::ids::Pool;

verus! {

// ───────────────────────── events of no known sort ─────────────────────────

/// Nothing is in the body.
pub open spec fn holds_nothing(b: proto::EventBody) -> bool {
    &&& b.message_posted is None
    &&& b.message_deleted is None
    &&& b.message_reaction is None
    &&& b.message_reactions_summary is None
    &&& b.typing_state_changed_event is None
    &&& b.group_read_state_updated_event is None
    &&& b.topic_created is None
    &&& b.membership_changed is None
    &&& b.group_updated is None
    &&& b.user_status_updated_event is None
    &&& !b.group_viewed
    &&& !b.read_receipt_changed
    &&& !b.web_push_notification
}

/// The number of the sort of a body: zero where it does not say.
pub open spec fn sort_of(b: proto::EventBody) -> i32 {
    if b.event_type is Some {
        b.event_type->0
    } else {
        0
    }
}

/// A body in which nothing is known gives out nothing, and its sort is noted as far as there
/// is room for its number. A body in which something is known is not noted.
pub proof fn law_what_is_not_known_is_noted(b: proto::EventBody, s: Set<i32>, f: Feed, n: i32)
    ensures
        holds_nothing(b) ==> dispatched(b, f) == f,
        noted(b, s).contains(n) <==> s.contains(n) || (holds_nothing(b) && sort_of(b) == n && 0
            <= n < 128),
        recognized(b) <==> !holds_nothing(b),
{
}

/// The body is of the sort with this number, and nothing in it is known.
pub open spec fn is_unknown(b: proto::EventBody, n: i32) -> bool {
    holds_nothing(b) && sort_of(b) == n && 0 <= n < 128
}

/// Of many bodies every sort that is not known is noted, and no other.
pub proof fn law_every_unknown_sort_is_noted(bs: Seq<proto::EventBody>, s: Set<i32>, n: i32)
    ensures
        noted_all(bs, s).contains(n) <==> s.contains(n) || exists|i: int|
            0 <= i < bs.len() && is_unknown(#[trigger] bs[i], n),
    decreases bs.len(),
{
    if bs.len() > 0 {
        let t = bs.drop_last();
        law_every_unknown_sort_is_noted(t, s, n);
        law_what_is_not_known_is_noted(
            bs.last(),
            noted_all(t, s),
            Feed { pool: Seq::empty(), events: Seq::empty() },
            n,
        );
        if is_unknown(bs.last(), n) {
            assert(is_unknown(bs[bs.len() - 1], n));
        }
        if exists|i: int| 0 <= i < t.len() && is_unknown(#[trigger] t[i], n) {
            let i = choose|i: int| 0 <= i < t.len() && is_unknown(#[trigger] t[i], n);
            assert(is_unknown(bs[i], n));
        }
        if exists|i: int| 0 <= i < bs.len() && is_unknown(#[trigger] bs[i], n) {
            let i = choose|i: int| 0 <= i < bs.len() && is_unknown(#[trigger] bs[i], n);
            if i < t.len() {
                assert(is_unknown(t[i], n));
            }
        }
    }
}


// ───────────────────────── loading ─────────────────────────

/// The last thirty days are asked for, to the microsecond, wherever there is a time so long
/// ago.
pub proof fn law_a_month_is_asked_for(now: i64)
    ensures
        now >= 0 ==> now - month_before(now) == 30 * 24 * 60 * 60 * 1_000_000,
        month_before(now) <= now,
{
}

/// A loading asks for the user who is signed in by that user's name, for the events of the
/// time up to now, and for the next of the spaces that it has not asked for; nothing more once
/// it is done.
pub proof fn law_a_loading_asks_for_what_it_needs(s: LoadV, now: i64, c: Option<LoadCall>)
    requires
        calls_for(s, now, c),
    ensures
        s.stage == Stage::Done <==> c is None,
        s.stage == Stage::Members ==> (c matches Some(LoadCall::Members(q))
            && q.member_ids@.len() == 1 && q.member_ids@[0].user_id is Some
            && q.member_ids@[0].user_id->0.id is Some && q.member_ids@[0].user_id->0.id->0@
            == s.self_id),
        s.stage == Stage::CatchUp ==> (c matches Some(LoadCall::CatchUp(q)) && q.range is Some
            && q.range->0.to_revision_timestamp == Some(now)
            && q.range->0.from_revision_timestamp is Some
            && q.range->0.from_revision_timestamp->0 <= now),
        s.stage == Stage::Group ==> (c matches Some(LoadCall::Group(q)) && q.group_id == Some(
            s.groups[s.spaces.len() as int].group_id,
        )),
        s.stage == Stage::World ==> c is Some && c->0 is World,
        s.stage == Stage::Page ==> c is Some && c->0 is Page,
        s.stage == Stage::SelfStatus ==> c is Some && c->0 is SelfStatus,
{
}

/// Rooms and direct messages are asked for alike, up to the same number of each.
pub proof fn law_rooms_and_direct_messages_are_asked_for(
    q: proto::PaginatedWorldRequest,
    page: i32,
)
    requires
        is_world_request(q, page),
    ensures
        q.world_section_requests@.len() == 2,
        forall|i: int|
            0 <= i < 2 ==> (#[trigger] q.world_section_requests@[i]).page_size == Some(page),
        q.world_section_requests@[0].world_section_type
            != q.world_section_requests@[1].world_section_type,
{
}

/// A reply that was not asked for changes nothing.
pub proof fn law_only_what_was_asked_for_is_taken(s: LoadV, r: LoadReply, pool: Pool)
    ensures
        r is SelfStatus && s.stage != Stage::SelfStatus ==> after_reply(s, r, pool) == (s, pool),
        r is Members && s.stage != Stage::Members ==> after_reply(s, r, pool) == (s, pool),
        r is World && s.stage != Stage::World ==> after_reply(s, r, pool) == (s, pool),
        r is Page && s.stage != Stage::Page ==> after_reply(s, r, pool) == (s, pool),
        r is CatchUp && s.stage != Stage::CatchUp ==> after_reply(s, r, pool) == (s, pool),
        r is Group && s.stage != Stage::Group ==> after_reply(s, r, pool) == (s, pool),
{
}

} // verus!
