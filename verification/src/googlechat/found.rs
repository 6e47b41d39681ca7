//! What a search gives: every hit that the service sends and that can be placed is in the
//! results, once, with what the service said of it.
use vstd::prelude::*;

use crate::googlechat::search::{
    all_messages, all_spaces, grouped, law_threads_hold_their_topics, list_in, message_hit,
    of_topic, results_of, search_argument, space_hit, space_hits, space_options, thread_hits,
    thread_of, MessageHitV, SearchResults, SpaceHitV, ThreadHitV,
};
use crate::json::JsonV;
use crate::text::natural;

verus! {

// ───────────────────────── single hits ─────────────────────────

/// `s` is the text at a place of a list, empty where there is none.
pub open spec fn says(j: JsonV, i: int, s: Seq<char>) -> bool {
    if j matches JsonV::Array(a) && 0 <= i < a.len() && a[i] is Text {
        s == j->Array_0[i]->Text_0
    } else {
        s.len() == 0
    }
}

/// The list of the fields of the message that a hit tells of, if it has a place for the
/// topic.
pub open spec fn tells_fields(hit: JsonV) -> bool {
    &&& hit is Array && hit->Array_0.len() > 0
    &&& hit->Array_0[0] is Array && hit->Array_0[0]->Array_0.len() > 17
}

/// A hit that names the topic of its message.
pub open spec fn names_topic(hit: JsonV) -> bool {
    tells_fields(hit) && exists|s: Seq<char>| #[trigger]
        says(hit->Array_0[0]->Array_0[17], 0, s) && s.len() > 0
}

/// `m` is the message of a hit: its topic, its author, its text, and its time where that
/// is written as a number.
pub open spec fn is_hit(m: MessageHitV, hit: JsonV) -> bool {
    let fields = hit->Array_0[0];
    &&& says(fields->Array_0[17], 0, m.topic_id)
    &&& says(fields->Array_0[4], 0, m.author_id)
    &&& says(fields, 5, m.text)
    &&& match fields->Array_0[11] {
        JsonV::Text(t) => m.timestamp_usec == if natural(t, u64::MAX as nat) is Some {
            natural(t, u64::MAX as nat)->0
        } else {
            0
        },
        _ => m.timestamp_usec == 0,
    }
}

/// The hits that name the topic of their message.
pub open spec fn placed(hits: Seq<JsonV>) -> Seq<JsonV> {
    hits.filter(|h: JsonV| names_topic(h))
}

/// A hit gives a message if and only if it names the topic, and the message is what the hit
/// says.
pub proof fn law_a_hit_is_read(hit: JsonV)
    ensures
        message_hit(hit) is Some <==> names_topic(hit),
        message_hit(hit) matches Some(m) ==> is_hit(m, hit),
{
    if tells_fields(hit) {
        let topic = hit->Array_0[0]->Array_0[17];
        assert forall|s: Seq<char>| #[trigger] says(topic, 0, s) && s.len() > 0 implies message_hit(
            hit,
        ) is Some by {}
        if message_hit(hit) is Some {
            assert(says(topic, 0, message_hit(hit)->0.topic_id));
        }
    }
}

/// The messages of the hits are those of the hits that name their topic, in their order, and
/// each is what its hit says.
pub proof fn law_every_hit_is_read(hits: Seq<JsonV>)
    ensures
        all_messages(hits).len() == placed(hits).len(),
        forall|i: int|
            0 <= i < all_messages(hits).len() ==> is_hit(
                #[trigger] all_messages(hits)[i],
                placed(hits)[i],
            ),
    decreases hits.len(),
{
    reveal(Seq::filter);
    if hits.len() > 0 {
        law_every_hit_is_read(hits.drop_last());
        law_a_hit_is_read(hits.last());
        let before = all_messages(hits.drop_last());
        assert forall|i: int| 0 <= i < all_messages(hits).len() implies is_hit(
            #[trigger] all_messages(hits)[i],
            placed(hits)[i],
        ) by {
            if i < before.len() {
                assert(all_messages(hits)[i] == before[i]);
                assert(placed(hits)[i] == placed(hits.drop_last())[i]);
            }
        }
    }
}

/// The messages of two lists of hits are those of the first and behind them those of the
/// second, and so are the spaces.
pub proof fn law_hits_go_on(a: Seq<JsonV>, b: Seq<JsonV>)
    ensures
        all_messages(a + b) == all_messages(a) + all_messages(b),
        all_spaces(a + b) == all_spaces(a) + all_spaces(b),
        all_messages(Seq::empty()).len() == 0,
        all_spaces(Seq::empty()).len() == 0,
    decreases b.len(),
{
    if b.len() == 0 {
        assert(a + b =~= a);
        assert(all_messages(a) + all_messages(b) =~= all_messages(a));
        assert(all_spaces(a) + all_spaces(b) =~= all_spaces(a));
    } else {
        assert((a + b).drop_last() =~= a + b.drop_last());
        law_hits_go_on(a, b.drop_last());
        assert(all_messages(a + b) =~= all_messages(a) + all_messages(b));
        assert(all_spaces(a + b) =~= all_spaces(a) + all_spaces(b));
    }
}

/// A hit that names its space: the first item is a list, with the name second and the kind
/// third.
pub open spec fn names_space(hit: JsonV) -> bool {
    &&& hit is Array && hit->Array_0.len() > 0
    &&& hit->Array_0[0] is Array && hit->Array_0[0]->Array_0.len() > 2
    &&& exists|s: Seq<char>| #[trigger] says(hit->Array_0[0], 1, s) && s.len() > 0
}

/// `h` is the space of a hit: its name, what it is called, and its kind where that is a
/// number.
pub open spec fn is_space_hit(h: SpaceHitV, hit: JsonV) -> bool {
    &&& says(hit->Array_0[0], 1, h.space_id)
    &&& says(hit, 2, h.name)
    &&& match hit->Array_0[0]->Array_0[2] {
        JsonV::Pos(n) => n <= i64::MAX ==> h.kind == n,
        JsonV::Neg(n) => h.kind == n,
        _ => h.kind == 0,
    }
}

/// The spaces of the hits are those of the hits that name one, in their order, and each is
/// what its hit says.
pub proof fn law_every_space_is_read(hits: Seq<JsonV>)
    ensures
        all_spaces(hits).len() == hits.filter(|h: JsonV| names_space(h)).len(),
        forall|i: int|
            0 <= i < all_spaces(hits).len() ==> is_space_hit(
                #[trigger] all_spaces(hits)[i],
                hits.filter(|h: JsonV| names_space(h))[i],
            ),
    decreases hits.len(),
{
    reveal(Seq::filter);
    if hits.len() > 0 {
        let front = hits.drop_last();
        let hit = hits.last();
        let named = hits.filter(|h: JsonV| names_space(h));
        let before = all_spaces(front);
        law_every_space_is_read(front);
        assert(space_hit(hit) is Some <==> names_space(hit)) by {
            if space_hit(hit) is Some {
                assert(says(hit->Array_0[0], 1, space_hit(hit)->0.space_id));
            }
        }
        assert forall|i: int| 0 <= i < all_spaces(hits).len() implies is_space_hit(
            #[trigger] all_spaces(hits)[i],
            named[i],
        ) by {
            if i < before.len() {
                assert(all_spaces(hits)[i] == before[i]);
                assert(named[i] == front.filter(|h: JsonV| names_space(h))[i]);
            }
        }
    }
}

// ───────────────────────── threads ─────────────────────────

proof fn lemma_of_topic(messages: Seq<MessageHitV>, topic: Seq<char>)
    ensures
        of_topic(messages, topic) == messages.filter(|m: MessageHitV| m.topic_id == topic),
    decreases messages.len(),
{
    reveal(Seq::filter);
    if messages.len() > 0 {
        lemma_of_topic(messages.drop_last(), topic);
    }
}

proof fn lemma_has_thread(threads: Seq<ThreadHitV>, topic: Seq<char>)
    ensures
        thread_of(threads, topic) matches Some(k) ==> 0 <= k < threads.len() && threads[k].topic_id
            == topic,
    decreases threads.len(),
{
    if threads.len() > 0 && threads.last().topic_id != topic {
        lemma_has_thread(threads.drop_last(), topic);
    }
}

/// The threads hold every message once: there is a thread for the topic of every message, no
/// two threads have the same topic, and a thread holds the messages of its topic, all of
/// them, in their order.
pub proof fn law_threads_are_whole(messages: Seq<MessageHitV>)
    ensures
        forall|i: int|
            0 <= i < messages.len() ==> exists|k: int|
                0 <= k < grouped(messages).len() && (#[trigger] grouped(messages)[k]).topic_id == (
                #[trigger] messages[i]).topic_id && grouped(messages)[k].messages.contains(
                    messages[i],
                ),
        forall|k: int|
            0 <= k < grouped(messages).len() ==> (#[trigger] grouped(messages)[k]).messages
                == messages.filter(
                |m: MessageHitV| m.topic_id == grouped(messages)[k].topic_id,
            ) && grouped(messages)[k].messages.len() > 0,
        forall|i: int, j: int|
            0 <= i < j < grouped(messages).len() ==> (#[trigger] grouped(messages)[i]).topic_id != (
            #[trigger] grouped(messages)[j]).topic_id,
{
    let all = grouped(messages);
    law_threads_hold_their_topics(messages);
    lemma_no_empty_thread(messages);
    assert forall|k: int| 0 <= k < all.len() implies (#[trigger] all[k]).messages
        == messages.filter(|m: MessageHitV| m.topic_id == all[k].topic_id) by {
        lemma_of_topic(messages, all[k].topic_id);
    }
    assert forall|i: int| 0 <= i < messages.len() implies exists|k: int|
        0 <= k < all.len() && (#[trigger] all[k]).topic_id == (#[trigger] messages[i]).topic_id
            && all[k].messages.contains(messages[i]) by {
        let t = messages[i].topic_id;
        let pred = |m: MessageHitV| m.topic_id == t;
        lemma_of_topic(messages, t);
        messages.lemma_filter_contains(pred, i);
        assert(pred(messages[i]));
        assert(messages.filter(pred).contains(messages[i]));
        lemma_has_thread(all, t);
        let k = thread_of(all, t)->0;
        assert(thread_of(all, t) is Some) by {
            if thread_of(all, t) is None {
                assert(of_topic(messages, t).len() == 0);
            }
        }
        assert(all[k].messages == of_topic(messages, all[k].topic_id));
    }
}

proof fn lemma_no_empty_thread(messages: Seq<MessageHitV>)
    ensures
        forall|k: int|
            0 <= k < grouped(messages).len() ==> (#[trigger] grouped(messages)[k]).messages.len() > 0,
    decreases messages.len(),
{
    if messages.len() > 0 {
        lemma_no_empty_thread(messages.drop_last());
        let before = grouped(messages.drop_last());
        lemma_has_thread(before, messages.last().topic_id);
        assert forall|k: int| 0 <= k < grouped(messages).len() implies (#[trigger] grouped(
            messages,
        )[k]).messages.len() > 0 by {
            if k < before.len() {
                assert(before[k].messages.len() > 0);
            }
        }
    }
}

/// The message of the hit is in the thread of its topic.
pub open spec fn is_placed(threads: Seq<ThreadHitV>, hit: JsonV) -> bool {
    exists|k: int, m: MessageHitV|
        0 <= k < threads.len() && #[trigger] is_hit(m, hit) && (#[trigger] threads[k]).topic_id
            == m.topic_id && threads[k].messages.contains(m)
}

/// The results of a search hold the message of every hit that names its topic, in the thread
/// of that topic, and the space of every hit that names one.
pub proof fn law_results_are_whole(r: SearchResults, payload: JsonV)
    requires
        results_of(r, payload),
    ensures
        space_hits(r.hits@) == all_spaces(list_in(payload, 4)),
        thread_hits(r.threads@) == grouped(all_messages(list_in(payload, 9))),
        forall|i: int|
            0 <= i < placed(list_in(payload, 9)).len() ==> is_placed(
                thread_hits(r.threads@),
                #[trigger] placed(list_in(payload, 9))[i],
            ),
        says(payload, 0, Seq::empty()) ==> r.continuation is None,
        forall|s: Seq<char>| #[trigger]
            says(payload, 0, s) && s.len() > 0 ==> r.continuation is Some && r.continuation->0@ == s,
        payload matches JsonV::Array(a) && a.len() > 9 && a[9] is Array ==> list_in(payload, 9)
            == payload->Array_0[9]->Array_0,
        payload matches JsonV::Array(a) && a.len() > 4 && a[4] is Array ==> list_in(payload, 4)
            == payload->Array_0[4]->Array_0,
{
    let hits = list_in(payload, 9);
    let messages = all_messages(hits);
    let threads = thread_hits(r.threads@);
    law_every_hit_is_read(hits);
    law_threads_are_whole(messages);
    assert forall|i: int| 0 <= i < placed(hits).len() implies is_placed(
        threads,
        #[trigger] placed(hits)[i],
    ) by {
        let m = messages[i];
        assert(is_hit(m, placed(hits)[i]));
        let k = choose|k: int|
            0 <= k < grouped(messages).len() && (#[trigger] grouped(messages)[k]).topic_id
                == m.topic_id && grouped(messages)[k].messages.contains(m);
        assert(threads[k].topic_id == m.topic_id);
    }
}

/// A search in a space asks for the words in that space, under its name with and without the
/// prefix, and says twice which search it is.
pub proof fn law_a_search_names_its_space(
    query: Seq<char>,
    uuid: Seq<char>,
    space: Seq<char>,
    kind: i64,
    page: u64,
)
    ensures
        ({
            let q = search_argument(query, uuid, space_options(uuid, space, kind), page);
            let o = q.item(6)->0;
            &&& q.item(3) == Some(JsonV::Text(query))
            &&& q.item(5) == Some(JsonV::Text(uuid))
            &&& o.item(4) == Some(JsonV::Text(uuid))
            &&& o.item(0)->0.item(1)->0.item(0) == Some(JsonV::Text("space/"@ + space))
            &&& o.item(0)->0.item(1)->0.item(1) == Some(JsonV::Text(space))
            &&& o.item(0)->0.item(1)->0.item(2)->0.signed() == Some(kind)
            &&& o.item(7)->0.item(3)->0.item(0)->0.item(0)->0.item(0)->0.item(0) == Some(
                JsonV::Text(space),
            )
            &&& q.item(9)->0.item(0) == Some(JsonV::Pos(page))
        }),
{
}

} // verus!
