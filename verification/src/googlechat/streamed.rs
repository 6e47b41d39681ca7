//! What comes out of the event channel: every frame of a body, every array of a frame, and
//! the response that an array carries, in the order in which they came.
use vstd::prelude::*;
use vstd::utf8::encode_utf8;

use crate::googlechat::channel::{
    acknowledged, cut_to_ten, frames, payload, payloads, polled_aid, polled_payloads, refused,
    reply_body, sound, sound_from, taken, without_trailing_fields,
};
use crate::googlechat::chunk::{framed, law_framed_reads_back, lemma_frame_bounds, utf16_units};
use crate::googlechat::pblite::{base64_bytes, message_bytes};
use crate::googlechat::schema::Table;
use crate::googlechat::typed::typed_message;
use crate::json::{parsed_list, JsonV};

verus! {

// ───────────────────────── frames ─────────────────────────

/// The texts framed one behind the other.
pub open spec fn stream(ts: Seq<Seq<char>>) -> Seq<u8>
    decreases ts.len(),
{
    if ts.len() == 0 {
        Seq::empty()
    } else {
        framed(ts[0]) + stream(ts.skip(1))
    }
}

/// A text that was framed is the first frame, and the frames of what follows come after it.
pub proof fn law_a_frame_is_cut_off(s: Seq<char>, rest: Seq<u8>)
    requires
        utf16_units(s) <= usize::MAX,
    ensures
        frames(framed(s) + rest) == seq![encode_utf8(s)] + frames(rest),
{
    let buf = framed(s) + rest;
    law_framed_reads_back(s, rest);
    lemma_frame_bounds(buf);
}

/// A body of framed texts is cut into those texts, all of them, in their order.
pub proof fn law_a_stream_is_cut_into_its_texts(ts: Seq<Seq<char>>)
    requires
        forall|i: int| 0 <= i < ts.len() ==> utf16_units(#[trigger] ts[i]) <= usize::MAX,
    ensures
        frames(stream(ts)) == ts.map_values(|t: Seq<char>| encode_utf8(t)),
    decreases ts.len(),
{
    let want = ts.map_values(|t: Seq<char>| encode_utf8(t));
    if ts.len() == 0 {
        let none = Seq::<u8>::empty();
        lemma_frame_bounds(none);
        assert(frames(none) =~= want);
    } else {
        let tail = ts.skip(1);
        assert forall|i: int| 0 <= i < tail.len() implies utf16_units(#[trigger] tail[i])
            <= usize::MAX by {
            assert(tail[i] == ts[i + 1]);
        }
        law_a_stream_is_cut_into_its_texts(tail);
        assert(utf16_units(ts[0]) <= usize::MAX);
        law_a_frame_is_cut_off(ts[0], stream(tail));
        assert(want =~= seq![encode_utf8(ts[0])] + tail.map_values(
            |t: Seq<char>| encode_utf8(t),
        ));
    }
}

// ───────────────────────── arrays ─────────────────────────

/// An array of a frame that can be taken: a list, whose first item is a number where it has
/// more than one.
pub open spec fn fits(v: JsonV) -> bool {
    v is Array && (v->Array_0.len() >= 2 ==> v->Array_0[0] is Pos)
}

proof fn lemma_sound_from(items: Seq<JsonV>, i: int)
    requires
        0 <= i <= items.len(),
    ensures
        i <= sound_from(items, i) <= items.len(),
        forall|k: int| i <= k < sound_from(items, i) ==> fits(#[trigger] items[k]),
        sound_from(items, i) < items.len() ==> !fits(items[sound_from(items, i)]),
    decreases items.len() - i,
{
    if i < items.len() && fits(items[i]) {
        lemma_sound_from(items, i + 1);
    }
}

/// Of a frame all arrays are taken up to the first that does not fit, and all where all fit.
pub proof fn law_arrays_are_taken_until_one_is_bad(chunk: Seq<u8>)
    ensures
        parsed_list(chunk) matches Ok(items) ==> {
            let n = taken(chunk).len() as int;
            &&& n <= items.len()
            &&& taken(chunk) == items.take(n)
            &&& forall|k: int| 0 <= k < n ==> fits(#[trigger] items[k])
            &&& n < items.len() ==> !fits(items[n])
            &&& (forall|k: int| 0 <= k < items.len() ==> fits(#[trigger] items[k])) ==> taken(chunk)
                == items
        },
        parsed_list(chunk) is Err ==> taken(chunk).len() == 0,
{
    if parsed_list(chunk) is Ok {
        let items = parsed_list(chunk)->Ok_0;
        lemma_sound_from(items, 0);
        let n = sound_from(items, 0);
        assert(sound(items).len() == n);
        if forall|k: int| 0 <= k < items.len() ==> fits(#[trigger] items[k]) {
            if n < items.len() {
                assert(fits(items[n]));
            }
            assert(items.take(n) =~= items);
        }
    }
}

/// What an array adds: the response that its second item carries, if it carries one.
pub open spec fn adds(table: Table, v: JsonV) -> Seq<Seq<u8>> {
    if v is Array && v->Array_0.len() >= 2 && payload(table, v->Array_0[1]) is Some {
        seq![payload(table, v->Array_0[1])->0]
    } else {
        Seq::empty()
    }
}

/// The responses of two lists of arrays are those of the first and then those of the second,
/// and an array adds the one that it carries.
pub proof fn law_responses_come_in_order(table: Table, a: Seq<JsonV>, b: Seq<JsonV>, x: JsonV)
    ensures
        payloads(table, a + b) == payloads(table, a) + payloads(table, b),
        payloads(table, a.push(x)) == payloads(table, a) + adds(table, x),
        payloads(table, Seq::empty()).len() == 0,
    decreases b.len(),
{
    assert(a.push(x).drop_last() =~= a);
    assert(payloads(table, a.push(x)) =~= payloads(table, a) + adds(table, x));
    if b.len() == 0 {
        assert(a + b =~= a);
        assert(payloads(table, a) + payloads(table, b) =~= payloads(table, a));
    } else {
        assert((a + b).drop_last() =~= a + b.drop_last());
        law_responses_come_in_order(table, a, b.drop_last(), x);
        assert(payloads(table, a + b) =~= payloads(table, a) + payloads(table, b));
    }
}

/// The number to go on from is that of the last array that has one, and stays where none has
/// one.
pub proof fn law_the_last_number_counts(items: Seq<JsonV>, x: JsonV, aid: u64)
    requires
        fits(x),
    ensures
        acknowledged(items.push(x), aid) == if x->Array_0.len() >= 2 {
            x->Array_0[0]->Pos_0
        } else {
            acknowledged(items, aid)
        },
        acknowledged(Seq::empty(), aid) == aid,
{
    assert(items.push(x).drop_last() =~= items);
}

/// Frames are gone through one behind the other: what two lists of frames give is what the
/// first gives and then what the second gives.
pub proof fn law_frames_come_in_order(
    table: Table,
    a: Seq<Seq<u8>>,
    b: Seq<Seq<u8>>,
    chunk: Seq<u8>,
    aid: u64,
)
    ensures
        polled_payloads(table, a + b) == polled_payloads(table, a) + polled_payloads(table, b),
        polled_aid(a + b, aid) == polled_aid(b, polled_aid(a, aid)),
        polled_payloads(table, seq![chunk]) == payloads(table, taken(chunk)),
        polled_aid(seq![chunk], aid) == acknowledged(taken(chunk), aid),
        polled_payloads(table, Seq::empty()).len() == 0,
        polled_aid(Seq::empty(), aid) == aid,
    decreases b.len(),
{
    let one = seq![chunk];
    assert(one.drop_last() =~= Seq::<Seq<u8>>::empty());
    reveal_with_fuel(polled_payloads, 2);
    reveal_with_fuel(polled_aid, 2);
    assert(polled_payloads(table, one) =~= payloads(table, taken(chunk)));
    if b.len() == 0 {
        assert(a + b =~= a);
        assert(polled_payloads(table, a) + polled_payloads(table, b) =~= polled_payloads(table, a));
    } else {
        assert((a + b).drop_last() =~= a + b.drop_last());
        law_frames_come_in_order(table, a, b.drop_last(), chunk, aid);
        assert(polled_payloads(table, a + b) =~= polled_payloads(table, a) + polled_payloads(
            table,
            b,
        ));
    }
}

// ───────────────────────── responses ─────────────────────────

/// The event of a response keeps its first ten fields and loses the others. Everything else of
/// the response stays.
pub proof fn law_only_late_fields_are_cut(items: Seq<JsonV>)
    requires
        items.len() > 0,
    ensures
        ({
            let v = without_trailing_fields(JsonV::Array(items));
            &&& v is Array && v->Array_0.len() == items.len()
            &&& forall|i: int| 0 < i < items.len() ==> #[trigger] v->Array_0[i] == items[i]
            &&& !(items[0] is Array) ==> v->Array_0[0] == items[0]
            &&& items[0] matches JsonV::Array(e) ==> v->Array_0[0] is Array
                && v->Array_0[0]->Array_0 == if e.len() > 10 {
                e.take(10)
            } else {
                e
            }
        }),
{
    if items[0] is Array {
        let e = items[0]->Array_0;
        assert(cut_to_ten(items[0]) is Array);
        if e.len() > 10 {
            assert(cut_to_ten(items[0])->Array_0 == e.take(10));
        }
    }
}

/// An array carries a response unless it is empty or says that there is none. The response is
/// converted by the schema, as a `StreamEventsResponse`, and where that does not work out by the
/// looks of its values.
pub proof fn law_a_response_goes_by_the_schema(table: Table, items: Seq<JsonV>)
    ensures
        items.len() == 0 ==> payload(table, JsonV::Array(items)) is None,
        items.len() > 0 && items[0] == JsonV::Text("noop"@) ==> payload(table, JsonV::Array(items))
            is None,
        items.len() > 0 && items[0] is Array ==> {
            let v = without_trailing_fields(items[0]);
            match typed_message(table, "StreamEventsResponse"@, v) {
                Ok(d) => payload(table, JsonV::Array(items)) == Some(d),
                Err(_) => match message_bytes(v) {
                    Ok(d) => payload(table, JsonV::Array(items)) == Some(d),
                    Err(_) => payload(table, JsonV::Array(items)) is None,
                },
            }
        },
{
}

/// A reply to a poll says that the session is over by one of three statuses, and else its body
/// is the bytes of its data.
pub proof fn law_a_poll_is_refused_by_its_status(reply: JsonV, n: u64)
    requires
        reply.member("status"@) == Some(JsonV::Pos(n)),
    ensures
        refused(reply) <==> n == 400 || n == 401 || n == 403,
        forall|t: Seq<char>| #[trigger]
            base64_bytes(t) is Ok && reply.member("data"@) == Some(JsonV::Text(t)) ==> reply_body(
                reply,
            ) == base64_bytes(t)->Ok_0,
{
}

} // verus!
