//! The event channel: what its frames carry, and how polling goes on after each
//! reply.
//!
//! A reply to a poll is a run of frames. A frame is a JSON list of arrays, each
//! an acknowledgement number and a payload. The payload of an array is the
//! pblite form of a `StreamEventsResponse`, or the word `noop`.
use vstd::prelude::*;

use crate::error::ChannelError;
use crate::googlechat::chunk::{frame, lemma_frame_bounds, ChunkParser};
use crate::googlechat::pblite::{base64_bytes, decode_base64, message_bytes, pblite_to_wire};
use crate::googlechat::schema::{ProtoSchema, Table};
use crate::googlechat::typed::{pblite_to_wire_typed, typed_message};
use crate::googlechat::wire::{bytes_slice, contents};
use crate::json::{self, copy_items, jsons, lemma_array_view, parsed, parsed_list, Json, JsonV};
use crate::text::{self, after, or_empty};

verus! {

broadcast use lemma_array_view;

// ───────────────────────── payloads ─────────────────────────

/// The message type that a payload holds.
pub open spec fn payload_type() -> Seq<char> {
    "StreamEventsResponse"@
}

/// An array cut to its first ten items; any other value as it is.
pub open spec fn cut_to_ten(v: JsonV) -> JsonV {
    match v {
        JsonV::Array(a) => if a.len() > 10 {
            JsonV::Array(a.take(10))
        } else {
            v
        },
        _ => v,
    }
}

/// A response whose event, its first item, is cut to its first ten fields.
pub open spec fn without_trailing_fields(v: JsonV) -> JsonV {
    match v {
        JsonV::Array(a) => if a.len() > 0 {
            JsonV::Array(a.update(0, cut_to_ten(a[0])))
        } else {
            v
        },
        _ => v,
    }
}

/// The wire form of a response, by the field types of `table` where that works
/// out and by the looks of the values where it does not.
pub open spec fn response_bytes(table: Table, v: JsonV) -> Option<Seq<u8>> {
    match typed_message(table, payload_type(), without_trailing_fields(v)) {
        Ok(d) => Some(d),
        Err(_) => match message_bytes(without_trailing_fields(v)) {
            Ok(d) => Some(d),
            Err(_) => None,
        },
    }
}

/// The wire form of the response that an array carries, if it carries one.
pub open spec fn payload(table: Table, data: JsonV) -> Option<Seq<u8>> {
    match data.item(0) {
        Some(first) => if first.text() == Some("noop"@) {
            None
        } else {
            response_bytes(table, first)
        },
        None => None,
    }
}

/// Cuts an event to its first ten fields.
pub fn trim_event_trailing_fields_raw(data: &Json) -> (r: Json)
    ensures
        r@ == cut_to_ten(data@),
{
    match data {
        Json::Array(a) => {
            if a.len() <= 10 {
                return data.copy();
            }
            let mut out: Vec<Json> = Vec::new();
            let mut i: usize = 0;
            while i < 10
                invariant
                    i <= 10 < a@.len(),
                    jsons(out@) == jsons(a@).take(i as int),
                decreases 10 - i,
            {
                let ghost before = out@;
                let x = a[i].copy();
                out.push(x);
                proof {
                    assert(jsons(out@) =~= jsons(before).push(x@));
                    assert(jsons(a@).take(i + 1) =~= jsons(a@).take(i as int).push(
                        jsons(a@)[i as int],
                    ));
                }
                i += 1;
            }
            Json::Array(out)
        },
        _ => data.copy(),
    }
}

/// Cuts the event of a response, its first item, to its first ten fields. The
/// later ones (latency data and the like) are of no use here.
pub fn trim_event_trailing_fields(data: &Json) -> (r: Json)
    ensures
        r@ == without_trailing_fields(data@),
{
    match data {
        Json::Array(a) => {
            if a.len() == 0 {
                return data.copy();
            }
            let first = trim_event_trailing_fields_raw(&a[0]);
            let mut rest = copy_items(a, 1);
            let mut out: Vec<Json> = Vec::new();
            let ghost tail = rest@;
            out.push(first);
            out.append(&mut rest);
            proof {
                assert(out@ =~= seq![first] + tail);
                let want = jsons(a@).update(0, cut_to_ten(jsons(a@)[0]));
                assert(jsons(tail) =~= jsons(a@).subrange(1, a@.len() as int));
                assert(tail.len() == a@.len() - 1) by {
                    assert(jsons(tail).len() == tail.len());
                }
                assert forall|i: int| 0 <= i < a@.len() implies #[trigger] jsons(out@)[i] == want[i] by {
                    if i > 0 {
                        assert(jsons(tail)[i - 1] == jsons(a@)[i]);
                    }
                }
                assert(jsons(out@) =~= want);
            }
            Json::Array(out)
        },
        _ => data.copy(),
    }
}

/// The wire form of the response that an array carries, if it carries one.
pub fn event_payload(data: &Json, schema: &ProtoSchema) -> (r: Option<bytes::Bytes>)
    ensures
        match payload(schema@, data@) {
            Some(d) => r matches Some(b) && contents(b) == d,
            None => r is None,
        },
{
    let first = match data.item(0) {
        Some(f) => f,
        None => return None,
    };
    match first.as_str() {
        Some(s) => if text::same(s, "noop") {
            return None;
        },
        None => {},
    }
    let cut = trim_event_trailing_fields(first);
    match pblite_to_wire_typed(&cut, schema, "StreamEventsResponse") {
        Ok(w) => Some(w),
        Err(_) => match pblite_to_wire(&cut) {
            Ok(w) => Some(w),
            Err(_) => None,
        },
    }
}

// ───────────────────────── frames ─────────────────────────

/// An array, and with an acknowledgement number where it has two items or more.
pub open spec fn well_framed(v: JsonV) -> bool {
    v matches JsonV::Array(a) && (a.len() >= 2 ==> a[0].unsigned() is Some)
}

/// The first position from `i` on that holds no well-framed array, or the end.
pub open spec fn sound_from(items: Seq<JsonV>, i: int) -> int
    decreases items.len() - i,
{
    if i < 0 || i >= items.len() {
        items.len() as int
    } else if well_framed(items[i]) {
        sound_from(items, i + 1)
    } else {
        i
    }
}

/// The arrays of a frame that are taken: those before the first malformed one.
pub open spec fn sound(items: Seq<JsonV>) -> Seq<JsonV> {
    items.take(sound_from(items, 0))
}

/// The array carries an acknowledgement number and a payload.
pub open spec fn carries(v: JsonV) -> bool {
    v matches JsonV::Array(a) && a.len() >= 2
}

/// The acknowledgement number after the arrays `items`: that of the last one that
/// has one.
pub open spec fn acknowledged(items: Seq<JsonV>, aid: u64) -> u64
    decreases items.len(),
{
    if items.len() == 0 {
        aid
    } else if carries(items.last()) {
        items.last()->Array_0[0].unsigned()->0
    } else {
        acknowledged(items.drop_last(), aid)
    }
}

/// The payloads of the arrays `items`, in order.
pub open spec fn payloads(table: Table, items: Seq<JsonV>) -> Seq<Seq<u8>>
    decreases items.len(),
{
    if items.len() == 0 {
        Seq::empty()
    } else {
        let before = payloads(table, items.drop_last());
        if carries(items.last()) {
            match payload(table, items.last()->Array_0[1]) {
                Some(d) => before.push(d),
                None => before,
            }
        } else {
            before
        }
    }
}

/// The arrays that are taken from a frame; none where it is no JSON list.
pub open spec fn taken(chunk: Seq<u8>) -> Seq<JsonV> {
    match parsed_list(chunk) {
        Ok(items) => sound(items),
        Err(_) => Seq::empty(),
    }
}

/// What becomes of a frame: taken whole, no JSON list, or cut short at an array
/// that is malformed.
pub open spec fn chunk_result(chunk: Seq<u8>, r: Result<(), ChannelError>) -> bool {
    match parsed_list(chunk) {
        Ok(items) => if sound(items) == items {
            r is Ok
        } else {
            r == Err::<(), ChannelError>(ChannelError::MalformedFrame)
        },
        Err(m) => r matches Err(ChannelError::Json(t)) && t@ == m,
    }
}

/// The contents of a list of byte strings.
pub open spec fn all_contents(v: Seq<bytes::Bytes>) -> Seq<Seq<u8>> {
    v.map_values(|b: bytes::Bytes| contents(b))
}

proof fn lemma_sound_from(items: Seq<JsonV>, i: int)
    requires
        0 <= i <= items.len(),
    ensures
        i <= sound_from(items, i) <= items.len(),
    decreases items.len() - i,
{
    if i < items.len() && well_framed(items[i]) {
        lemma_sound_from(items, i + 1);
    }
}

/// Takes in one frame: adds the payloads to `out` and moves the acknowledgement
/// number on, array by array, up to the first that is malformed.
pub fn process_chunk_with_interner(
    chunk: &[u8],
    last_aid: &mut u64,
    schema: &ProtoSchema,
    out: &mut Vec<bytes::Bytes>,
) -> (r: Result<(), ChannelError>)
    ensures
        chunk_result(chunk@, r),
        *final(last_aid) == acknowledged(taken(chunk@), *old(last_aid)),
        all_contents(final(out)@) == all_contents(old(out)@) + payloads(schema@, taken(chunk@)),
{
    let ghost first = all_contents(out@);
    let arrays = match json::parse_list(chunk) {
        Ok(a) => a,
        Err(m) => {
            proof {
                assert(all_contents(out@) =~= first + payloads(schema@, taken(chunk@)));
            }
            return Err(ChannelError::Json(m));
        },
    };
    let ghost items = jsons(arrays@);
    let mut i: usize = 0;
    proof {
        lemma_sound_from(items, 0);
        assert(all_contents(out@) =~= first + payloads(schema@, items.take(0)));
    }
    while i < arrays.len()
        invariant
            i <= arrays@.len(),
            items == jsons(arrays@),
            parsed_list(chunk@) == Ok::<Seq<JsonV>, Seq<char>>(items),
            sound_from(items, 0) == sound_from(items, i as int),
            *last_aid == acknowledged(items.take(i as int), *old(last_aid)),
            all_contents(out@) == first + payloads(schema@, items.take(i as int)),
            first == all_contents(old(out)@),
        decreases arrays@.len() - i,
    {
        let ghost upto = items.take(i + 1);
        proof {
            assert(items[i as int] == arrays@[i as int]@);
            assert(upto.drop_last() =~= items.take(i as int));
            assert(upto.last() == items[i as int]);
        }
        let arr = match &arrays[i] {
            Json::Array(a) => a,
            _ => {
                proof {
                    assert(sound(items) =~= items.take(i as int));
                    assert(sound(items).len() != items.len());
                }
                return Err(ChannelError::MalformedFrame);
            },
        };
        proof {
            assert(items[i as int] == JsonV::Array(jsons(arr@)));
        }
        if arr.len() >= 2 {
            proof {
                assert(jsons(arr@)[0] == arr@[0]@);
                assert(jsons(arr@)[1] == arr@[1]@);
            }
            let array_id: u64 = match arr[0].as_u64() {
                Some(n) => n,
                None => {
                    proof {
                        assert(sound(items) =~= items.take(i as int));
                        assert(sound(items).len() != items.len());
                    }
                    return Err(ChannelError::MalformedFrame);
                },
            };
            let ghost before = out@;
            match event_payload(&arr[1], schema) {
                Some(b) => {
                    out.push(b);
                    proof {
                        assert(all_contents(out@) =~= all_contents(before).push(contents(b)));
                        assert(all_contents(out@) =~= first + payloads(schema@, upto));
                    }
                },
                None => {},
            }
            *last_aid = array_id;
        }
        i += 1;
    }
    proof {
        assert(items.take(items.len() as int) =~= items);
    }
    Ok(())
}

/// Takes in one frame for its acknowledgement numbers alone.
pub fn process_chunk(chunk: &[u8], last_aid: &mut u64) -> (r: Result<(), ChannelError>)
    ensures
        chunk_result(chunk@, r),
        *final(last_aid) == acknowledged(taken(chunk@), *old(last_aid)),
{
    let arrays = match json::parse_list(chunk) {
        Ok(a) => a,
        Err(m) => return Err(ChannelError::Json(m)),
    };
    let ghost items = jsons(arrays@);
    let mut i: usize = 0;
    proof {
        lemma_sound_from(items, 0);
    }
    while i < arrays.len()
        invariant
            i <= arrays@.len(),
            items == jsons(arrays@),
            parsed_list(chunk@) == Ok::<Seq<JsonV>, Seq<char>>(items),
            sound_from(items, 0) == sound_from(items, i as int),
            *last_aid == acknowledged(items.take(i as int), *old(last_aid)),
        decreases arrays@.len() - i,
    {
        proof {
            assert(items[i as int] == arrays@[i as int]@);
            assert(items.take(i + 1).drop_last() =~= items.take(i as int));
        }
        let arr = match &arrays[i] {
            Json::Array(a) => a,
            _ => {
                proof {
                    assert(sound(items) =~= items.take(i as int));
                    assert(sound(items).len() != items.len());
                }
                return Err(ChannelError::MalformedFrame);
            },
        };
        proof {
            assert(items[i as int] == JsonV::Array(jsons(arr@)));
        }
        if arr.len() >= 2 {
            proof {
                assert(jsons(arr@)[0] == arr@[0]@);
            }
            match arr[0].as_u64() {
                Some(n) => {
                    *last_aid = n;
                },
                None => {
                    proof {
                        assert(sound(items) =~= items.take(i as int));
                        assert(sound(items).len() != items.len());
                    }
                    return Err(ChannelError::MalformedFrame);
                },
            }
        }
        i += 1;
    }
    proof {
        assert(items.take(items.len() as int) =~= items);
    }
    Ok(())
}

// ───────────────────────── replies ─────────────────────────

/// The contents of the frames that `buf` begins with, up to the first that is
/// incomplete.
pub open spec fn frames(buf: Seq<u8>) -> Seq<Seq<u8>>
    decreases buf.len(),
{
    match frame(buf) {
        Some((a, b)) => if 0 < b <= buf.len() {
            seq![buf.subrange(a, b)] + frames(after(buf, b))
        } else {
            Seq::empty()
        },
        None => Seq::empty(),
    }
}

/// The acknowledgement number after the frames `list`.
pub open spec fn polled_aid(list: Seq<Seq<u8>>, aid: u64) -> u64
    decreases list.len(),
{
    if list.len() == 0 {
        aid
    } else {
        acknowledged(taken(list.last()), polled_aid(list.drop_last(), aid))
    }
}

/// The payloads of the frames `list`, in order.
pub open spec fn polled_payloads(table: Table, list: Seq<Seq<u8>>) -> Seq<Seq<u8>>
    decreases list.len(),
{
    if list.len() == 0 {
        Seq::empty()
    } else {
        polled_payloads(table, list.drop_last()) + payloads(table, taken(list.last()))
    }
}

/// Takes in the body of a reply: adds the payloads of its frames to `out` and gives
/// back the acknowledgement number for the next poll. A frame that is malformed
/// does not keep the later ones from being taken.
pub fn read_body(body: &[u8], aid: u64, schema: &ProtoSchema, out: &mut Vec<bytes::Bytes>) -> (r:
    u64)
    ensures
        r == polled_aid(frames(body@), aid),
        all_contents(final(out)@) == all_contents(old(out)@) + polled_payloads(
            schema@,
            frames(body@),
        ),
{
    let ghost first = all_contents(out@);
    let mut parser = ChunkParser::new();
    parser.feed(body);
    let mut last_aid: u64 = aid;
    let ghost mut done: Seq<Seq<u8>> = Seq::empty();
    proof {
        assert(parser@ =~= body@);
        assert(frames(body@) =~= done + frames(parser@));
        assert(all_contents(out@) =~= first + polled_payloads(schema@, done));
    }
    loop
        invariant
            frames(body@) == done + frames(parser@),
            last_aid == polled_aid(done, aid),
            all_contents(out@) == first + polled_payloads(schema@, done),
        ensures
            done == frames(body@),
            last_aid == polled_aid(done, aid),
            all_contents(out@) == first + polled_payloads(schema@, done),
        decreases parser@.len(),
    {
        let ghost before = parser@;
        proof {
            lemma_frame_bounds(before);
        }
        match parser.next_chunk() {
            Some(c) => {
                let ghost last = done;
                let ghost had = all_contents(out@);
                let _ = process_chunk_with_interner(
                    bytes_slice(&c),
                    &mut last_aid,
                    schema,
                    out,
                );
                proof {
                    done = last.push(contents(c));
                    assert(done.drop_last() =~= last);
                    assert(frames(before) == seq![contents(c)] + frames(parser@));
                    assert(last + frames(before) =~= done + frames(parser@));
                    assert(all_contents(out@) =~= first + polled_payloads(schema@, done));
                }
            },
            None => {
                proof {
                    assert(done + frames(before) =~= done);
                }
                break;
            },
        }
    }
    last_aid
}

/// The acknowledgement number for the next poll after a reply with this body.
pub fn acknowledge_body(body: &[u8], aid: u64) -> (r: u64)
    ensures
        r == polled_aid(frames(body@), aid),
{
    let mut parser = ChunkParser::new();
    parser.feed(body);
    let mut last_aid: u64 = aid;
    let ghost mut done: Seq<Seq<u8>> = Seq::empty();
    proof {
        assert(parser@ =~= body@);
        assert(frames(body@) =~= done + frames(parser@));
    }
    loop
        invariant
            frames(body@) == done + frames(parser@),
            last_aid == polled_aid(done, aid),
        ensures
            done == frames(body@),
            last_aid == polled_aid(done, aid),
        decreases parser@.len(),
    {
        let ghost before = parser@;
        proof {
            lemma_frame_bounds(before);
        }
        match parser.next_chunk() {
            Some(c) => {
                let ghost last = done;
                let _ = process_chunk(bytes_slice(&c), &mut last_aid);
                proof {
                    done = last.push(contents(c));
                    assert(done.drop_last() =~= last);
                    assert(frames(before) == seq![contents(c)] + frames(parser@));
                    assert(last + frames(before) =~= done + frames(parser@));
                }
            },
            None => {
                proof {
                    assert(done + frames(before) =~= done);
                }
                break;
            },
        }
    }
    last_aid
}

/// A reply without a complete frame leaves the acknowledgement number and adds
/// nothing.
pub proof fn law_empty_reply_changes_nothing(table: Table, body: Seq<u8>, aid: u64)
    requires
        frame(body) is None,
    ensures
        polled_aid(frames(body), aid) == aid,
        polled_payloads(table, frames(body)) == Seq::<Seq<u8>>::empty(),
{
}

/// A frame that is no JSON list changes nothing: what comes before and after it is
/// taken as if it were not there.
pub proof fn law_bad_frame_is_skipped(
    table: Table,
    before: Seq<Seq<u8>>,
    bad: Seq<u8>,
    later: Seq<Seq<u8>>,
    aid: u64,
)
    requires
        parsed_list(bad) is Err,
    ensures
        polled_aid(before.push(bad) + later, aid) == polled_aid(before + later, aid),
        polled_payloads(table, before.push(bad) + later) == polled_payloads(table, before + later),
    decreases later.len(),
{
    if later.len() == 0 {
        assert(before.push(bad) + later =~= before.push(bad));
        assert(before + later =~= before);
        assert(before.push(bad).drop_last() =~= before);
        assert(payloads(table, taken(bad)) =~= Seq::empty());
        assert(polled_payloads(table, before.push(bad)) =~= polled_payloads(table, before));
    } else {
        law_bad_frame_is_skipped(table, before, bad, later.drop_last(), aid);
        assert((before.push(bad) + later).drop_last() =~= before.push(bad) + later.drop_last());
        assert((before + later).drop_last() =~= before + later.drop_last());
    }
}

/// The status of a reply says that the session is over.
pub open spec fn refused(reply: JsonV) -> bool {
    reply.member("status"@) matches Some(s) && s.unsigned() matches Some(n) && (n == 400 || n == 401
        || n == 403)
}

/// The body of a reply: none where it has no data or data that is no base64.
pub open spec fn reply_body(reply: JsonV) -> Seq<u8> {
    match base64_bytes(
        match reply.member("data"@) {
            Some(d) => or_empty(d.text()),
            None => Seq::empty(),
        },
    ) {
        Ok(b) => b,
        Err(_) => Seq::empty(),
    }
}

/// What a tab gives back for a poll, a JSON text with the status and the body in
/// base64, read for the body.
pub fn poll_reply(reply: &str) -> (r: Result<Vec<u8>, ChannelError>)
    ensures
        match parsed(reply@) {
            Ok(j) => if refused(j) {
                r == Err::<Vec<u8>, ChannelError>(ChannelError::SessionExpired)
            } else {
                r matches Ok(b) && b@ == reply_body(j)
            },
            Err(m) => r matches Err(ChannelError::Http(t)) && t@ == "bad js response: "@ + m,
        },
{
    let resp = match json::parse(reply) {
        Ok(j) => j,
        Err(m) => return Err(ChannelError::Http(text::join2("bad js response: ", m.as_str()))),
    };
    let status: u64 = match resp.member("status") {
        Some(s) => match s.as_u64() {
            Some(n) => n,
            None => 0,
        },
        None => 0,
    };
    if status == 400 || status == 401 || status == 403 {
        return Err(ChannelError::SessionExpired);
    }
    let data = match resp.member("data") {
        Some(d) => match d.as_str() {
            Some(s) => s,
            None => "",
        },
        None => "",
    };
    proof {
        reveal_strlit("");
        assert(""@ =~= Seq::empty());
    }
    match decode_base64(data) {
        Ok(b) => Ok(b),
        Err(_) => Ok(Vec::new()),
    }
}

} // verus!
