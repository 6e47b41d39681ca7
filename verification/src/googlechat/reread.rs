//! What is read from the wire: every field in its place, with all that was sent for it, and
//! runs of bytes as the texts that they are.
use vstd::prelude::*;
use vstd::utf8::{encode_utf8, valid_utf8};

use crate::error::Fault;
use crate::googlechat::pblite::{
    assembled, base64_bytes, base64_text, data_value, decoded, field_bytes, fields_of, first_field,
    little_endian, max_number, numeric, values_of,
};
use crate::googlechat::wire::{law_varint_reads_back, len_field, tag};
use crate::json::JsonV;
use crate::text::after;

verus! {

// ───────────────────────── texts without a schema ─────────────────────────

/// The text has only characters of base64, and is padded or long.
pub open spec fn could_be_base64(t: Seq<char>) -> bool {
    &&& forall|i: int|
        0 <= i < t.len() ==> {
            let c = #[trigger] t[i];
            ||| 'A' <= c <= 'Z'
            ||| 'a' <= c <= 'z'
            ||| '0' <= c <= '9'
            ||| c == '+'
            ||| c == '/'
            ||| c == '='
        }
    &&& t.len() >= 24 || (t.len() > 0 && t.last() == '=')
}

/// Without a schema a text that is no number is written as the bytes that it stands for in
/// base64 where those are no text themselves, and as its own bytes otherwise.
pub proof fn law_texts_are_written_by_their_looks(field: u32, t: Seq<char>, d: Seq<u8>)
    requires
        !numeric(t),
    ensures
        could_be_base64(t) && base64_bytes(t) == Ok::<Seq<u8>, Seq<char>>(d) && !valid_utf8(d)
            ==> field_bytes(field, JsonV::Text(t)) == Ok::<Seq<u8>, Fault>(len_field(field, d)),
        !could_be_base64(t) || base64_bytes(t) is Err || valid_utf8(base64_bytes(t)->Ok_0)
            ==> field_bytes(field, JsonV::Text(t)) == Ok::<Seq<u8>, Fault>(
            len_field(field, encode_utf8(t)),
        ),
{
    let like = crate::googlechat::pblite::base64_like(t);
    if could_be_base64(t) {
        assert forall|i: int| 0 <= i < t.len() implies crate::googlechat::pblite::base64_char(
            #[trigger] t[i],
        ) by {}
        assert(like);
    }
    if like {
        assert forall|i: int| 0 <= i < t.len() implies {
            let c = #[trigger] t[i];
            ||| 'A' <= c <= 'Z'
            ||| 'a' <= c <= 'z'
            ||| '0' <= c <= '9'
            ||| c == '+'
            ||| c == '/'
            ||| c == '='
        } by {
            assert(crate::googlechat::pblite::base64_char(t[i]));
        }
        assert(could_be_base64(t));
    }
}

// ───────────────────────── places ─────────────────────────

/// The fields with this number, in the order in which they came.
pub open spec fn sent_for(fs: Seq<(u32, JsonV)>, num: int) -> Seq<(u32, JsonV)> {
    fs.filter(|f: (u32, JsonV)| f.0 == num)
}

proof fn lemma_values(fs: Seq<(u32, JsonV)>, num: int)
    ensures
        values_of(fs, num).len() == sent_for(fs, num).len(),
        forall|i: int|
            0 <= i < sent_for(fs, num).len() ==> #[trigger] values_of(fs, num)[i] == sent_for(
                fs,
                num,
            )[i].1,
    decreases fs.len(),
{
    reveal(Seq::filter);
    if fs.len() > 0 {
        lemma_values(fs.drop_last(), num);
    }
}

proof fn lemma_some_sent(fs: Seq<(u32, JsonV)>, num: int)
    requires
        sent_for(fs, num).len() > 0,
    ensures
        exists|i: int| 0 <= i < fs.len() && (#[trigger] fs[i]).0 == num,
    decreases fs.len(),
{
    reveal(Seq::filter);
    let t = fs.drop_last();
    if fs.last().0 == num {
        assert(fs[fs.len() - 1].0 == num);
    } else {
        lemma_some_sent(t, num);
        let i = choose|i: int| 0 <= i < t.len() && (#[trigger] t[i]).0 == num;
        assert(fs[i] == t[i]);
    }
}

proof fn lemma_highest(fs: Seq<(u32, JsonV)>)
    ensures
        forall|i: int| 0 <= i < fs.len() ==> (#[trigger] fs[i]).0 <= max_number(fs),
        max_number(fs) > 0 ==> exists|i: int|
            0 <= i < fs.len() && (#[trigger] fs[i]).0 == max_number(fs),
    decreases fs.len(),
{
    if fs.len() > 0 {
        let t = fs.drop_last();
        lemma_highest(t);
        let last = fs.len() - 1;
        assert forall|i: int| 0 <= i < fs.len() implies (#[trigger] fs[i]).0 <= max_number(fs) by {
            if i < last {
                assert(t[i] == fs[i]);
            }
        }
        if max_number(fs) > 0 {
            if fs.last().0 > max_number(t) {
                assert(fs[last].0 == max_number(fs));
            } else {
                let i = choose|i: int| 0 <= i < t.len() && (#[trigger] t[i]).0 == max_number(t);
                assert(fs[i] == t[i]);
            }
        }
    }
}

/// Each field that was sent has its place, by its number: null where it was not sent, its value
/// where it was sent once, and all values in their order where it was sent more often. There
/// are as many places as the highest number asks for.
pub proof fn law_each_field_has_its_place(fs: Seq<(u32, JsonV)>, num: int)
    requires
        num > 0,
    ensures
        ({
            let sent = sent_for(fs, num);
            let at = assembled(fs)->Array_0[num - 1];
            &&& assembled(fs) is Array
            &&& assembled(fs)->Array_0.len() >= num || sent.len() == 0
            &&& assembled(fs)->Array_0.len() >= num ==> {
                &&& sent.len() == 0 ==> at is Null
                &&& sent.len() == 1 ==> at == sent[0].1
                &&& sent.len() > 1 ==> at is Array && at->Array_0.len() == sent.len() && (forall|
                    i: int,
                | 0 <= i < sent.len() ==> #[trigger] at->Array_0[i] == sent[i].1)
            }
        }),
        assembled(fs)->Array_0.len() > 0 ==> exists|i: int|
            0 <= i < fs.len() && (#[trigger] fs[i]).0 == assembled(fs)->Array_0.len(),
{
    lemma_values(fs, num);
    lemma_highest(fs);
    let sent = sent_for(fs, num);
    if sent.len() > 0 {
        lemma_some_sent(fs, num);
        let i = choose|i: int| 0 <= i < fs.len() && (#[trigger] fs[i]).0 == num;
        assert(fs[i].0 <= max_number(fs));
    }
}

// ───────────────────────── fields ─────────────────────────

/// The fields already read stay before those that are read.
pub proof fn law_fields_are_read_in_order(wire: Seq<u8>, fs: Seq<(u32, JsonV)>)
    ensures
        match fields_of(wire, Seq::empty()) {
            Some(Ok(g)) => fields_of(wire, fs) == Some(Ok::<Seq<(u32, JsonV)>, Fault>(fs + g)),
            Some(Err(f)) => fields_of(wire, fs) == Some(Err::<Seq<(u32, JsonV)>, Fault>(f)),
            None => fields_of(wire, fs) is None,
        },
    decreases wire.len(),
{
    let none = Seq::<(u32, JsonV)>::empty();
    if wire.len() == 0 {
        assert(fs + none =~= fs);
    } else {
        match first_field(wire) {
            Some(Ok((num, v, n))) => {
                if 0 < n <= wire.len() {
                    let rest = after(wire, n);
                    law_fields_are_read_in_order(rest, fs.push((num, v)));
                    law_fields_are_read_in_order(rest, none.push((num, v)));
                    match fields_of(rest, none) {
                        Some(Ok(g)) => {
                            assert(fs.push((num, v)) + g =~= fs + (none.push((num, v)) + g));
                        },
                        _ => {},
                    }
                }
            },
            _ => {},
        }
    }
}

/// A field that is read is the first of the fields, and what follows is read behind it.
pub proof fn law_the_first_field_comes_first(wire: Seq<u8>, num: u32, v: JsonV, n: int)
    requires
        first_field(wire) == Some(Ok::<(u32, JsonV, int), Fault>((num, v, n))),
        0 < n <= wire.len(),
    ensures
        match fields_of(after(wire, n), Seq::empty()) {
            Some(Ok(g)) => fields_of(wire, Seq::empty()) == Some(
                Ok::<Seq<(u32, JsonV)>, Fault>(seq![(num, v)] + g),
            ),
            Some(Err(f)) => fields_of(wire, Seq::empty()) == Some(
                Err::<Seq<(u32, JsonV)>, Fault>(f),
            ),
            None => fields_of(wire, Seq::empty()) is None,
        },
{
    let none = Seq::<(u32, JsonV)>::empty();
    law_fields_are_read_in_order(after(wire, n), none.push((num, v)));
    assert(none.push((num, v)) =~= seq![(num, v)]);
}

/// A number of four bytes is read with the lowest byte first, and so is one of eight.
pub proof fn law_numbers_of_fixed_size_are_read(
    field: u32,
    a: u8,
    b: u8,
    c: u8,
    d: u8,
    rest: Seq<u8>,
)
    requires
        field < 0x2000_0000,
    ensures
        first_field(tag(field, 5) + seq![a, b, c, d] + rest) == Some(
            Ok::<(u32, JsonV, int), Fault>(
                (
                    field,
                    JsonV::Pos((a + 256 * b + 65536 * c + 16777216 * d) as u64),
                    (tag(field, 5).len() + 4) as int,
                ),
            ),
        ),
        first_field(
            tag(field, 1) + seq![a, b, c, d, 0u8, 0u8, 0u8, 0u8] + rest,
        ) == Some(
            Ok::<(u32, JsonV, int), Fault>(
                (
                    field,
                    JsonV::Pos((a + 256 * b + 65536 * c + 16777216 * d) as u64),
                    (tag(field, 1).len() + 8) as int,
                ),
            ),
        ),
{
    lemma_four(field, a, b, c, d, rest);
    lemma_eight(field, a, b, c, d, rest);
}

proof fn lemma_four(field: u32, a: u8, b: u8, c: u8, d: u8, rest: Seq<u8>)
    requires
        field < 0x2000_0000,
    ensures
        first_field(tag(field, 5) + seq![a, b, c, d] + rest) == Some(
            Ok::<(u32, JsonV, int), Fault>(
                (
                    field,
                    JsonV::Pos((a + 256 * b + 65536 * c + 16777216 * d) as u64),
                    (tag(field, 5).len() + 4) as int,
                ),
            ),
        ),
{
    let data = seq![a, b, c, d] + rest;
    let wire = tag(field, 5) + seq![a, b, c, d] + rest;
    assert(wire =~= tag(field, 5) + data);
    law_varint_reads_back((field * 8 + 5) as u64, data);
    assert(after(wire, tag(field, 5).len() as int) =~= data);
    reveal_with_fuel(little_endian, 5);
    let d1 = data.drop_first();
    let d2 = d1.drop_first();
    let d3 = d2.drop_first();
    assert(d1[0] == b && d2[0] == c && d3[0] == d);
    assert(little_endian(data, 4) == a + 256 * (b + 256 * (c + 256 * (d + 256 * 0))));
}

proof fn lemma_eight(field: u32, a: u8, b: u8, c: u8, d: u8, rest: Seq<u8>)
    requires
        field < 0x2000_0000,
    ensures
        first_field(
            tag(field, 1) + seq![a, b, c, d, 0u8, 0u8, 0u8, 0u8] + rest,
        ) == Some(
            Ok::<(u32, JsonV, int), Fault>(
                (
                    field,
                    JsonV::Pos((a + 256 * b + 65536 * c + 16777216 * d) as u64),
                    (tag(field, 1).len() + 8) as int,
                ),
            ),
        ),
{
    let head = seq![a, b, c, d, 0u8, 0u8, 0u8, 0u8];
    let data = head + rest;
    let wire = tag(field, 1) + head + rest;
    assert(wire =~= tag(field, 1) + data);
    law_varint_reads_back((field * 8 + 1) as u64, data);
    assert(after(wire, tag(field, 1).len() as int) =~= data);
    reveal_with_fuel(little_endian, 9);
    let d1 = data.drop_first();
    let d2 = d1.drop_first();
    let d3 = d2.drop_first();
    let d4 = d3.drop_first();
    let d5 = d4.drop_first();
    let d6 = d5.drop_first();
    let d7 = d6.drop_first();
    assert(d1[0] == b && d2[0] == c && d3[0] == d);
    assert(d4[0] == 0 && d5[0] == 0 && d6[0] == 0 && d7[0] == 0);
    assert(little_endian(d4, 4) == 0);
    assert(little_endian(data, 8) == a + 256 * (b + 256 * (c + 256 * d)));
}

// ───────────────────────── runs of bytes ─────────────────────────

/// A text without control characters is read as that text.
pub proof fn law_a_text_is_read_as_a_text(t: Seq<char>)
    requires
        forall|i: int| 0 <= i < encode_utf8(t).len() ==> #[trigger] encode_utf8(t)[i] >= 0x20,
    ensures
        data_value(encode_utf8(t)) == Some(JsonV::Text(t)),
{
    vstd::utf8::encode_utf8_valid_utf8(t);
    vstd::utf8::encode_utf8_decode_utf8(t);
}

/// Bytes that are no text and begin no field are read as their base64 form, so that no byte of
/// them is lost.
pub proof fn law_other_bytes_are_read_in_base64(data: Seq<u8>)
    requires
        data.len() > 0,
        data[0] < 8,
        !valid_utf8(data),
    ensures
        data_value(data) == Some(JsonV::Text(base64_text(data))),
{
    assert(data[0] / 8 == 0);
}

/// A run of bytes that may be a message is read as one where it is one with less than a
/// thousand places.
pub proof fn law_a_message_in_a_field_is_read(data: Seq<u8>, v: JsonV)
    requires
        !valid_utf8(data),
        data.len() > 0,
        data[0] >= 8,
        data[0] % 8 == 0 || data[0] % 8 == 2 || data[0] % 8 == 5,
        decoded(data) == Some(Ok::<JsonV, Fault>(v)),
        v is Array,
    ensures
        v->Array_0.len() < 1000 ==> data_value(data) == Some(v),
        v->Array_0.len() >= 1000 ==> data_value(data) == Some(JsonV::Text(base64_text(data))),
{
    assert(data[0] / 8 > 0);
}

} // verus!
