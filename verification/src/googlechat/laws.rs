//! What holds of the codecs taken together.
use vstd::prelude::*;
use vstd::utf8::{encode_utf8, encode_utf8_decode_utf8, encode_utf8_valid_utf8, valid_utf8};

use crate::error::Fault;
use crate::googlechat::pblite::{
    all_arrays, all_null, assembled, base64_text, data_value, decoded, field_bytes, fields_of,
    first_field, has_number_zero, max_number, message_bytes, nested_like, numeric, positional,
    prefix_bytes, repeated_bytes, slot, sparse_bytes, string_payload, text_like, values_of,
};
use crate::googlechat::schema::{FieldKind, Table};
use crate::googlechat::typed::{kind_in, typed_field};
use crate::googlechat::wire::{
    int_field, law_varint_reads_back, lemma_read_len, len_field, read, tag, varint,
};
use crate::json::{plain, JsonV};
use crate::text::{after, integer, natural};

verus! {

// ───────────────────────── what comes out of a message ─────────────────────────

/// Every value is made of null, integers, strings and arrays.
spec fn all_plain(fs: Seq<(u32, JsonV)>) -> bool {
    forall|i: int| 0 <= i < fs.len() ==> plain((#[trigger] fs[i]).1)
}

proof fn lemma_values_plain(fs: Seq<(u32, JsonV)>, num: int)
    requires
        all_plain(fs),
    ensures
        forall|i: int| 0 <= i < values_of(fs, num).len() ==> plain(#[trigger] values_of(fs, num)[i]),
    decreases fs.len(),
{
    if fs.len() > 0 {
        assert forall|i: int| 0 <= i < fs.drop_last().len() implies plain(
            (#[trigger] fs.drop_last()[i]).1,
        ) by {
            assert(fs.drop_last()[i] == fs[i]);
        }
        lemma_values_plain(fs.drop_last(), num);
        assert(fs.last() == fs[fs.len() - 1]);
        let before = values_of(fs.drop_last(), num);
        assert forall|i: int| 0 <= i < values_of(fs, num).len() implies plain(
            #[trigger] values_of(fs, num)[i],
        ) by {
            if i < before.len() {
                assert(values_of(fs, num)[i] == before[i]);
            }
        }
    }
}

proof fn lemma_decoded_plain(wire: Seq<u8>)
    ensures
        decoded(wire) matches Some(Ok(v)) ==> plain(v),
    decreases wire.len(), 3nat,
{
    lemma_fields_plain(wire, Seq::empty());
    match fields_of(wire, Seq::empty()) {
        Some(Ok(fs)) => if !has_number_zero(fs) {
            let v = assembled(fs);
            assert forall|i: int| 0 <= i < v->Array_0.len() implies plain(
                #[trigger] v->Array_0[i],
            ) by {
                lemma_values_plain(fs, i + 1);
                assert(v->Array_0[i] == slot(fs, i + 1));
            }
        },
        _ => {},
    }
}

proof fn lemma_fields_plain(wire: Seq<u8>, fs: Seq<(u32, JsonV)>)
    requires
        all_plain(fs),
    ensures
        fields_of(wire, fs) matches Some(Ok(out)) ==> all_plain(out),
    decreases wire.len(), 2nat,
{
    if wire.len() > 0 {
        lemma_first_plain(wire);
        match first_field(wire) {
            Some(Ok((num, v, n))) => if 0 < n <= wire.len() {
                lemma_fields_plain(after(wire, n), fs.push((num, v)));
            },
            _ => {},
        }
    }
}

proof fn lemma_first_plain(wire: Seq<u8>)
    ensures
        first_field(wire) matches Some(Ok((_, v, _))) ==> plain(v),
    decreases wire.len(), 1nat,
{
    match read(wire) {
        Some((tag, n)) => {
            let rest = after(wire, n);
            if tag % 8 == 2 {
                match read(rest) {
                    Some((l, m)) => {
                        let len = l as usize;
                        let r = after(rest, m);
                        if r.len() >= len {
                            lemma_read_len(wire);
                            lemma_read_len(rest);
                            lemma_data_plain(r.take(len as int));
                        }
                    },
                    None => {},
                }
            }
        },
        None => {},
    }
}

proof fn lemma_data_plain(data: Seq<u8>)
    ensures
        data_value(data) matches Some(v) ==> plain(v),
    decreases data.len(), 4nat,
{
    if !text_like(data) {
        lemma_decoded_plain(data);
    }
}

/// The pblite form of a message is made of null, integers, strings and arrays, so
/// that its JSON text is fixed.
pub proof fn law_decoded_is_plain(wire: Seq<u8>)
    ensures
        decoded(wire) matches Some(Ok(v)) ==> plain(v),
{
    lemma_decoded_plain(wire);
}

// ───────────────────────── there and back ─────────────────────────

/// A text that stands in its field by its own bytes, and that neither control
/// characters nor its first byte make look like a message.
pub open spec fn own_bytes(s: Seq<char>) -> bool {
    &&& string_payload(s) == encode_utf8(s)
    &&& text_like(encode_utf8(s)) || !nested_like(encode_utf8(s))
}

/// A text that is the base64 form of bytes that are no text and that do not look
/// like a message.
pub open spec fn base64_of_bytes(s: Seq<char>) -> bool {
    &&& !valid_utf8(string_payload(s))
    &&& !nested_like(string_payload(s))
    &&& base64_text(string_payload(s)) == s
}

/// A text that a field keeps as it is: no number, short enough for memory, and one
/// of the two above.
pub open spec fn kept_text(s: Seq<char>) -> bool {
    &&& !(numeric(s) && integer(s) is Some)
    &&& string_payload(s).len() <= usize::MAX
    &&& own_bytes(s) || base64_of_bytes(s)
}

/// A value that is no array and no object: null, a boolean, an integer, a text that
/// is kept or one that is a number.
pub open spec fn flat(v: JsonV) -> bool {
    match v {
        JsonV::Null | JsonV::Bool(_) | JsonV::Pos(_) | JsonV::Neg(_) => true,
        JsonV::Text(s) => kept_text(s) || (numeric(s) && integer(s) is Some),
        _ => false,
    }
}

/// What a flat value is read back as: a boolean as one or zero, a negative integer
/// as its two's complement, a text that is a number as that number.
pub open spec fn read_back(v: JsonV) -> JsonV {
    match v {
        JsonV::Bool(b) => JsonV::Pos(if b { 1 } else { 0 }),
        JsonV::Neg(n) => JsonV::Pos(n as u64),
        JsonV::Text(s) => if numeric(s) && integer(s) is Some {
            JsonV::Pos(integer(s)->0 as u64)
        } else {
            v
        },
        _ => v,
    }
}

/// The fields of the message `v` as they are read back: those at its places, then
/// those of the object at its end.
pub open spec fn listed(v: JsonV) -> Seq<(u32, JsonV)>
    decreases v, 2nat, 0int,
{
    match v {
        JsonV::Array(items) => listed_places(v, positional(items)) + if positional(items)
            < items.len() {
            listed_members(v, items.last()->Object_0.len() as int)
        } else {
            Seq::empty()
        },
        _ => Seq::empty(),
    }
}

/// The fields at the first `n` places of `v`.
pub open spec fn listed_places(v: JsonV, n: int) -> Seq<(u32, JsonV)>
    decreases v, 1nat, n,
{
    match v {
        JsonV::Array(items) => if 0 < n <= items.len() {
            listed_places(v, n - 1) + listed_field(n as u32, items[n - 1])
        } else {
            Seq::empty()
        },
        _ => Seq::empty(),
    }
}

/// The fields of the first `n` members of the object at the end of `v`.
pub open spec fn listed_members(v: JsonV, n: int) -> Seq<(u32, JsonV)>
    decreases v, 1nat, n,
{
    match v {
        JsonV::Array(items) => if items.len() > 0 {
            match items[items.len() - 1] {
                JsonV::Object(m) => if 0 < n <= m.len() {
                    listed_members(v, n - 1) + match natural(m[n - 1].0, u32::MAX as nat) {
                        Some(num) => listed_field(num as u32, m[n - 1].1),
                        None => Seq::empty(),
                    }
                } else {
                    Seq::empty()
                },
                _ => Seq::empty(),
            }
        } else {
            Seq::empty()
        },
        _ => Seq::empty(),
    }
}

/// The first `n` items of `v`, each a message in a field of its own.
pub open spec fn listed_repeats(field: u32, v: JsonV, n: int) -> Seq<(u32, JsonV)>
    decreases v, 1nat, n,
{
    match v {
        JsonV::Array(items) => if 0 < n <= items.len() {
            listed_repeats(field, v, n - 1).push((field, assembled(listed(items[n - 1]))))
        } else {
            Seq::empty()
        },
        _ => Seq::empty(),
    }
}

/// What a value makes of the field that it stands in: nothing, one field, or several
/// where it is a repeated message.
pub open spec fn listed_field(field: u32, v: JsonV) -> Seq<(u32, JsonV)>
    decreases v, 3nat, 0int,
{
    match v {
        JsonV::Null => Seq::empty(),
        JsonV::Array(items) => if all_null(items) {
            Seq::empty()
        } else if items.len() > 1 && all_arrays(items) {
            listed_repeats(field, v, items.len() as int)
        } else {
            seq![(field, assembled(listed(v)))]
        },
        _ => seq![(field, read_back(v))],
    }
}

/// A message whose every value is [`kept`], and whose object at the end, if there is
/// one, has field numbers for keys.
pub open spec fn kept_message(v: JsonV) -> bool
    decreases v, 2nat,
{
    match v {
        JsonV::Array(items) => {
            &&& items.len() <= u32::MAX
            &&& forall|i: int| 0 <= i < positional(items) ==> kept(#[trigger] items[i])
            &&& items.len() > 0 ==> match items[items.len() - 1] {
                JsonV::Object(m) => forall|j: int|
                    0 <= j < m.len() ==> (#[trigger] m[j]).1 is Null || (natural(
                        m[j].0,
                        u32::MAX as nat,
                    ) is Some && natural(m[j].0, u32::MAX as nat) != Some(0nat) && kept(m[j].1)),
                _ => true,
            }
        },
        _ => false,
    }
}

/// A message that is recognised inside of another: its bytes do not look like text,
/// and it has fewer than a thousand places.
pub open spec fn kept_inside(v: JsonV) -> bool
    decreases v, 3nat,
{
    &&& kept_message(v)
    &&& message_bytes(v) matches Ok(d) && !text_like(d) && d.len() <= usize::MAX
    &&& max_number(listed(v)) < 1000
}

/// A value that a field keeps: a flat one, an array of nulls, a message or a
/// repeated message that is recognised.
pub open spec fn kept(v: JsonV) -> bool
    decreases v, 4nat,
{
    match v {
        JsonV::Array(items) => {
            ||| all_null(items)
            ||| items.len() > 1 && all_arrays(items) && forall|i: int|
                0 <= i < items.len() ==> kept_inside(#[trigger] items[i])
            ||| !(items.len() > 1 && all_arrays(items)) && kept_inside(v)
        },
        _ => flat(v),
    }
}

proof fn lemma_tag_reads(field: u32, kind: nat, rest: Seq<u8>)
    requires
        kind < 8,
    ensures
        read(tag(field, kind) + rest) == Some(
            ((field * 8 + kind) as u64, tag(field, kind).len() as int),
        ),
        after(tag(field, kind) + rest, tag(field, kind).len() as int) == rest,
        field > 0 && (kind == 0 || kind == 2) ==> nested_like(tag(field, kind) + rest),
{
    law_varint_reads_back((field * 8 + kind) as u64, rest);
    assert(tag(field, kind) =~= varint((field * 8 + kind) as nat));
    assert(after(tag(field, kind) + rest, tag(field, kind).len() as int) =~= rest);
    assert(tag(field, kind).len() > 0);
    assert((tag(field, kind) + rest)[0] == tag(field, kind)[0]);
}

proof fn lemma_int_field_reads(field: u32, n: u64, rest: Seq<u8>)
    ensures
        first_field(int_field(field, n) + rest) == Some(
            Ok::<(u32, JsonV, int), Fault>((field, JsonV::Pos(n), int_field(field, n).len() as int)),
        ),
        int_field(field, n).len() > 0,
        field > 0 ==> nested_like(int_field(field, n)),
{
    let data = int_field(field, n) + rest;
    let value = varint(n as nat);
    lemma_tag_reads(field, 0, value + rest);
    lemma_tag_reads(field, 0, value);
    law_varint_reads_back(n, rest);
    assert(data =~= tag(field, 0) + (value + rest));
    assert(((field * 8) as u64 / 8) as u32 == field);
}

/// A run of bytes stands after its tag and its size, and what follows it is left.
proof fn lemma_len_parts(field: u32, payload: Seq<u8>, rest: Seq<u8>)
    requires
        payload.len() <= usize::MAX,
    ensures
        ({
            let size = varint(payload.len());
            let data = len_field(field, payload) + rest;
            let body = after(data, tag(field, 2).len() as int);
            &&& read(data) == Some(((field * 8 + 2) as u64, tag(field, 2).len() as int))
            &&& body == size + (payload + rest)
            &&& read(body) == Some((payload.len() as u64, size.len() as int))
            &&& after(body, size.len() as int) == payload + rest
            &&& (payload + rest).take(payload.len() as int) == payload
            &&& len_field(field, payload).len() == tag(field, 2).len() + size.len() + payload.len()
            &&& tag(field, 2).len() > 0
        }),
        field > 0 ==> nested_like(len_field(field, payload)),
{
    let size = varint(payload.len());
    assert(len_field(field, payload) + rest =~= tag(field, 2) + (size + (payload + rest)));
    assert(len_field(field, payload) =~= tag(field, 2) + (size + payload));
    lemma_tag_reads(field, 2, size + payload);
    lemma_tag_reads(field, 2, size + (payload + rest));
    law_varint_reads_back(payload.len() as u64, payload + rest);
    assert(after(size + (payload + rest), size.len() as int) =~= payload + rest);
    assert((payload + rest).take(payload.len() as int) =~= payload);
    law_varint_reads_back((field * 8 + 2) as u64, rest);
}

#[verifier::spinoff_prover]
proof fn lemma_len_field_reads(field: u32, payload: Seq<u8>, v: JsonV, rest: Seq<u8>)
    requires
        payload.len() <= usize::MAX,
        data_value(payload) == Some(v),
    ensures
        first_field(len_field(field, payload) + rest) == Some(
            Ok::<(u32, JsonV, int), Fault>((field, v, len_field(field, payload).len() as int)),
        ),
        len_field(field, payload).len() > 0,
        field > 0 ==> nested_like(len_field(field, payload)),
{
    let t = (field * 8 + 2) as u64;
    lemma_len_parts(field, payload, rest);
    assert(t % 8 == 2 && (t / 8) as u32 == field);
}

proof fn lemma_flat_field(field: u32, v: JsonV, rest: Seq<u8>)
    requires
        flat(v),
        !(v is Null),
        field > 0,
    ensures
        field_bytes(field, v) is Ok,
        ({
            let d = field_bytes(field, v)->Ok_0;
            &&& nested_like(d)
            &&& first_field(d + rest) == Some(
                Ok::<(u32, JsonV, int), Fault>((field, read_back(v), d.len() as int)),
            )
        }),
{
    match v {
        JsonV::Bool(b) => lemma_int_field_reads(field, if b { 1 } else { 0 }, rest),
        JsonV::Pos(n) => lemma_int_field_reads(field, n, rest),
        JsonV::Neg(n) => lemma_int_field_reads(field, n as u64, rest),
        JsonV::Text(s) => if numeric(s) && integer(s) is Some {
            lemma_int_field_reads(field, integer(s)->0 as u64, rest);
        } else {
            encode_utf8_valid_utf8(s);
            encode_utf8_decode_utf8(s);
            lemma_len_field_reads(field, string_payload(s), v, rest);
        },
        _ => {},
    }
}

/// `what` is a run of bytes whose fields are those of `fs`, and whose first byte may
/// begin a tag.
#[verifier::opaque]
spec fn reads_as(what: Result<Seq<u8>, Fault>, fs: Seq<(u32, JsonV)>) -> bool {
    match what {
        Ok(d) => {
            &&& d.len() == 0 || nested_like(d)
            &&& forall|rest: Seq<u8>, had: Seq<(u32, JsonV)>| #[trigger]
                fields_of(d + rest, had) == fields_of(rest, had + fs)
        },
        Err(_) => false,
    }
}

proof fn lemma_read(d: Seq<u8>, fs: Seq<(u32, JsonV)>, rest: Seq<u8>, had: Seq<(u32, JsonV)>)
    requires
        reads_as(Ok(d), fs),
    ensures
        fields_of(d + rest, had) == fields_of(rest, had + fs),
        d.len() == 0 || nested_like(d),
{
    reveal(reads_as);
}

proof fn lemma_has_bytes(what: Result<Seq<u8>, Fault>, fs: Seq<(u32, JsonV)>)
    requires
        reads_as(what, fs),
    ensures
        what is Ok,
{
    reveal(reads_as);
}

proof fn lemma_nothing_reads()
    ensures
        reads_as(Ok(Seq::empty()), Seq::empty()),
{
    reveal(reads_as);
    assert forall|rest: Seq<u8>, had: Seq<(u32, JsonV)>| #[trigger]
        fields_of(Seq::<u8>::empty() + rest, had) == fields_of(
        rest,
        had + Seq::<(u32, JsonV)>::empty(),
    ) by {
        assert(Seq::<u8>::empty() + rest =~= rest);
        assert(had + Seq::<(u32, JsonV)>::empty() =~= had);
    }
}

proof fn lemma_both_read(
    a: Seq<u8>,
    b: Seq<u8>,
    first: Seq<(u32, JsonV)>,
    second: Seq<(u32, JsonV)>,
)
    requires
        reads_as(Ok(a), first),
        reads_as(Ok(b), second),
    ensures
        reads_as(Ok(a + b), first + second),
{
    lemma_read(a, first, Seq::empty(), Seq::empty());
    lemma_read(b, second, Seq::empty(), Seq::empty());
    assert forall|rest: Seq<u8>, had: Seq<(u32, JsonV)>| #[trigger]
        fields_of((a + b) + rest, had) == fields_of(rest, had + (first + second)) by {
        assert((a + b) + rest =~= a + (b + rest));
        lemma_read(a, first, b + rest, had);
        lemma_read(b, second, rest, had + first);
        assert((had + first) + second =~= had + (first + second));
    }
    if a.len() == 0 {
        assert(a + b =~= b);
    }
    assert(a.len() > 0 ==> (a + b)[0] == a[0]);
    reveal(reads_as);
}

/// One field after another.
proof fn lemma_one_reads(d: Seq<u8>, field: u32, v: JsonV)
    requires
        nested_like(d),
        forall|rest: Seq<u8>| #[trigger]
            first_field(d + rest) == Some(
                Ok::<(u32, JsonV, int), Fault>((field, v, d.len() as int)),
            ),
    ensures
        reads_as(Ok(d), seq![(field, v)]),
{
    reveal(reads_as);
    assert forall|rest: Seq<u8>, had: Seq<(u32, JsonV)>| #[trigger]
        fields_of(d + rest, had) == fields_of(rest, had + seq![(field, v)]) by {
        assert(first_field(d + rest) == Some(
            Ok::<(u32, JsonV, int), Fault>((field, v, d.len() as int)),
        ));
        assert(after(d + rest, d.len() as int) =~= rest);
        assert(had.push((field, v)) =~= had + seq![(field, v)]);
    }
}

proof fn lemma_inside_reads(field: u32, v: JsonV)
    requires
        kept_inside(v),
        field > 0,
    ensures
        message_bytes(v) is Ok,
        reads_as(
            Ok(len_field(field, message_bytes(v)->Ok_0)),
            seq![(field, assembled(listed(v)))],
        ),
    decreases v, 3nat, 0int,
{
    lemma_message_reads(v);
    lemma_has_bytes(message_bytes(v), listed(v));
    let d = message_bytes(v)->Ok_0;
    let fs = listed(v);
    lemma_read(d, fs, Seq::empty(), Seq::empty());
    assert(d + Seq::<u8>::empty() =~= d);
    assert(Seq::<(u32, JsonV)>::empty() + fs =~= fs);
    assert(decoded(d) == Some(Ok::<JsonV, Fault>(assembled(fs))));
    if d.len() == 0 {
        assert(d =~= Seq::empty());
        assert(text_like(d));
    }
    assert forall|rest: Seq<u8>| #[trigger]
        first_field(len_field(field, d) + rest) == Some(
        Ok::<(u32, JsonV, int), Fault>((field, assembled(fs), len_field(field, d).len() as int)),
    ) by {
        lemma_len_field_reads(field, d, assembled(fs), rest);
    }
    lemma_len_field_reads(field, d, assembled(fs), Seq::empty());
    lemma_one_reads(len_field(field, d), field, assembled(fs));
}

proof fn lemma_repeats_read(field: u32, v: JsonV, n: int)
    requires
        v is Array,
        0 <= n <= v->Array_0.len(),
        forall|i: int| 0 <= i < v->Array_0.len() ==> kept_inside(#[trigger] v->Array_0[i]),
        field > 0,
    ensures
        reads_as(repeated_bytes(field, v, n), listed_repeats(field, v, n)),
    decreases v, 1nat, n,
{
    if n == 0 {
        lemma_nothing_reads();
    } else {
        let x = v->Array_0[n - 1];
        lemma_repeats_read(field, v, n - 1);
        lemma_has_bytes(repeated_bytes(field, v, n - 1), listed_repeats(field, v, n - 1));
        lemma_inside_reads(field, x);
        let before = repeated_bytes(field, v, n - 1)->Ok_0;
        let fs = listed_repeats(field, v, n - 1);
        lemma_both_read(
            before,
            len_field(field, message_bytes(x)->Ok_0),
            fs,
            seq![(field, assembled(listed(x)))],
        );
        assert(fs.push((field, assembled(listed(x)))) =~= fs + seq![
            (field, assembled(listed(x))),
        ]);
    }
}

proof fn lemma_field_reads(field: u32, v: JsonV)
    requires
        kept(v),
        field > 0,
    ensures
        reads_as(field_bytes(field, v), listed_field(field, v)),
    decreases v, 4nat, 0int,
{
    match v {
        JsonV::Null => lemma_nothing_reads(),
        JsonV::Array(items) => if all_null(items) {
            lemma_nothing_reads();
        } else if items.len() > 1 && all_arrays(items) {
            lemma_repeats_read(field, v, items.len() as int);
        } else {
            lemma_inside_reads(field, v);
        },
        _ => {
            let d = field_bytes(field, v)->Ok_0;
            assert forall|rest: Seq<u8>| #[trigger]
                first_field(d + rest) == Some(
                Ok::<(u32, JsonV, int), Fault>((field, read_back(v), d.len() as int)),
            ) by {
                lemma_flat_field(field, v, rest);
            }
            lemma_flat_field(field, v, Seq::empty());
            lemma_one_reads(d, field, read_back(v));
        },
    }
}

proof fn lemma_places_read(v: JsonV, n: int)
    requires
        kept_message(v),
        0 <= n <= positional(v->Array_0),
    ensures
        reads_as(prefix_bytes(v, n), listed_places(v, n)),
        !has_number_zero(listed_places(v, n)),
    decreases v, 1nat, n,
{
    if n == 0 {
        lemma_nothing_reads();
    } else {
        let x = v->Array_0[n - 1];
        lemma_places_read(v, n - 1);
        lemma_has_bytes(prefix_bytes(v, n - 1), listed_places(v, n - 1));
        lemma_field_reads(n as u32, x);
        lemma_has_bytes(field_bytes(n as u32, x), listed_field(n as u32, x));
        lemma_both_read(
            prefix_bytes(v, n - 1)->Ok_0,
            field_bytes(n as u32, x)->Ok_0,
            listed_places(v, n - 1),
            listed_field(n as u32, x),
        );
        lemma_field_numbers(n as u32, x);
    }
}

proof fn lemma_members_read(v: JsonV, n: int)
    requires
        kept_message(v),
        v->Array_0.len() > 0,
        v->Array_0.last() is Object,
        0 <= n <= v->Array_0.last()->Object_0.len(),
    ensures
        reads_as(sparse_bytes(v, n), listed_members(v, n)),
        !has_number_zero(listed_members(v, n)),
    decreases v, 1nat, n,
{
    let items = v->Array_0;
    assert(v == JsonV::Array(items));
    assert(items.last() == items[items.len() - 1]);
    let m = items[items.len() - 1]->Object_0;
    assert(items[items.len() - 1] == JsonV::Object(m));
    if n == 0 {
        lemma_nothing_reads();
        assert(sparse_bytes(v, 0) == Ok::<Seq<u8>, Fault>(Seq::empty()));
        assert(listed_members(v, 0) =~= Seq::empty());
    } else {
        let x = m[n - 1].1;
        lemma_members_read(v, n - 1);
        lemma_has_bytes(sparse_bytes(v, n - 1), listed_members(v, n - 1));
        let before = sparse_bytes(v, n - 1)->Ok_0;
        let fs = listed_members(v, n - 1);
        let key = natural(m[n - 1].0, u32::MAX as nat);
        if x is Null || key is None {
            lemma_nothing_reads();
            lemma_both_read(before, Seq::empty(), fs, Seq::empty());
            assert(x == JsonV::Null);
            if key is Some {
                assert(listed_field(key->0 as u32, x) =~= Seq::empty());
            }
            assert(sparse_bytes(v, n) == Ok::<Seq<u8>, Fault>(before + Seq::<u8>::empty()));
            assert(listed_members(v, n) == fs + Seq::<(u32, JsonV)>::empty());
        } else {
            let num = key->0 as u32;
            lemma_field_reads(num, x);
            lemma_has_bytes(field_bytes(num, x), listed_field(num, x));
            lemma_both_read(before, field_bytes(num, x)->Ok_0, fs, listed_field(num, x));
            lemma_field_numbers(num, x);
            assert(sparse_bytes(v, n) == Ok::<Seq<u8>, Fault>(
                before + field_bytes(num, x)->Ok_0,
            ));
            assert(listed_members(v, n) == fs + listed_field(num, x));
        }
    }
}

proof fn lemma_message_reads(v: JsonV)
    requires
        kept_message(v),
    ensures
        reads_as(message_bytes(v), listed(v)),
        !has_number_zero(listed(v)),
    decreases v, 2nat, 0int,
{
    let items = v->Array_0;
    let n = positional(items);
    lemma_places_read(v, n);
    lemma_has_bytes(prefix_bytes(v, n), listed_places(v, n));
    if n < items.len() {
        let k = items.last()->Object_0.len() as int;
        lemma_members_read(v, k);
        lemma_has_bytes(sparse_bytes(v, k), listed_members(v, k));
        lemma_both_read(
            prefix_bytes(v, n)->Ok_0,
            sparse_bytes(v, k)->Ok_0,
            listed_places(v, n),
            listed_members(v, k),
        );
    } else {
        lemma_nothing_reads();
        lemma_both_read(
            prefix_bytes(v, n)->Ok_0,
            Seq::empty(),
            listed_places(v, n),
            Seq::empty(),
        );
    }
}

/// All fields that a value makes have the number of the field that it stands in.
proof fn lemma_field_numbers(field: u32, v: JsonV)
    ensures
        forall|i: int|
            0 <= i < listed_field(field, v).len() ==> (#[trigger] listed_field(field, v)[i]).0
                == field,
{
    match v {
        JsonV::Array(items) => {
            lemma_repeat_numbers(field, v, items.len() as int);
            if all_null(items) {
                assert(listed_field(field, v).len() == 0);
            } else if items.len() > 1 && all_arrays(items) {
                assert(listed_field(field, v) == listed_repeats(field, v, items.len() as int));
            } else {
                assert(listed_field(field, v) == seq![(field, assembled(listed(v)))]);
            }
        },
        _ => {},
    }
}

proof fn lemma_repeat_numbers(field: u32, v: JsonV, n: int)
    ensures
        forall|i: int|
            0 <= i < listed_repeats(field, v, n).len() ==> (#[trigger] listed_repeats(
                field,
                v,
                n,
            )[i]).0 == field,
    decreases n,
{
    match v {
        JsonV::Array(items) => if 0 < n <= items.len() {
            lemma_repeat_numbers(field, v, n - 1);
            let before = listed_repeats(field, v, n - 1);
            let whole = listed_repeats(field, v, n);
            assert(whole == before.push((field, assembled(listed(items[n - 1])))));
            assert forall|i: int| 0 <= i < whole.len() implies (#[trigger] whole[i]).0 == field by {
                if i < before.len() {
                    assert(whole[i] == before[i]);
                }
            }
        },
        _ => {},
    }
}

/// A message whose values are kept has a wire form, and is read back from it with
/// each field at its place, as [`listed`] says: flat values, messages in messages,
/// repeated messages, and the fields of the object at the end.
pub proof fn law_message_reads_back(v: JsonV)
    requires
        kept_message(v),
    ensures
        message_bytes(v) matches Ok(d) && decoded(d) == Some(
            Ok::<JsonV, Fault>(assembled(listed(v))),
        ),
{
    lemma_message_reads(v);
    lemma_has_bytes(message_bytes(v), listed(v));
    let d = message_bytes(v)->Ok_0;
    let fs = listed(v);
    lemma_read(d, fs, Seq::empty(), Seq::empty());
    assert(d + Seq::<u8>::empty() =~= d);
    assert(Seq::<(u32, JsonV)>::empty() + fs =~= fs);
}

/// A value that comes back unchanged: null, a natural number, a text that is no
/// number, a message or a repeated message of such values.
pub open spec fn settled(v: JsonV) -> bool
    decreases v, 1nat,
{
    match v {
        JsonV::Null | JsonV::Pos(_) => true,
        JsonV::Text(s) => !(numeric(s) && integer(s) is Some),
        JsonV::Array(items) => {
            &&& !all_null(items)
            &&& if items.len() > 1 && all_arrays(items) {
                forall|i: int| 0 <= i < items.len() ==> settled_message(#[trigger] items[i])
            } else {
                settled_message(v)
            }
        },
        _ => false,
    }
}

/// A message of such values, without an object at its end and without a null there.
pub open spec fn settled_message(v: JsonV) -> bool
    decreases v, 0nat,
{
    match v {
        JsonV::Array(items) => {
            &&& items.len() <= u32::MAX
            &&& forall|i: int| 0 <= i < items.len() ==> settled(#[trigger] items[i])
            &&& items.len() > 0 ==> !(items[items.len() - 1] is Null)
        },
        _ => false,
    }
}

proof fn lemma_values_of_both(a: Seq<(u32, JsonV)>, b: Seq<(u32, JsonV)>, k: int)
    ensures
        values_of(a + b, k) == values_of(a, k) + values_of(b, k),
        max_number(a + b) == if max_number(a) > max_number(b) {
            max_number(a)
        } else {
            max_number(b)
        },
    decreases b.len(),
{
    if b.len() == 0 {
        assert(a + b =~= a);
        assert(values_of(a, k) + values_of(b, k) =~= values_of(a, k));
    } else {
        assert((a + b).drop_last() =~= a + b.drop_last());
        lemma_values_of_both(a, b.drop_last(), k);
        assert(values_of(a + b, k) =~= values_of(a, k) + values_of(b, k));
    }
}

/// The values at the place `field`, each in a field of that number.
spec fn in_fields(field: u32, vs: Seq<JsonV>) -> Seq<(u32, JsonV)> {
    vs.map_values(|v: JsonV| (field, v))
}

proof fn lemma_values_of_fields(field: u32, vs: Seq<JsonV>, k: int)
    ensures
        values_of(in_fields(field, vs), k) == if k == field {
            vs
        } else {
            Seq::empty()
        },
        vs.len() > 0 ==> max_number(in_fields(field, vs)) == field,
        vs.len() == 0 ==> max_number(in_fields(field, vs)) == 0,
    decreases vs.len(),
{
    let fs = in_fields(field, vs);
    if vs.len() > 0 {
        assert(fs.drop_last() =~= in_fields(field, vs.drop_last()));
        lemma_values_of_fields(field, vs.drop_last(), k);
        assert(vs.drop_last().push(vs.last()) =~= vs);
    } else {
        assert(vs =~= Seq::empty());
    }
}

/// The values that a settled value puts into its field.
spec fn spread(v: JsonV) -> Seq<JsonV> {
    match v {
        JsonV::Null => Seq::empty(),
        JsonV::Array(items) => if items.len() > 1 && all_arrays(items) {
            items
        } else {
            seq![v]
        },
        _ => seq![v],
    }
}

proof fn lemma_settled_repeats(field: u32, v: JsonV, n: int)
    requires
        v is Array,
        0 <= n <= v->Array_0.len(),
        forall|i: int| 0 <= i < v->Array_0.len() ==> settled_message(#[trigger] v->Array_0[i]),
    ensures
        listed_repeats(field, v, n) == in_fields(field, v->Array_0.take(n)),
    decreases v, 0nat, n,
{
    let items = v->Array_0;
    assert(v == JsonV::Array(items));
    if n > 0 {
        lemma_settled_repeats(field, v, n - 1);
        lemma_settled_message(items[n - 1]);
        assert(listed_repeats(field, v, n) == listed_repeats(field, v, n - 1).push(
            (field, items[n - 1]),
        ));
    }
    assert(listed_repeats(field, v, n) =~= in_fields(field, items.take(n)));
}

proof fn lemma_settled_field(field: u32, v: JsonV)
    requires
        settled(v),
    ensures
        listed_field(field, v) == in_fields(field, spread(v)),
    decreases v, 2nat, 0int,
{
    match v {
        JsonV::Array(items) => if items.len() > 1 && all_arrays(items) {
            lemma_settled_repeats(field, v, items.len() as int);
            assert(items.take(items.len() as int) =~= items);
        } else {
            lemma_settled_message(v);
            assert(listed_field(field, v) == seq![(field, v)]);
        },
        JsonV::Null => {
            assert(listed_field(field, v) == Seq::<(u32, JsonV)>::empty());
        },
        _ => {
            assert(read_back(v) == v);
            assert(listed_field(field, v) == seq![(field, v)]);
        },
    }
    assert(listed_field(field, v) =~= in_fields(field, spread(v)));
}

proof fn lemma_settled_places(v: JsonV, n: int, k: int)
    requires
        settled_message(v),
        0 <= n <= v->Array_0.len(),
    ensures
        values_of(listed_places(v, n), k) == if 1 <= k <= n {
            spread(v->Array_0[k - 1])
        } else {
            Seq::empty()
        },
        max_number(listed_places(v, n)) <= n,
        n > 0 && !(v->Array_0[n - 1] is Null) ==> max_number(listed_places(v, n)) == n,
    decreases v, 0nat, n,
{
    let items = v->Array_0;
    assert(v == JsonV::Array(items));
    if n > 0 {
        let x = items[n - 1];
        assert(settled(x));
        lemma_settled_places(v, n - 1, k);
        lemma_settled_field(n as u32, x);
        lemma_values_of_both(listed_places(v, n - 1), listed_field(n as u32, x), k);
        lemma_values_of_fields(n as u32, spread(x), k);
        assert(values_of(listed_places(v, n), k) =~= if 1 <= k <= n {
            spread(items[k - 1])
        } else {
            Seq::empty()
        });
    }
}

proof fn lemma_settled_message(v: JsonV)
    requires
        settled_message(v),
    ensures
        assembled(listed(v)) == v,
    decreases v, 1nat, 0int,
{
    let items = v->Array_0;
    let n = items.len() as int;
    assert(v == JsonV::Array(items));
    assert(n > 0 ==> settled(items[n - 1]));
    assert(positional(items) == n);
    assert(listed(v) =~= listed_places(v, n));
    lemma_settled_places(v, n, 0);
    assert forall|i: int| 0 <= i < n implies slot(listed(v), i + 1) == #[trigger] items[i] by {
        lemma_settled_places(v, n, i + 1);
        assert(settled(items[i]));
        assert(slot(listed(v), i + 1) == items[i]);
    }
    assert(assembled(listed(v))->Array_0 =~= items);
}

/// A message of natural numbers, texts that are no numbers, and messages of such
/// values, with nulls between them but not at an end, is read back from its wire form
/// as it was.
pub proof fn law_settled_message_is_unchanged(v: JsonV)
    requires
        kept_message(v),
        settled_message(v),
    ensures
        message_bytes(v) matches Ok(d) && decoded(d) == Some(Ok::<JsonV, Fault>(v)),
{
    law_message_reads_back(v);
    lemma_settled_message(v);
}

/// A text in a field that the schema declares as a string is read back as it was,
/// also where it is made of digits or looks like base64.
pub proof fn law_declared_text_reads_back(
    schema: Table,
    name: Seq<char>,
    field: u32,
    t: Seq<char>,
    rest: Seq<u8>,
)
    requires
        kind_in(schema, name, field) == Some(FieldKind::String),
        text_like(encode_utf8(t)),
        encode_utf8(t).len() <= usize::MAX,
    ensures
        typed_field(schema, field, JsonV::Text(t), kind_in(schema, name, field)) matches Ok(d)
            && first_field(d + rest) == Some(
            Ok::<(u32, JsonV, int), Fault>((field, JsonV::Text(t), d.len() as int)),
        ),
{
    encode_utf8_valid_utf8(t);
    encode_utf8_decode_utf8(t);
    lemma_len_field_reads(field, encode_utf8(t), JsonV::Text(t), rest);
}

} // verus!
