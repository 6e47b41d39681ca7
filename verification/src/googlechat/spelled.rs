//! What a reader of protobuf finds in the wire form that a schema gives to a pblite message:
//! an integer where the schema declares an integer, the bytes of the text where it declares
//! a text, a message where it declares a message.
use vstd::prelude::*;
use vstd::utf8::encode_utf8;

use crate::error::Fault;
use crate::googlechat::pblite::{base64_bytes, first_field, message_bytes, positional, prefix_bytes};
use crate::googlechat::schema::{FieldKind, Table};
use crate::googlechat::typed::{
    integer_item, integer_items, kind_in, string_items, typed_field, typed_message, typed_prefix,
    typed_repeated, typed_sparse,
};
use crate::googlechat::wire::{int_field, law_varint_reads_back, len_field, read, tag, varint};
use crate::json::JsonV;
use crate::text::{after, integer, natural};

verus! {

// ───────────────────────── a reader ─────────────────────────

/// What a field holds on the wire.
pub ghost enum Record {
    Int(u64),
    Bytes(Seq<u8>),
}

/// The first field on the wire: its number, what it holds, and the bytes that it takes. The
/// tag tells an integer from a run of bytes, and a run has its length before it.
pub open spec fn record(wire: Seq<u8>) -> Option<(u32, Record, int)> {
    match read(wire) {
        Some((tag, n)) => match read(after(wire, n)) {
            Some((x, m)) => {
                let rest = after(after(wire, n), m);
                if tag % 8 == 0 {
                    Some(((tag / 8) as u32, Record::Int(x), n + m))
                } else if tag % 8 == 2 && x <= rest.len() {
                    Some(((tag / 8) as u32, Record::Bytes(rest.take(x as int)), n + m + x))
                } else {
                    None
                }
            },
            None => None,
        },
        None => None,
    }
}

/// The fields on the wire, in their order.
pub open spec fn records(wire: Seq<u8>) -> Option<Seq<(u32, Record)>>
    decreases wire.len(),
{
    if wire.len() == 0 {
        Some(Seq::empty())
    } else {
        match record(wire) {
            Some((field, r, n)) => if 0 < n <= wire.len() {
                match records(after(wire, n)) {
                    Some(rs) => Some(seq![(field, r)] + rs),
                    None => None,
                }
            } else {
                None
            },
            None => None,
        }
    }
}

/// `d` holds these fields, whatever follows it.
pub open spec fn spells(d: Seq<u8>, rs: Seq<(u32, Record)>) -> bool {
    forall|rest: Seq<u8>| #[trigger]
        records(d + rest) == match records(rest) {
            Some(more) => Some(rs + more),
            None => None,
        }
}

proof fn lemma_spells_nothing()
    ensures
        spells(Seq::empty(), Seq::empty()),
{
    assert forall|rest: Seq<u8>| #[trigger]
        records(Seq::<u8>::empty() + rest) == match records(rest) {
            Some(more) => Some(Seq::<(u32, Record)>::empty() + more),
            None => None,
        } by {
        assert(Seq::<u8>::empty() + rest =~= rest);
        if records(rest) is Some {
            assert(Seq::<(u32, Record)>::empty() + records(rest)->0 =~= records(rest)->0);
        }
    }
}

/// What spells some fields and then what spells others spells them all.
pub proof fn lemma_spells_both(
    a: Seq<u8>,
    b: Seq<u8>,
    ra: Seq<(u32, Record)>,
    rb: Seq<(u32, Record)>,
)
    requires
        spells(a, ra),
        spells(b, rb),
    ensures
        spells(a + b, ra + rb),
{
    assert forall|rest: Seq<u8>| #[trigger]
        records((a + b) + rest) == match records(rest) {
            Some(more) => Some((ra + rb) + more),
            None => None,
        } by {
        assert((a + b) + rest =~= a + (b + rest));
        assert(records(a + (b + rest)) == match records(b + rest) {
            Some(more) => Some(ra + more),
            None => None,
        });
        if records(rest) is Some {
            assert(ra + (rb + records(rest)->0) =~= (ra + rb) + records(rest)->0);
        }
    }
}

/// What spells some fields is read as them.
pub proof fn lemma_spelled_is_read(d: Seq<u8>, rs: Seq<(u32, Record)>)
    requires
        spells(d, rs),
    ensures
        records(d) == Some(rs),
{
    let none = Seq::<u8>::empty();
    assert(records(d + none) == match records(none) {
        Some(more) => Some(rs + more),
        None => None,
    });
    assert(d + none =~= d);
    assert(rs + Seq::<(u32, Record)>::empty() =~= rs);
}

proof fn lemma_tag(field: u32, kind: nat, rest: Seq<u8>)
    requires
        kind < 8,
    ensures
        read(tag(field, kind) + rest) == Some(
            ((field * 8 + kind) as u64, tag(field, kind).len() as int),
        ),
        after(tag(field, kind) + rest, tag(field, kind).len() as int) == rest,
        ((field * 8 + kind) as u64 / 8) as u32 == field,
        (field * 8 + kind) as u64 % 8 == kind,
        tag(field, kind).len() > 0,
{
    law_varint_reads_back((field * 8 + kind) as u64, rest);
    assert(tag(field, kind) =~= varint((field * 8 + kind) as nat));
    assert(after(tag(field, kind) + rest, tag(field, kind).len() as int) =~= rest);
}

proof fn lemma_int_spelled(field: u32, n: u64)
    ensures
        spells(int_field(field, n), seq![(field, Record::Int(n))]),
{
    let d = int_field(field, n);
    let value = varint(n as nat);
    assert forall|rest: Seq<u8>| #[trigger]
        records(d + rest) == match records(rest) {
            Some(more) => Some(seq![(field, Record::Int(n))] + more),
            None => None,
        } by {
        assert(d + rest =~= tag(field, 0) + (value + rest));
        lemma_tag(field, 0, value + rest);
        law_varint_reads_back(n, rest);
        assert(after(value + rest, value.len() as int) =~= rest);
        assert(after(d + rest, d.len() as int) =~= rest);
    }
}

proof fn lemma_bytes_spelled(field: u32, p: Seq<u8>)
    requires
        p.len() <= u64::MAX,
    ensures
        spells(len_field(field, p), seq![(field, Record::Bytes(p))]),
{
    let d = len_field(field, p);
    let size = varint(p.len());
    assert forall|rest: Seq<u8>| #[trigger]
        records(d + rest) == match records(rest) {
            Some(more) => Some(seq![(field, Record::Bytes(p))] + more),
            None => None,
        } by {
        assert(d + rest =~= tag(field, 2) + (size + (p + rest)));
        lemma_tag(field, 2, size + (p + rest));
        law_varint_reads_back(p.len() as u64, p + rest);
        assert(after(size + (p + rest), size.len() as int) =~= p + rest);
        assert((p + rest).take(p.len() as int) =~= p);
        assert(after(d + rest, d.len() as int) =~= rest);
    }
}

/// A field with an integer is read as that integer, and a field with a run of bytes as those
/// bytes, under its own number and whatever follows.
pub proof fn law_fields_are_read_back(field: u32, n: u64, p: Seq<u8>)
    requires
        p.len() <= u64::MAX,
    ensures
        spells(int_field(field, n), seq![(field, Record::Int(n))]),
        spells(len_field(field, p), seq![(field, Record::Bytes(p))]),
        records(int_field(field, n)) == Some(seq![(field, Record::Int(n))]),
        records(len_field(field, p)) == Some(seq![(field, Record::Bytes(p))]),
{
    lemma_int_spelled(field, n);
    lemma_bytes_spelled(field, p);
    lemma_spelled_is_read(int_field(field, n), seq![(field, Record::Int(n))]);
    lemma_spelled_is_read(len_field(field, p), seq![(field, Record::Bytes(p))]);
}

// ───────────────────────── declared fields ─────────────────────────

/// The wire form is the one field with what is given.
pub open spec fn is_one(d: Result<Seq<u8>, Fault>, field: u32, r: Record) -> bool {
    d is Ok && spells(d->Ok_0, seq![(field, r)]) && records(d->Ok_0) == Some(seq![(field, r)])
}

/// In a field that the schema declares as an integer or as an enum, a text that writes an
/// integer is read back as that integer.
pub proof fn law_declared_integer_reads_back(
    schema: Table,
    name: Seq<char>,
    field: u32,
    t: Seq<char>,
    n: i64,
    rest: Seq<u8>,
)
    requires
        kind_in(schema, name, field) == Some(FieldKind::Varint) || kind_in(schema, name, field)
            == Some(FieldKind::Enum),
        integer(t) == Some(n),
    ensures
        ({
            let d = typed_field(schema, field, JsonV::Text(t), kind_in(schema, name, field));
            &&& is_one(d, field, Record::Int(n as u64))
            &&& first_field(d->Ok_0 + rest) == Some(
                Ok::<(u32, JsonV, int), Fault>(
                    (field, JsonV::Pos(n as u64), d->Ok_0.len() as int),
                ),
            )
        }),
{
    law_fields_are_read_back(field, n as u64, Seq::empty());
    lemma_first_int(field, n as u64, rest);
}

proof fn lemma_first_int(field: u32, n: u64, rest: Seq<u8>)
    ensures
        first_field(int_field(field, n) + rest) == Some(
            Ok::<(u32, JsonV, int), Fault>((field, JsonV::Pos(n), int_field(field, n).len() as int)),
        ),
{
    let data = int_field(field, n) + rest;
    let value = varint(n as nat);
    assert(data =~= tag(field, 0) + (value + rest));
    lemma_tag(field, 0, value + rest);
    law_varint_reads_back(n, rest);
}

/// A text in a field that is declared as an integer or as an enum, but that writes no
/// integer, is read back as its own bytes.
pub proof fn law_declared_integer_keeps_other_texts(
    schema: Table,
    field: u32,
    t: Seq<char>,
    kind: FieldKind,
)
    requires
        kind == FieldKind::Varint || kind == FieldKind::Enum,
        integer(t) is None,
        encode_utf8(t).len() <= u64::MAX,
    ensures
        is_one(
            typed_field(schema, field, JsonV::Text(t), Some(kind)),
            field,
            Record::Bytes(encode_utf8(t)),
        ),
{
    law_fields_are_read_back(field, 0, encode_utf8(t));
}

/// A number in any field is read back as that number: a negative one as its two's
/// complement, true as one and false as zero. A null leaves no field, and a fraction is
/// refused.
pub proof fn law_numbers_read_back(
    schema: Table,
    field: u32,
    kind: Option<FieldKind>,
    n: u64,
    k: i64,
    b: bool,
    x: JsonV,
)
    requires
        k < 0,
        x is Float,
    ensures
        is_one(typed_field(schema, field, JsonV::Pos(n), kind), field, Record::Int(n)),
        is_one(
            typed_field(schema, field, JsonV::Neg(k), kind),
            field,
            Record::Int((k + 0x1_0000_0000_0000_0000) as u64),
        ),
        is_one(
            typed_field(schema, field, JsonV::Bool(b), kind),
            field,
            Record::Int(if b { 1 } else { 0 }),
        ),
        typed_field(schema, field, JsonV::Null, kind) == Ok::<Seq<u8>, Fault>(Seq::empty()),
        typed_field(schema, field, x, kind) is Err,
{
    law_fields_are_read_back(field, n, Seq::empty());
    assert(k < 0 ==> k as u64 == (k + 0x1_0000_0000_0000_0000) as u64) by (bit_vector);
    law_fields_are_read_back(field, k as u64, Seq::empty());
    law_fields_are_read_back(field, 1, Seq::empty());
    law_fields_are_read_back(field, 0, Seq::empty());
}

/// In a field that the schema declares as a boolean, the texts `1` and `true` are read back as
/// one and every other text as zero.
pub proof fn law_declared_flag_reads_back(schema: Table, field: u32, t: Seq<char>)
    ensures
        is_one(
            typed_field(schema, field, JsonV::Text(t), Some(FieldKind::Bool)),
            field,
            Record::Int(
                if t == "1"@ || t == "true"@ {
                    1
                } else {
                    0
                },
            ),
        ),
{
    law_fields_are_read_back(field, 1, Seq::empty());
    law_fields_are_read_back(field, 0, Seq::empty());
}

/// In a field that the schema declares as bytes, a base64 text is read back as the bytes that
/// it stands for, and any other text as its own.
pub proof fn law_declared_bytes_read_back(schema: Table, field: u32, t: Seq<char>)
    requires
        encode_utf8(t).len() <= u64::MAX,
        base64_bytes(t) matches Ok(raw) ==> raw.len() <= u64::MAX,
    ensures
        is_one(
            typed_field(schema, field, JsonV::Text(t), Some(FieldKind::Bytes)),
            field,
            Record::Bytes(
                if base64_bytes(t) is Ok {
                    base64_bytes(t)->Ok_0
                } else {
                    encode_utf8(t)
                },
            ),
        ),
{
    law_fields_are_read_back(field, 0, encode_utf8(t));
    if base64_bytes(t) is Ok {
        law_fields_are_read_back(field, 0, base64_bytes(t)->Ok_0);
    }
}

/// In a field that the schema declares as a text, a text is read back as its own bytes, also
/// where it is made of digits or looks like base64.
pub proof fn law_declared_string_reads_back(schema: Table, field: u32, t: Seq<char>)
    requires
        encode_utf8(t).len() <= u64::MAX,
    ensures
        is_one(
            typed_field(schema, field, JsonV::Text(t), Some(FieldKind::String)),
            field,
            Record::Bytes(encode_utf8(t)),
        ),
        is_one(
            typed_field(schema, field, JsonV::Text(t), Some(FieldKind::RepeatedString)),
            field,
            Record::Bytes(encode_utf8(t)),
        ),
{
    law_fields_are_read_back(field, 0, encode_utf8(t));
}

/// In a field that the schema declares as a message, a message is read back as its own wire
/// form, by its own type. One that has none is refused for the same reason.
pub proof fn law_declared_message_reads_back(
    schema: Table,
    field: u32,
    child: Seq<char>,
    v: JsonV,
)
    requires
        v is Array || v is Object,
        typed_message(schema, child, v) matches Ok(p) ==> p.len() <= u64::MAX,
    ensures
        match typed_message(schema, child, v) {
            Ok(p) => is_one(
                typed_field(schema, field, v, Some(FieldKind::Message(child))),
                field,
                Record::Bytes(p),
            ),
            Err(f) => typed_field(schema, field, v, Some(FieldKind::Message(child))) == Err::<
                Seq<u8>,
                Fault,
            >(f),
        },
{
    if typed_message(schema, child, v) is Ok {
        law_fields_are_read_back(field, 0, typed_message(schema, child, v)->Ok_0);
    }
}

// ───────────────────────── repeated fields ─────────────────────────

proof fn lemma_integers(field: u32, items: Seq<JsonV>, ns: Seq<u64>)
    requires
        items.len() == ns.len(),
        forall|i: int|
            0 <= i < items.len() ==> integer_item(field, #[trigger] items[i]) == int_field(
                field,
                ns[i],
            ),
    ensures
        spells(integer_items(field, items), ns.map_values(|n: u64| (field, Record::Int(n)))),
    decreases items.len(),
{
    let rs = ns.map_values(|n: u64| (field, Record::Int(n)));
    if items.len() == 0 {
        lemma_spells_nothing();
        assert(rs =~= Seq::empty());
    } else {
        let front = items.drop_last();
        let before = ns.drop_last();
        assert forall|i: int| 0 <= i < front.len() implies integer_item(
            field,
            #[trigger] front[i],
        ) == int_field(field, before[i]) by {
            assert(front[i] == items[i]);
        }
        lemma_integers(field, front, before);
        assert(items[items.len() - 1] == items.last());
        lemma_int_spelled(field, ns.last());
        let a = before.map_values(|n: u64| (field, Record::Int(n)));
        lemma_spells_both(
            integer_items(field, front),
            int_field(field, ns.last()),
            a,
            seq![(field, Record::Int(ns.last()))],
        );
        assert(rs =~= a + seq![(field, Record::Int(ns.last()))]);
    }
}

/// The integer that an item of a list writes, as a number or in digits.
pub open spec fn writes_integer(v: JsonV, n: u64) -> bool {
    match v {
        JsonV::Pos(x) => n == x,
        JsonV::Neg(x) => n == x as u64,
        JsonV::Text(t) => integer(t) is Some && n == integer(t)->0 as u64,
        _ => false,
    }
}

/// In a field that the schema declares as repeated integers, a list of integers is read back
/// as those integers, one field for each, in their order.
pub proof fn law_declared_integers_read_back(
    schema: Table,
    field: u32,
    items: Seq<JsonV>,
    ns: Seq<u64>,
)
    requires
        items.len() == ns.len(),
        forall|i: int| 0 <= i < items.len() ==> writes_integer(#[trigger] items[i], ns[i]),
    ensures
        typed_field(schema, field, JsonV::Array(items), Some(FieldKind::RepeatedVarint)) matches Ok(
            d,
        ) && records(d) == Some(ns.map_values(|n: u64| (field, Record::Int(n)))),
{
    lemma_integers(field, items, ns);
    lemma_spelled_is_read(
        integer_items(field, items),
        ns.map_values(|n: u64| (field, Record::Int(n))),
    );
}

proof fn lemma_strings(field: u32, items: Seq<JsonV>, ts: Seq<Seq<char>>)
    requires
        items.len() == ts.len(),
        forall|i: int|
            0 <= i < items.len() ==> #[trigger] items[i] == JsonV::Text(ts[i]) && encode_utf8(
                ts[i],
            ).len() <= u64::MAX,
    ensures
        spells(
            string_items(field, items),
            ts.map_values(|t: Seq<char>| (field, Record::Bytes(encode_utf8(t)))),
        ),
    decreases items.len(),
{
    let rs = ts.map_values(|t: Seq<char>| (field, Record::Bytes(encode_utf8(t))));
    if items.len() == 0 {
        lemma_spells_nothing();
        assert(rs =~= Seq::empty());
    } else {
        let front = items.drop_last();
        let before = ts.drop_last();
        assert forall|i: int| 0 <= i < front.len() implies #[trigger] front[i] == JsonV::Text(
            before[i],
        ) && encode_utf8(before[i]).len() <= u64::MAX by {
            assert(front[i] == items[i]);
        }
        lemma_strings(field, front, before);
        assert(items[items.len() - 1] == JsonV::Text(ts.last()));
        lemma_bytes_spelled(field, encode_utf8(ts.last()));
        let a = before.map_values(|t: Seq<char>| (field, Record::Bytes(encode_utf8(t))));
        let b = seq![(field, Record::Bytes(encode_utf8(ts.last())))];
        lemma_spells_both(
            string_items(field, front),
            len_field(field, encode_utf8(ts.last())),
            a,
            b,
        );
        assert(rs =~= a + b);
    }
}

/// In a field that the schema declares as repeated texts, a list of texts is read back as
/// those texts, one field for each, in their order.
pub proof fn law_declared_strings_read_back(
    schema: Table,
    field: u32,
    items: Seq<JsonV>,
    ts: Seq<Seq<char>>,
)
    requires
        items.len() == ts.len(),
        forall|i: int|
            0 <= i < items.len() ==> #[trigger] items[i] == JsonV::Text(ts[i]) && encode_utf8(
                ts[i],
            ).len() <= u64::MAX,
    ensures
        typed_field(schema, field, JsonV::Array(items), Some(FieldKind::RepeatedString)) matches Ok(
            d,
        ) && records(d) == Some(
            ts.map_values(|t: Seq<char>| (field, Record::Bytes(encode_utf8(t)))),
        ),
{
    lemma_strings(field, items, ts);
    lemma_spelled_is_read(
        string_items(field, items),
        ts.map_values(|t: Seq<char>| (field, Record::Bytes(encode_utf8(t)))),
    );
}

/// `p` is the wire form of the message `x`, by its type.
pub open spec fn is_wire_form(schema: Table, child: Seq<char>, x: JsonV, p: Seq<u8>) -> bool {
    &&& !(x is Null)
    &&& typed_message(schema, child, x) == Ok::<Seq<u8>, Fault>(p)
    &&& p.len() <= u64::MAX
}

proof fn lemma_messages(
    schema: Table,
    field: u32,
    child: Seq<char>,
    v: JsonV,
    n: int,
    ps: Seq<Seq<u8>>,
)
    requires
        v is Array,
        0 <= n <= v->Array_0.len(),
        ps.len() == v->Array_0.len(),
        forall|i: int|
            0 <= i < ps.len() ==> is_wire_form(schema, child, v->Array_0[i], #[trigger] ps[i]),
    ensures
        typed_repeated(schema, field, child, v, n) is Ok,
        spells(
            typed_repeated(schema, field, child, v, n)->Ok_0,
            ps.take(n).map_values(|p: Seq<u8>| (field, Record::Bytes(p))),
        ),
    decreases n,
{
    let rs = ps.take(n).map_values(|p: Seq<u8>| (field, Record::Bytes(p)));
    if n == 0 {
        lemma_spells_nothing();
        assert(rs =~= Seq::empty());
    } else {
        lemma_messages(schema, field, child, v, n - 1, ps);
        let p = ps[n - 1];
        lemma_bytes_spelled(field, p);
        let a = ps.take(n - 1).map_values(|p: Seq<u8>| (field, Record::Bytes(p)));
        let b = seq![(field, Record::Bytes(p))];
        lemma_spells_both(
            typed_repeated(schema, field, child, v, n - 1)->Ok_0,
            len_field(field, p),
            a,
            b,
        );
        assert(rs =~= a + b);
    }
}

/// In a field that the schema declares as repeated messages, a list of messages is read back
/// as the wire forms of those messages by their type, one field for each, in their order.
pub proof fn law_declared_messages_read_back(
    schema: Table,
    field: u32,
    child: Seq<char>,
    items: Seq<JsonV>,
    ps: Seq<Seq<u8>>,
)
    requires
        ps.len() == items.len(),
        forall|i: int|
            0 <= i < ps.len() ==> is_wire_form(schema, child, items[i], #[trigger] ps[i]),
    ensures
        typed_field(
            schema,
            field,
            JsonV::Array(items),
            Some(FieldKind::RepeatedMessage(child)),
        ) matches Ok(d) && records(d) == Some(
            ps.map_values(|p: Seq<u8>| (field, Record::Bytes(p))),
        ),
{
    let v = JsonV::Array(items);
    let n = items.len() as int;
    lemma_messages(schema, field, child, v, n, ps);
    assert(ps.take(n) =~= ps);
    lemma_spelled_is_read(
        typed_repeated(schema, field, child, v, n)->Ok_0,
        ps.map_values(|p: Seq<u8>| (field, Record::Bytes(p))),
    );
}

// ───────────────────────── messages ─────────────────────────

proof fn lemma_prefix_same(s: Table, name: Seq<char>, a: Seq<JsonV>, b: Seq<JsonV>, n: int)
    requires
        0 <= n <= a.len(),
        n <= b.len(),
        forall|i: int| 0 <= i < n ==> a[i] == b[i],
    ensures
        typed_prefix(s, name, JsonV::Array(a), n) == typed_prefix(s, name, JsonV::Array(b), n),
        prefix_bytes(JsonV::Array(a), n) == prefix_bytes(JsonV::Array(b), n),
    decreases n,
{
    if n > 0 {
        lemma_prefix_same(s, name, a, b, n - 1);
        assert(a[n - 1] == b[n - 1]);
    }
}

/// A message of no places has an empty wire form. Each further place adds behind what is there
/// the wire form of its value, in the field whose number is the place counted from one, of the
/// kind that the schema declares for that field of that message.
pub proof fn law_each_place_is_a_field(s: Table, name: Seq<char>, items: Seq<JsonV>, x: JsonV)
    requires
        items.len() == 0 || !(items.last() is Object),
        !(x is Object),
        items.len() < u32::MAX,
    ensures
        typed_message(s, name, JsonV::Array(Seq::empty())) == Ok::<Seq<u8>, Fault>(Seq::empty()),
        match typed_message(s, name, JsonV::Array(items)) {
            Ok(d) => {
                let field = (items.len() + 1) as u32;
                match typed_field(s, field, x, kind_in(s, name, field)) {
                    Ok(e) => typed_message(s, name, JsonV::Array(items.push(x))) matches Ok(all)
                        && all == d + e,
                    Err(f) => typed_message(s, name, JsonV::Array(items.push(x))) == Err::<
                        Seq<u8>,
                        Fault,
                    >(f),
                }
            },
            Err(f) => typed_message(s, name, JsonV::Array(items.push(x))) == Err::<
                Seq<u8>,
                Fault,
            >(f),
        },
{
    let n = items.len() as int;
    let more = items.push(x);
    let none = Seq::<u8>::empty();
    assert(typed_message(s, name, JsonV::Array(Seq::empty())) == Ok::<Seq<u8>, Fault>(none)) by {
        assert(none + none =~= none);
    }
    lemma_prefix_same(s, name, items, more, n);
    assert(more[n] == x);
    assert(positional(more) == n + 1);
    assert(positional(items) == n);
    let p = typed_prefix(s, name, JsonV::Array(items), n);
    let q = typed_prefix(s, name, JsonV::Array(more), n + 1);
    if p is Ok {
        assert(p->Ok_0 + none =~= p->Ok_0);
    }
    if q is Ok {
        assert(q->Ok_0 + none =~= q->Ok_0);
    }
}

proof fn lemma_sparse_same(
    s: Table,
    name: Seq<char>,
    items: Seq<JsonV>,
    m: Seq<(Seq<char>, JsonV)>,
    e: (Seq<char>, JsonV),
    n: int,
)
    requires
        0 <= n <= m.len(),
    ensures
        typed_sparse(s, name, JsonV::Array(items.push(JsonV::Object(m.push(e)))), n) == typed_sparse(
            s,
            name,
            JsonV::Array(items.push(JsonV::Object(m))),
            n,
        ),
    decreases n,
{
    let a = items.push(JsonV::Object(m.push(e)));
    let b = items.push(JsonV::Object(m));
    assert(a[a.len() - 1] == JsonV::Object(m.push(e)));
    assert(b[b.len() - 1] == JsonV::Object(m));
    if n > 0 {
        lemma_sparse_same(s, name, items, m, e, n - 1);
        assert(m.push(e)[n - 1] == m[n - 1]);
    }
}

/// An object at the end of a message stands for the fields that its keys number: an empty one
/// adds nothing, and each further member adds behind what is there the wire form of its value,
/// in the field that its key numbers, of the kind that the schema declares for it. A null adds
/// nothing, and a key that is no number is refused.
pub proof fn law_each_member_is_a_field(
    s: Table,
    name: Seq<char>,
    items: Seq<JsonV>,
    m: Seq<(Seq<char>, JsonV)>,
    key: Seq<char>,
    x: JsonV,
)
    requires
        items.len() == 0 || !(items.last() is Object),
    ensures
        typed_message(
            s,
            name,
            JsonV::Array(items.push(JsonV::Object(Seq::empty()))),
        ) == typed_message(s, name, JsonV::Array(items)),
        match typed_message(s, name, JsonV::Array(items.push(JsonV::Object(m)))) {
            Ok(d) => {
                let all = typed_message(
                    s,
                    name,
                    JsonV::Array(items.push(JsonV::Object(m.push((key, x))))),
                );
                if x is Null {
                    all == Ok::<Seq<u8>, Fault>(d)
                } else {
                    match natural(key, u32::MAX as nat) {
                        Some(num) => match typed_field(
                            s,
                            num as u32,
                            x,
                            kind_in(s, name, num as u32),
                        ) {
                            Ok(e) => all is Ok && all->Ok_0 == d + e,
                            Err(f) => all == Err::<Seq<u8>, Fault>(f),
                        },
                        None => all == Err::<Seq<u8>, Fault>(Fault::InvalidFieldKey(key)),
                    }
                }
            },
            Err(_) => true,
        },
{
    let n = items.len() as int;
    let none = Seq::<u8>::empty();
    let zero = items.push(JsonV::Object(Seq::empty()));
    let a = items.push(JsonV::Object(m));
    let b = items.push(JsonV::Object(m.push((key, x))));
    lemma_prefix_same(s, name, items, zero, n);
    lemma_prefix_same(s, name, items, a, n);
    lemma_prefix_same(s, name, items, b, n);
    lemma_sparse_same(s, name, items, m, (key, x), m.len() as int);
    assert(zero.last() == JsonV::Object(Seq::empty()) && zero[n] == zero.last());
    assert(a.last() == JsonV::Object(m) && a[n] == a.last());
    assert(b.last() == JsonV::Object(m.push((key, x))) && b[n] == b.last());
    assert(positional(items) == n);
    assert(positional(zero) == n);
    assert(positional(a) == n);
    assert(positional(b) == n);
    assert(m.push((key, x))[m.len() as int] == (key, x));
    let p = typed_prefix(s, name, JsonV::Array(items), n);
    let q = typed_sparse(s, name, JsonV::Array(a), m.len() as int);
    let r = typed_sparse(s, name, JsonV::Array(b), (m.len() + 1) as int);
    if p is Ok {
        assert(p->Ok_0 + none =~= p->Ok_0);
        if q is Ok {
            assert(q->Ok_0 + none =~= q->Ok_0);
            if r is Ok {
                let e = typed_field(
                    s,
                    natural(key, u32::MAX as nat)->0 as u32,
                    x,
                    kind_in(s, name, natural(key, u32::MAX as nat)->0 as u32),
                );
                if !(x is Null) {
                    assert(p->Ok_0 + (q->Ok_0 + e->Ok_0) =~= (p->Ok_0 + q->Ok_0) + e->Ok_0);
                }
            }
        }
    }
}

/// A message is a list or null: null has an empty wire form, and all else is refused.
pub proof fn law_a_message_is_a_list(s: Table, name: Seq<char>, v: JsonV)
    ensures
        v is Null ==> typed_message(s, name, v) == Ok::<Seq<u8>, Fault>(Seq::empty()),
        !(v is Null || v is Array) ==> typed_message(s, name, v) == Err::<Seq<u8>, Fault>(
            Fault::ExpectedArray,
        ),
        v is Null ==> message_bytes(v) == Ok::<Seq<u8>, Fault>(Seq::empty()),
        !(v is Null || v is Array) ==> message_bytes(v) is Err,
{
}

} // verus!
