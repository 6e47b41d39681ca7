//! The conversion of pblite messages to the wire format with a schema, which
//! tells strings of digits from integers and messages from lists.
use vstd::prelude::*;
use vstd::utf8::encode_utf8;

use crate::error::{Fault, PbliteError};
use crate::googlechat::pblite::{
    base64_bytes, decode_base64, encode_field, field_bytes, in_field, message_bytes, no_integer,
    positional, prefix_bytes, sparse_bytes, then_bytes, wrote,
};
use crate::googlechat::schema::{FieldKind, FieldType, ProtoSchema, Table};
use crate::googlechat::wire::{
    buffer_slice, buffered, contents, freeze, int_field, len_field, new_buffer, tag, write_int,
    write_len, write_tag, WIRE_VARINT,
};
use crate::json::{jsons, lemma_array_view, lemma_object_view, members, Json, JsonV};
use crate::text::{self, integer, natural};

verus! {

broadcast use {vstd::string::group_string_axioms, lemma_array_view, lemma_object_view};

/// What the schema says of a field.
pub open spec fn kind_in(s: Table, message: Seq<char>, field: u32) -> Option<FieldKind> {
    if s.dom().contains((message, field)) {
        Some(s[(message, field)])
    } else {
        None
    }
}

/// The wire form of the message `v`, of the type `name`: its positional fields,
/// then those of the object at its end.
pub open spec fn typed_message(s: Table, name: Seq<char>, v: JsonV) -> Result<Seq<u8>, Fault>
    decreases v, 2nat, 0int,
{
    match v {
        JsonV::Array(items) => then_bytes(
            typed_prefix(s, name, v, positional(items)),
            if positional(items) < items.len() {
                typed_sparse(s, name, v, items.last()->Object_0.len() as int)
            } else {
                Ok(Seq::empty())
            },
        ),
        JsonV::Null => Ok(Seq::empty()),
        _ => Err(Fault::ExpectedArray),
    }
}

/// The wire form of the first `n` positional fields of `v`.
pub open spec fn typed_prefix(s: Table, name: Seq<char>, v: JsonV, n: int) -> Result<Seq<u8>, Fault>
    decreases v, 1nat, n,
{
    match v {
        JsonV::Array(items) => if 0 < n <= items.len() {
            then_bytes(
                typed_prefix(s, name, v, n - 1),
                typed_field(s, n as u32, items[n - 1], kind_in(s, name, n as u32)),
            )
        } else {
            Ok(Seq::empty())
        },
        _ => Ok(Seq::empty()),
    }
}

/// The wire form of the first `n` fields in the object at the end of `v`.
pub open spec fn typed_sparse(s: Table, name: Seq<char>, v: JsonV, n: int) -> Result<Seq<u8>, Fault>
    decreases v, 1nat, n,
{
    match v {
        JsonV::Array(items) => if items.len() > 0 {
            match items[items.len() - 1] {
                JsonV::Object(m) => if 0 < n <= m.len() {
                    then_bytes(
                        typed_sparse(s, name, v, n - 1),
                        if m[n - 1].1 is Null {
                            Ok(Seq::empty())
                        } else {
                            match natural(m[n - 1].0, u32::MAX as nat) {
                                Some(num) => typed_field(
                                    s,
                                    num as u32,
                                    m[n - 1].1,
                                    kind_in(s, name, num as u32),
                                ),
                                None => Err(Fault::InvalidFieldKey(m[n - 1].0)),
                            }
                        },
                    )
                } else {
                    Ok(Seq::empty())
                },
                _ => Ok(Seq::empty()),
            }
        } else {
            Ok(Seq::empty())
        },
        _ => Ok(Seq::empty()),
    }
}

/// The wire form of the first `n` items of `v`, each but the nulls a message of
/// the type `child` in a field of its own.
pub open spec fn typed_repeated(
    s: Table,
    field: u32,
    child: Seq<char>,
    v: JsonV,
    n: int,
) -> Result<Seq<u8>, Fault>
    decreases v, 1nat, n,
{
    match v {
        JsonV::Array(items) => if 0 < n <= items.len() {
            then_bytes(
                typed_repeated(s, field, child, v, n - 1),
                if items[n - 1] is Null {
                    Ok(Seq::empty())
                } else {
                    in_field(field, typed_message(s, child, items[n - 1]))
                },
            )
        } else {
            Ok(Seq::empty())
        },
        _ => Ok(Seq::empty()),
    }
}

/// An item of a repeated integer. One that holds no integer leaves its tag alone.
pub open spec fn integer_item(field: u32, v: JsonV) -> Seq<u8> {
    match v {
        JsonV::Null => Seq::empty(),
        JsonV::Pos(n) => int_field(field, n),
        JsonV::Neg(n) => int_field(field, n as u64),
        JsonV::Text(t) => match integer(t) {
            Some(n) => int_field(field, n as u64),
            None => tag(field, 0),
        },
        _ => tag(field, 0),
    }
}

/// An item of a repeated string. One that is no string is left out.
pub open spec fn string_item(field: u32, v: JsonV) -> Seq<u8> {
    match v {
        JsonV::Text(t) => len_field(field, encode_utf8(t)),
        _ => Seq::empty(),
    }
}

pub open spec fn integer_items(field: u32, items: Seq<JsonV>) -> Seq<u8>
    decreases items.len(),
{
    if items.len() == 0 {
        Seq::empty()
    } else {
        integer_items(field, items.drop_last()) + integer_item(field, items.last())
    }
}

pub open spec fn string_items(field: u32, items: Seq<JsonV>) -> Seq<u8>
    decreases items.len(),
{
    if items.len() == 0 {
        Seq::empty()
    } else {
        string_items(field, items.drop_last()) + string_item(field, items.last())
    }
}

/// The bytes that a base64 string stands for, its own where it is none.
pub open spec fn bytes_payload(t: Seq<char>) -> Seq<u8> {
    match base64_bytes(t) {
        Ok(d) => d,
        Err(_) => encode_utf8(t),
    }
}

/// The wire form of a field of the given kind. Where the kind is not known, or
/// the value does not fit it, the kind is guessed from the value.
pub open spec fn typed_field(s: Table, field: u32, v: JsonV, kind: Option<FieldKind>) -> Result<
    Seq<u8>,
    Fault,
>
    decreases v, 3nat, 0int,
{
    match v {
        JsonV::Null => Ok(Seq::empty()),
        JsonV::Text(t) => match kind {
            Some(FieldKind::Varint) | Some(FieldKind::Enum) => match integer(t) {
                Some(n) => Ok(int_field(field, n as u64)),
                None => Ok(len_field(field, encode_utf8(t))),
            },
            Some(FieldKind::Bool) => Ok(
                int_field(
                    field,
                    if t == "1"@ || t == "true"@ {
                        1
                    } else {
                        0
                    },
                ),
            ),
            Some(FieldKind::Bytes) => Ok(len_field(field, bytes_payload(t))),
            Some(FieldKind::String) | Some(FieldKind::RepeatedString) => Ok(
                len_field(field, encode_utf8(t)),
            ),
            _ => field_bytes(field, v),
        },
        JsonV::Pos(n) => Ok(int_field(field, n)),
        JsonV::Neg(n) => Ok(int_field(field, n as u64)),
        JsonV::Float(_) => Err(no_integer(field)),
        JsonV::Bool(b) => Ok(int_field(field, if b { 1 } else { 0 })),
        JsonV::Array(items) => match kind {
            Some(FieldKind::RepeatedMessage(child)) => typed_repeated(
                s,
                field,
                child,
                v,
                items.len() as int,
            ),
            Some(FieldKind::RepeatedVarint) => Ok(integer_items(field, items)),
            Some(FieldKind::RepeatedString) => Ok(string_items(field, items)),
            Some(FieldKind::Message(child)) => in_field(field, typed_message(s, child, v)),
            _ => field_bytes(field, v),
        },
        JsonV::Object(_) => match kind {
            Some(FieldKind::Message(child)) => in_field(field, typed_message(s, child, v)),
            _ => field_bytes(field, v),
        },
    }
}

proof fn lemma_prefix_error(s: Table, name: Seq<char>, v: JsonV, i: int, n: int)
    requires
        v is Array,
        0 <= i <= n <= v->Array_0.len(),
        typed_prefix(s, name, v, i) is Err,
    ensures
        typed_prefix(s, name, v, n) == typed_prefix(s, name, v, i),
    decreases n - i,
{
    if i < n {
        lemma_prefix_error(s, name, v, i, n - 1);
    }
}

proof fn lemma_sparse_error(s: Table, name: Seq<char>, v: JsonV, i: int, n: int)
    requires
        v is Array,
        v->Array_0.len() > 0,
        v->Array_0.last() is Object,
        0 <= i <= n <= v->Array_0.last()->Object_0.len(),
        typed_sparse(s, name, v, i) is Err,
    ensures
        typed_sparse(s, name, v, n) == typed_sparse(s, name, v, i),
    decreases n - i,
{
    if i < n {
        lemma_sparse_error(s, name, v, i, n - 1);
    }
}

proof fn lemma_repeated_error(s: Table, field: u32, child: Seq<char>, v: JsonV, i: int, n: int)
    requires
        v is Array,
        0 <= i <= n <= v->Array_0.len(),
        typed_repeated(s, field, child, v, i) is Err,
    ensures
        typed_repeated(s, field, child, v, n) == typed_repeated(s, field, child, v, i),
    decreases n - i,
{
    if i < n {
        lemma_repeated_error(s, field, child, v, i, n - 1);
    }
}

pub open spec fn kind_opt(t: Option<&FieldType>) -> Option<FieldKind> {
    match t {
        Some(k) => Some(k@),
        None => None,
    }
}

fn encode_message_typed(
    buf: &mut bytes::BytesMut,
    value: &Json,
    schema: &ProtoSchema,
    message_name: &str,
) -> (r: Result<(), PbliteError>)
    ensures
        wrote(
            typed_message(schema@, message_name@, value@),
            r,
            buffered(*old(buf)),
            buffered(*final(buf)),
        ),
    decreases value, 2nat,
{
    let ghost s = schema@;
    let ghost name = message_name@;
    match value {
        Json::Array(arr) => {
            let n: usize = arr.len();
            let ghost items = jsons(arr@);
            proof {
                assert(value@ == JsonV::Array(items));
            }
            let has_sparse = n > 0 && matches!(arr[n - 1], Json::Object(_));
            let count: usize = if has_sparse {
                n - 1
            } else {
                n
            };
            proof {
                if n > 0 {
                    assert(items.last() == arr@[n - 1]@);
                }
                assert(positional(items) == count);
            }
            let mut index: usize = 0;
            while index < count
                invariant
                    index <= count <= n == arr@.len(),
                    *value == Json::Array(*arr),
                    items == jsons(arr@),
                    value@ == JsonV::Array(items),
                    positional(items) == count,
                    s == schema@,
                    name == message_name@,
                    typed_prefix(s, name, value@, index as int) matches Ok(d) && buffered(*buf)
                        == buffered(*old(buf)) + d,
                decreases count - index,
            {
                let ghost d = typed_prefix(s, name, value@, index as int)->Ok_0;
                let field_number: u32 = (index + 1) as u32;
                proof {
                    assert(items[index as int] == arr@[index as int]@);
                    assert(decreases_to!(*value => value->Array_0));
                    assert(decreases_to!(*arr => arr@));
                    assert(decreases_to!(arr@ => arr@[index as int]));
                    assert(typed_prefix(s, name, value@, index + 1) == then_bytes(
                        typed_prefix(s, name, value@, index as int),
                        typed_field(
                            s,
                            field_number,
                            items[index as int],
                            kind_in(s, name, field_number),
                        ),
                    ));
                }
                let kind = schema.field_type(message_name, field_number);
                let r = encode_field_typed(buf, field_number, &arr[index], schema, kind);
                if r.is_err() {
                    proof {
                        lemma_prefix_error(s, name, value@, index + 1, count as int);
                    }
                    return r;
                }
                proof {
                    let e = typed_field(
                        s,
                        field_number,
                        items[index as int],
                        kind_in(s, name, field_number),
                    )->Ok_0;
                    assert(buffered(*buf) =~= buffered(*old(buf)) + (d + e));
                }
                index += 1;
            }
            if has_sparse {
                let ghost base = buffered(*buf);
                let ghost first = typed_prefix(s, name, value@, count as int)->Ok_0;
                match &arr[n - 1] {
                    Json::Object(m) => {
                        let ghost mv = members(m@);
                        let mut k: usize = 0;
                        proof {
                            assert(items[n - 1] == JsonV::Object(mv));
                            assert(base =~= base + Seq::<u8>::empty());
                        }
                        while k < m.len()
                            invariant
                                k <= m@.len(),
                                count + 1 == n == arr@.len(),
                                *value == Json::Array(*arr),
                                items == jsons(arr@),
                                value@ == JsonV::Array(items),
                                positional(items) == count,
                                arr@[n - 1] == Json::Object(*m),
                                mv == members(m@),
                                items[n - 1] == JsonV::Object(mv),
                                s == schema@,
                                name == message_name@,
                                typed_prefix(s, name, value@, count as int) == Ok::<Seq<u8>, Fault>(
                                    first,
                                ),
                                base == buffered(*old(buf)) + first,
                                typed_sparse(s, name, value@, k as int) matches Ok(d) && buffered(
                                    *buf,
                                ) == base + d,
                            decreases m@.len() - k,
                        {
                            let ghost d = typed_sparse(s, name, value@, k as int)->Ok_0;
                            let key = &m[k].0;
                            let val = &m[k].1;
                            proof {
                                assert(mv[k as int] == (key@, val@));
                                assert(decreases_to!(*value => value->Array_0));
                                assert(decreases_to!(*arr => arr@));
                                assert(decreases_to!(arr@ => arr@[n - 1]));
                                assert(decreases_to!(arr@[n - 1] => arr@[n - 1]->Object_0));
                                assert(decreases_to!(*m => m@));
                                assert(decreases_to!(m@ => m@[k as int]));
                                assert(decreases_to!(m@[k as int] => m@[k as int].1));
                            }
                            if val.is_null() {
                                k += 1;
                                proof {
                                    assert(d + Seq::<u8>::empty() =~= d);
                                }
                                continue ;
                            }
                            match text::parse_u32(key.as_str()) {
                                Some(num) => {
                                    let kind = schema.field_type(message_name, num);
                                    let r = encode_field_typed(buf, num, val, schema, kind);
                                    if r.is_err() {
                                        proof {
                                            lemma_sparse_error(
                                                s,
                                                name,
                                                value@,
                                                k + 1,
                                                mv.len() as int,
                                            );
                                        }
                                        return r;
                                    }
                                    proof {
                                        let e = typed_field(
                                            s,
                                            num,
                                            val@,
                                            kind_in(s, name, num),
                                        )->Ok_0;
                                        assert(buffered(*buf) =~= base + (d + e));
                                    }
                                },
                                None => {
                                    proof {
                                        lemma_sparse_error(s, name, value@, k + 1, mv.len() as int);
                                    }
                                    return Err(PbliteError::InvalidFieldKey(key.clone()));
                                },
                            }
                            k += 1;
                        }
                        proof {
                            let d = typed_sparse(s, name, value@, mv.len() as int)->Ok_0;
                            assert(buffered(*buf) =~= buffered(*old(buf)) + (first + d));
                        }
                    },
                    _ => {},
                }
            } else {
                proof {
                    let first = typed_prefix(s, name, value@, count as int)->Ok_0;
                    assert(first + Seq::<u8>::empty() =~= first);
                }
            }
            Ok(())
        },
        Json::Null => {
            proof {
                assert(buffered(*buf) =~= buffered(*old(buf)) + Seq::<u8>::empty());
            }
            Ok(())
        },
        _ => Err(PbliteError::ExpectedArray),
    }
}

/// Puts the message `value`, of the type `child`, into a field.
fn encode_nested_typed(
    buf: &mut bytes::BytesMut,
    field_number: u32,
    value: &Json,
    schema: &ProtoSchema,
    child: &str,
) -> (r: Result<(), PbliteError>)
    ensures
        wrote(
            in_field(field_number, typed_message(schema@, child@, value@)),
            r,
            buffered(*old(buf)),
            buffered(*final(buf)),
        ),
    decreases value, 3nat,
{
    let mut sub = new_buffer(0);
    let r = encode_message_typed(&mut sub, value, schema, child);
    if r.is_err() {
        return r;
    }
    proof {
        assert(buffered(sub) =~= typed_message(schema@, child@, value@)->Ok_0);
    }
    write_len(buf, field_number, buffer_slice(&sub));
    Ok(())
}

/// Writes the items of a repeated integer.
fn encode_integers(buf: &mut bytes::BytesMut, field_number: u32, arr: &Vec<Json>)
    ensures
        buffered(*final(buf)) == buffered(*old(buf)) + integer_items(field_number, jsons(arr@)),
{
    let ghost items = jsons(arr@);
    let mut i: usize = 0;
    proof {
        assert(items.take(0) =~= Seq::<JsonV>::empty());
        assert(buffered(*buf) =~= buffered(*old(buf)) + Seq::<u8>::empty());
    }
    while i < arr.len()
        invariant
            i <= arr@.len(),
            items == jsons(arr@),
            buffered(*buf) == buffered(*old(buf)) + integer_items(
                field_number,
                items.take(i as int),
            ),
        decreases arr@.len() - i,
    {
        let ghost before = buffered(*buf);
        proof {
            assert(items[i as int] == arr@[i as int]@);
            assert(items.take(i + 1).drop_last() =~= items.take(i as int));
        }
        match &arr[i] {
            Json::Null => {},
            Json::Pos(n) => write_int(buf, field_number, *n),
            Json::Neg(n) => write_int(buf, field_number, *n as u64),
            Json::Text(t) => {
                match text::parse_i64(t.as_str()) {
                    Some(n) => write_int(buf, field_number, n as u64),
                    None => write_tag(buf, field_number, WIRE_VARINT),
                }
            },
            _ => write_tag(buf, field_number, WIRE_VARINT),
        }
        proof {
            assert(buffered(*buf) =~= before + integer_item(field_number, items[i as int]));
            assert(buffered(*buf) =~= buffered(*old(buf)) + integer_items(
                field_number,
                items.take(i + 1),
            ));
        }
        i += 1;
    }
    proof {
        assert(items.take(items.len() as int) =~= items);
    }
}

/// Writes the items of a repeated string.
fn encode_strings(buf: &mut bytes::BytesMut, field_number: u32, arr: &Vec<Json>)
    ensures
        buffered(*final(buf)) == buffered(*old(buf)) + string_items(field_number, jsons(arr@)),
{
    let ghost items = jsons(arr@);
    let mut i: usize = 0;
    proof {
        assert(items.take(0) =~= Seq::<JsonV>::empty());
        assert(buffered(*buf) =~= buffered(*old(buf)) + Seq::<u8>::empty());
    }
    while i < arr.len()
        invariant
            i <= arr@.len(),
            items == jsons(arr@),
            buffered(*buf) == buffered(*old(buf)) + string_items(field_number, items.take(i as int)),
        decreases arr@.len() - i,
    {
        let ghost before = buffered(*buf);
        proof {
            assert(items[i as int] == arr@[i as int]@);
            assert(items.take(i + 1).drop_last() =~= items.take(i as int));
        }
        if let Json::Text(t) = &arr[i] {
            write_len(buf, field_number, t.as_str().as_bytes());
        }
        proof {
            assert(buffered(*buf) =~= before + string_item(field_number, items[i as int]));
            assert(buffered(*buf) =~= buffered(*old(buf)) + string_items(
                field_number,
                items.take(i + 1),
            ));
        }
        i += 1;
    }
    proof {
        assert(items.take(items.len() as int) =~= items);
    }
}

fn encode_field_typed(
    buf: &mut bytes::BytesMut,
    field_number: u32,
    value: &Json,
    schema: &ProtoSchema,
    field_type: Option<&FieldType>,
) -> (r: Result<(), PbliteError>)
    ensures
        wrote(
            typed_field(schema@, field_number, value@, kind_opt(field_type)),
            r,
            buffered(*old(buf)),
            buffered(*final(buf)),
        ),
    decreases value, 4nat,
{
    match value {
        Json::Null => {
            proof {
                assert(buffered(*buf) =~= buffered(*old(buf)) + Seq::<u8>::empty());
            }
            Ok(())
        },
        Json::Text(s) => {
            match field_type {
                Some(FieldType::Varint) | Some(FieldType::Enum) => {
                    match text::parse_i64(s.as_str()) {
                        Some(v) => write_int(buf, field_number, v as u64),
                        None => write_len(buf, field_number, s.as_str().as_bytes()),
                    }
                    Ok(())
                },
                Some(FieldType::Bool) => {
                    let v: u64 = if text::same(s.as_str(), "1") || text::same(s.as_str(), "true") {
                        1
                    } else {
                        0
                    };
                    write_int(buf, field_number, v);
                    Ok(())
                },
                Some(FieldType::Bytes) => {
                    match decode_base64(s.as_str()) {
                        Ok(raw) => write_len(buf, field_number, raw.as_slice()),
                        Err(_) => write_len(buf, field_number, s.as_str().as_bytes()),
                    }
                    Ok(())
                },
                Some(FieldType::String) | Some(FieldType::RepeatedString) => {
                    write_len(buf, field_number, s.as_str().as_bytes());
                    Ok(())
                },
                _ => encode_field(buf, field_number, value),
            }
        },
        Json::Pos(n) => {
            write_int(buf, field_number, *n);
            Ok(())
        },
        Json::Neg(n) => {
            write_int(buf, field_number, *n as u64);
            Ok(())
        },
        Json::Float(_) => {
            Err(
                PbliteError::UnexpectedType {
                    field: field_number,
                    detail: "floating point number".to_owned(),
                },
            )
        },
        Json::Bool(b) => {
            write_int(
                buf,
                field_number,
                if *b {
                    1
                } else {
                    0
                },
            );
            Ok(())
        },
        Json::Array(arr) => {
            match field_type {
                Some(FieldType::RepeatedMessage(child)) => {
                    let ghost s = schema@;
                    let ghost items = jsons(arr@);
                    let ghost c = child@;
                    let mut k: usize = 0;
                    proof {
                        assert(buffered(*buf) =~= buffered(*old(buf)) + Seq::<u8>::empty());
                    }
                    while k < arr.len()
                        invariant
                            k <= arr@.len(),
                            *value == Json::Array(*arr),
                            items == jsons(arr@),
                            value@ == JsonV::Array(items),
                            s == schema@,
                            c == child@,
                            typed_field(s, field_number, value@, kind_opt(field_type))
                                == typed_repeated(s, field_number, c, value@, items.len() as int),
                            typed_repeated(s, field_number, c, value@, k as int) matches Ok(d)
                                && buffered(*buf) == buffered(*old(buf)) + d,
                        decreases arr@.len() - k,
                    {
                        let ghost d = typed_repeated(s, field_number, c, value@, k as int)->Ok_0;
                        proof {
                            assert(items[k as int] == arr@[k as int]@);
                            assert(decreases_to!(*value => value->Array_0));
                            assert(decreases_to!(*arr => arr@));
                            assert(decreases_to!(arr@ => arr@[k as int]));
                        }
                        if !arr[k].is_null() {
                            let r = encode_nested_typed(
                                buf,
                                field_number,
                                &arr[k],
                                schema,
                                child.as_str(),
                            );
                            if r.is_err() {
                                proof {
                                    lemma_repeated_error(
                                        s,
                                        field_number,
                                        c,
                                        value@,
                                        k + 1,
                                        items.len() as int,
                                    );
                                }
                                return r;
                            }
                            proof {
                                let e = in_field(
                                    field_number,
                                    typed_message(s, c, items[k as int]),
                                )->Ok_0;
                                assert(buffered(*buf) =~= buffered(*old(buf)) + (d + e));
                            }
                        } else {
                            proof {
                                assert(d + Seq::<u8>::empty() =~= d);
                            }
                        }
                        k += 1;
                    }
                    Ok(())
                },
                Some(FieldType::RepeatedVarint) => {
                    encode_integers(buf, field_number, arr);
                    Ok(())
                },
                Some(FieldType::RepeatedString) => {
                    encode_strings(buf, field_number, arr);
                    Ok(())
                },
                Some(FieldType::Message(child)) => encode_nested_typed(
                    buf,
                    field_number,
                    value,
                    schema,
                    child.as_str(),
                ),
                _ => encode_field(buf, field_number, value),
            }
        },
        Json::Object(_) => {
            match field_type {
                Some(FieldType::Message(child)) => encode_nested_typed(
                    buf,
                    field_number,
                    value,
                    schema,
                    child.as_str(),
                ),
                _ => encode_field(buf, field_number, value),
            }
        },
    }
}

/// The wire form of a pblite message of the type `message_name`.
pub fn pblite_to_wire_typed(value: &Json, schema: &ProtoSchema, message_name: &str) -> (r: Result<
    bytes::Bytes,
    PbliteError,
>)
    ensures
        match typed_message(schema@, message_name@, value@) {
            Ok(d) => r matches Ok(b) && contents(b) == d,
            Err(f) => r matches Err(e) && e@ == f,
        },
{
    let mut buf = new_buffer(256);
    match encode_message_typed(&mut buf, value, schema, message_name) {
        Ok(()) => {
            proof {
                assert(buffered(buf) =~= typed_message(schema@, message_name@, value@)->Ok_0);
            }
            Ok(freeze(buf))
        },
        Err(e) => Err(e),
    }
}

proof fn lemma_guessed_field(s: Table, field: u32, v: JsonV)
    ensures
        typed_field(s, field, v, None) == field_bytes(field, v),
{
    match v {
        JsonV::Null => {},
        JsonV::Text(_) => {},
        JsonV::Pos(_) => {},
        JsonV::Neg(_) => {},
        JsonV::Float(_) => {},
        JsonV::Bool(_) => {},
        JsonV::Array(_) => {},
        JsonV::Object(_) => {},
    }
}

proof fn lemma_guessed_prefix(name: Seq<char>, v: JsonV, n: int)
    ensures
        typed_prefix(Map::empty(), name, v, n) == prefix_bytes(v, n),
    decreases n,
{
    match v {
        JsonV::Array(items) => if 0 < n <= items.len() {
            lemma_guessed_prefix(name, v, n - 1);
            assert(kind_in(Map::empty(), name, n as u32) is None);
            lemma_guessed_field(Map::empty(), n as u32, items[n - 1]);
        },
        _ => {},
    }
}

proof fn lemma_guessed_sparse(name: Seq<char>, v: JsonV, n: int)
    ensures
        typed_sparse(Map::empty(), name, v, n) == sparse_bytes(v, n),
    decreases n,
{
    match v {
        JsonV::Array(items) => if items.len() > 0 {
            match items[items.len() - 1] {
                JsonV::Object(m) => if 0 < n <= m.len() {
                    lemma_guessed_sparse(name, v, n - 1);
                    match natural(m[n - 1].0, u32::MAX as nat) {
                        Some(num) => {
                            assert(kind_in(Map::empty(), name, num as u32) is None);
                            lemma_guessed_field(Map::empty(), num as u32, m[n - 1].1);
                        },
                        None => {},
                    }
                },
                _ => {},
            }
        },
        _ => {},
    }
}

/// A schema that declares nothing leaves every kind to be guessed: the wire form is
/// that of the conversion without a schema.
pub proof fn law_empty_schema_guesses(name: Seq<char>, v: JsonV)
    ensures
        typed_message(Map::empty(), name, v) == message_bytes(v),
{
    match v {
        JsonV::Array(items) => {
            lemma_guessed_prefix(name, v, positional(items));
            if positional(items) < items.len() {
                lemma_guessed_sparse(name, v, items.last()->Object_0.len() as int);
            }
        },
        _ => {},
    }
}

} // verus!
