//! Pblite: protobuf messages written as JSON arrays.
//!
//! The item at index `n` of the array is the field with number `n + 1`, and null
//! stands for a field that is absent. High field numbers can stand in an object
//! at the end of the array, keyed by the number.
//!
//! Messages are converted between pblite and the protobuf wire format. Without
//! a schema the kind of a field is guessed from its value.
use vstd::prelude::*;
use vstd::utf8::{decode_utf8, encode_utf8, valid_utf8};
use vstd::slice::slice_subrange;

use crate::error::{Fault, PbliteError};
use crate::googlechat::wire::{
    buffer_slice, buffered, contents, freeze, int_field, len_field, lemma_read_len, new_buffer,
    read, varint_at, write_int, write_len,
};
use crate::json::{jsons, lemma_array_view, lemma_object_view, members, Json, JsonV};
use crate::text::{self, decimal, integer, natural};

verus! {

broadcast use {vstd::string::group_string_axioms, lemma_array_view, lemma_object_view};

// ───────────────────────── outside conversions ─────────────────────────

/// The bytes that a base64 text stands for, or the message of the decoder that
/// refuses the text.
pub uninterp spec fn base64_bytes(s: Seq<char>) -> Result<Seq<u8>, Seq<char>>;

/// The base64 text of a run of bytes, with padding.
pub uninterp spec fn base64_text(data: Seq<u8>) -> Seq<char>;

/// `Engine::decode` of base64's `STANDARD` engine, its error as text.
#[verifier::external_body]
pub(crate) fn decode_base64(s: &str) -> (r: Result<Vec<u8>, String>)
    ensures
        match r {
            Ok(d) => base64_bytes(s@) == Ok::<Seq<u8>, Seq<char>>(d@),
            Err(e) => base64_bytes(s@) == Err::<Seq<u8>, Seq<char>>(e@),
        },
{
    base64::Engine::decode(&base64::engine::general_purpose::STANDARD, s).map_err(|e| e.to_string())
}

/// `Engine::encode` of base64's `STANDARD` engine. The text decodes to the bytes.
#[verifier::external_body]
pub(crate) fn encode_base64(data: &[u8]) -> (r: String)
    ensures
        r@ == base64_text(data@) && base64_bytes(r@) is Ok && base64_bytes(r@)->Ok_0 == data@,
{
    base64::Engine::encode(&base64::engine::general_purpose::STANDARD, data)
}

/// The message of the error for bytes that are no UTF-8.
pub uninterp spec fn utf8_fault(data: Seq<u8>) -> Seq<char>;

/// `std::str::from_utf8`: the text whose UTF-8 form the bytes are, or the message
/// of the error.
#[verifier::external_body]
pub(crate) fn utf8_text(data: &[u8]) -> (r: Result<String, String>)
    ensures
        match r {
            Ok(s) => valid_utf8(data@) && s@ == decode_utf8(data@),
            Err(e) => !valid_utf8(data@) && e@ == utf8_fault(data@),
        },
{
    std::str::from_utf8(data).map(|s| s.to_owned()).map_err(|e| e.to_string())
}

// ───────────────────────── pblite to wire ─────────────────────────

/// Digits, with an optional minus sign before them.
pub open spec fn numeric(s: Seq<char>) -> bool {
    ||| s.len() > 0 && text::all_digits(s)
    ||| s.len() > 1 && s[0] == '-' && text::all_digits(s.drop_first())
}

/// The characters that base64 text is made of.
pub open spec fn base64_char(c: char) -> bool {
    'A' <= c <= 'Z' || 'a' <= c <= 'z' || '0' <= c <= '9' || c == '+' || c == '/' || c == '='
}

/// Base64 characters alone, and either padding at the end or a length of at
/// least 24.
pub open spec fn base64_like(s: Seq<char>) -> bool {
    &&& forall|i: int| 0 <= i < s.len() ==> base64_char(#[trigger] s[i])
    &&& (s.len() > 0 && s.last() == '=') || s.len() >= 24
}

/// The bytes that a string field holds: those that the string stands for in
/// base64 where it looks like base64 of something that is no text, else its
/// own.
pub open spec fn string_payload(s: Seq<char>) -> Seq<u8> {
    match base64_bytes(s) {
        Ok(d) => if base64_like(s) && !valid_utf8(d) {
            d
        } else {
            encode_utf8(s)
        },
        Err(_) => encode_utf8(s),
    }
}

/// The number of items before the object at the end, if there is one.
pub open spec fn positional(items: Seq<JsonV>) -> int {
    if items.len() > 0 && items.last() is Object {
        items.len() - 1
    } else {
        items.len() as int
    }
}

pub open spec fn all_null(items: Seq<JsonV>) -> bool {
    forall|i: int| 0 <= i < items.len() ==> #[trigger] items[i] is Null
}

pub open spec fn all_arrays(items: Seq<JsonV>) -> bool {
    forall|i: int| 0 <= i < items.len() ==> #[trigger] items[i] is Array
}

/// The message that a number that is no integer is refused with.
pub open spec fn no_integer(field: u32) -> Fault {
    Fault::UnexpectedType { field, detail: "floating point number"@ }
}

/// Two outcomes one after the other: the first error, or both runs of bytes.
pub open spec fn then_bytes(
    a: Result<Seq<u8>, Fault>,
    b: Result<Seq<u8>, Fault>,
) -> Result<Seq<u8>, Fault> {
    match a {
        Ok(x) => match b {
            Ok(y) => Ok(x + y),
            Err(f) => Err(f),
        },
        Err(f) => Err(f),
    }
}

/// A message put into a field.
pub open spec fn in_field(field: u32, m: Result<Seq<u8>, Fault>) -> Result<Seq<u8>, Fault> {
    match m {
        Ok(d) => Ok(len_field(field, d)),
        Err(f) => Err(f),
    }
}

/// The wire form of a message: its positional fields, then those of the object
/// at its end.
pub open spec fn message_bytes(v: JsonV) -> Result<Seq<u8>, Fault>
    decreases v, 2nat, 0int,
{
    match v {
        JsonV::Array(items) => then_bytes(
            prefix_bytes(v, positional(items)),
            if positional(items) < items.len() {
                sparse_bytes(v, items.last()->Object_0.len() as int)
            } else {
                Ok(Seq::empty())
            },
        ),
        JsonV::Null => Ok(Seq::empty()),
        _ => Err(Fault::ExpectedArray),
    }
}

/// The wire form of the first `n` positional fields of the message `v`.
pub open spec fn prefix_bytes(v: JsonV, n: int) -> Result<Seq<u8>, Fault>
    decreases v, 1nat, n,
{
    match v {
        JsonV::Array(items) => if 0 < n <= items.len() {
            then_bytes(prefix_bytes(v, n - 1), field_bytes(n as u32, items[n - 1]))
        } else {
            Ok(Seq::empty())
        },
        _ => Ok(Seq::empty()),
    }
}

/// The wire form of the first `n` fields in the object at the end of `v`.
pub open spec fn sparse_bytes(v: JsonV, n: int) -> Result<Seq<u8>, Fault>
    decreases v, 1nat, n,
{
    match v {
        JsonV::Array(items) => if items.len() > 0 {
            match items[items.len() - 1] {
                JsonV::Object(m) => if 0 < n <= m.len() {
                    then_bytes(
                        sparse_bytes(v, n - 1),
                        if m[n - 1].1 is Null {
                            Ok(Seq::empty())
                        } else {
                            match natural(m[n - 1].0, u32::MAX as nat) {
                                Some(num) => field_bytes(num as u32, m[n - 1].1),
                                None => Err(Fault::InvalidFieldKey(m[n - 1].0)),
                            }
                        },
                    )
                } else {
                    Ok(Seq::empty())
                },
                _ => Ok(Seq::empty()),
            }
        } else {
            Ok(Seq::empty())
        },
        _ => Ok(Seq::empty()),
    }
}

/// The wire form of the first `n` items of `v`, each a message in a field of its
/// own.
pub open spec fn repeated_bytes(field: u32, v: JsonV, n: int) -> Result<Seq<u8>, Fault>
    decreases v, 1nat, n,
{
    match v {
        JsonV::Array(items) => if 0 < n <= items.len() {
            then_bytes(
                repeated_bytes(field, v, n - 1),
                in_field(field, message_bytes(items[n - 1])),
            )
        } else {
            Ok(Seq::empty())
        },
        _ => Ok(Seq::empty()),
    }
}

/// The wire form of a field, its kind guessed from its value. A string of digits
/// is an integer. An array of several arrays and nothing else is a repeated
/// message, one of nulls is no field, and any other is a message.
pub open spec fn field_bytes(field: u32, v: JsonV) -> Result<Seq<u8>, Fault>
    decreases v, 3nat, 0int,
{
    match v {
        JsonV::Null => Ok(Seq::empty()),
        JsonV::Text(s) => if numeric(s) && integer(s) is Some {
            Ok(int_field(field, integer(s)->0 as u64))
        } else {
            Ok(len_field(field, string_payload(s)))
        },
        JsonV::Pos(n) => Ok(int_field(field, n)),
        JsonV::Neg(n) => Ok(int_field(field, n as u64)),
        JsonV::Float(_) => Err(no_integer(field)),
        JsonV::Bool(b) => Ok(int_field(field, if b { 1 } else { 0 })),
        JsonV::Array(items) => if all_null(items) {
            Ok(Seq::empty())
        } else if items.len() > 1 && all_arrays(items) {
            repeated_bytes(field, v, items.len() as int)
        } else {
            in_field(field, message_bytes(v))
        },
        JsonV::Object(_) => in_field(field, message_bytes(v)),
    }
}

proof fn lemma_prefix_error(v: JsonV, i: int, n: int)
    requires
        v is Array,
        0 <= i <= n <= v->Array_0.len(),
        prefix_bytes(v, i) is Err,
    ensures
        prefix_bytes(v, n) == prefix_bytes(v, i),
    decreases n - i,
{
    if i < n {
        lemma_prefix_error(v, i, n - 1);
    }
}

proof fn lemma_sparse_error(v: JsonV, i: int, n: int)
    requires
        v is Array,
        v->Array_0.len() > 0,
        v->Array_0.last() is Object,
        0 <= i <= n <= v->Array_0.last()->Object_0.len(),
        sparse_bytes(v, i) is Err,
    ensures
        sparse_bytes(v, n) == sparse_bytes(v, i),
    decreases n - i,
{
    if i < n {
        lemma_sparse_error(v, i, n - 1);
    }
}

proof fn lemma_repeated_error(field: u32, v: JsonV, i: int, n: int)
    requires
        v is Array,
        0 <= i <= n <= v->Array_0.len(),
        repeated_bytes(field, v, i) is Err,
    ensures
        repeated_bytes(field, v, n) == repeated_bytes(field, v, i),
    decreases n - i,
{
    if i < n {
        lemma_repeated_error(field, v, i, n - 1);
    }
}

/// The buffer went from `before` to `after` by the bytes of `what`, or the error
/// of `what` came out.
pub open spec fn wrote(
    what: Result<Seq<u8>, Fault>,
    r: Result<(), PbliteError>,
    before: Seq<u8>,
    after: Seq<u8>,
) -> bool {
    match what {
        Ok(d) => r is Ok && after == before + d,
        Err(f) => r matches Err(e) && e@ == f,
    }
}

/// True of digits, with an optional minus sign before them.
pub fn is_numeric(s: &str) -> (r: bool)
    ensures
        r == numeric(s@),
{
    let v = text::chars_of(s);
    let mut from: usize = 0;
    if v.len() > 0 && v[0] == '-' {
        if v.len() == 1 {
            proof {
                assert(!text::digit(s@[0]));
            }
            return false;
        }
        from = 1;
        proof {
            assert(!text::digit(s@[0]));
        }
    } else if v.len() == 0 {
        return false;
    }
    let ghost d = text::after(s@, from as int);
    let mut i: usize = from;
    while i < v.len()
        invariant
            from <= i <= v@.len(),
            v@ == s@,
            d == text::after(s@, from as int),
            from == if s@[0] == '-' {
                1int
            } else {
                0
            },
            forall|j: int| from <= j < i ==> text::digit(#[trigger] s@[j]),
        decreases v@.len() - i,
    {
        if v[i] < '0' || v[i] > '9' {
            proof {
                assert(!text::digit(s@[i as int]));
                if from == 1 {
                    assert(!text::digit(s@[0]));
                    assert(s@.drop_first()[i - 1] == s@[i as int]);
                }
            }
            return false;
        }
        i += 1;
    }
    proof {
        if from == 1 {
            assert forall|j: int| 0 <= j < s@.drop_first().len() implies text::digit(
                #[trigger] s@.drop_first()[j],
            ) by {
                assert(s@.drop_first()[j] == s@[j + 1]);
            }
        }
    }
    true
}

/// True of text that may be the base64 form of binary data.
pub fn looks_like_base64(s: &str) -> (r: bool)
    ensures
        r == base64_like(s@),
{
    let v = text::chars_of(s);
    let mut i: usize = 0;
    while i < v.len()
        invariant
            i <= v@.len(),
            v@ == s@,
            forall|j: int| 0 <= j < i ==> base64_char(#[trigger] s@[j]),
        decreases v@.len() - i,
    {
        let c = v[i];
        if !(('A' <= c && c <= 'Z') || ('a' <= c && c <= 'z') || ('0' <= c && c <= '9') || c == '+'
            || c == '/' || c == '=') {
            proof {
                assert(!base64_char(s@[i as int]));
            }
            return false;
        }
        i += 1;
    }
    (v.len() > 0 && v[v.len() - 1] == '=') || v.len() >= 24
}

fn payload_of(s: &String) -> (r: Vec<u8>)
    ensures
        r@ == string_payload(s@),
{
    if looks_like_base64(s.as_str()) {
        match decode_base64(s.as_str()) {
            Ok(d) => {
                if utf8_text(d.as_slice()).is_err() {
                    return d;
                }
            },
            Err(_) => {},
        }
    }
    s.as_str().as_bytes_vec()
}

fn encode_message(buf: &mut bytes::BytesMut, value: &Json) -> (r: Result<(), PbliteError>)
    ensures
        wrote(message_bytes(value@), r, buffered(*old(buf)), buffered(*final(buf))),
    decreases value, 2nat,
{
    match value {
        Json::Array(arr) => {
            let n: usize = arr.len();
            let ghost items = jsons(arr@);
            proof {
                assert(value@ == JsonV::Array(items));
            }
            let has_sparse = n > 0 && matches!(arr[n - 1], Json::Object(_));
            let count: usize = if has_sparse {
                n - 1
            } else {
                n
            };
            proof {
                if n > 0 {
                    assert(items.last() == arr@[n - 1]@);
                }
                assert(positional(items) == count);
            }
            let mut index: usize = 0;
            while index < count
                invariant
                    index <= count <= n == arr@.len(),
                    *value == Json::Array(*arr),
                    items == jsons(arr@),
                    value@ == JsonV::Array(items),
                    positional(items) == count,
                    prefix_bytes(value@, index as int) matches Ok(d) && buffered(*buf) == buffered(
                        *old(buf),
                    ) + d,
                decreases count - index,
            {
                let ghost before = buffered(*buf);
                let ghost d = prefix_bytes(value@, index as int)->Ok_0;
                proof {
                    assert(items[index as int] == arr@[index as int]@);
                    assert(decreases_to!(*value => value->Array_0));
                    assert(decreases_to!(*arr => arr@));
                    assert(decreases_to!(arr@ => arr@[index as int]));
                    assert(prefix_bytes(value@, index + 1) == then_bytes(
                        prefix_bytes(value@, index as int),
                        field_bytes((index + 1) as u32, items[index as int]),
                    ));
                }
                let field_number: u32 = (index + 1) as u32;
                let r = encode_field(buf, field_number, &arr[index]);
                if r.is_err() {
                    proof {
                        lemma_prefix_error(value@, index + 1, count as int);
                    }
                    return r;
                }
                proof {
                    let e = field_bytes(field_number, items[index as int])->Ok_0;
                    assert(buffered(*buf) =~= buffered(*old(buf)) + (d + e));
                }
                index += 1;
            }
            if has_sparse {
                let ghost base = buffered(*buf);
                let ghost first = prefix_bytes(value@, count as int)->Ok_0;
                match &arr[n - 1] {
                    Json::Object(m) => {
                        let ghost mv = members(m@);
                        let mut k: usize = 0;
                        proof {
                            assert(items[n - 1] == JsonV::Object(mv));
                            assert(base =~= base + Seq::<u8>::empty());
                        }
                        while k < m.len()
                            invariant
                                k <= m@.len(),
                                count + 1 == n == arr@.len(),
                                *value == Json::Array(*arr),
                                items == jsons(arr@),
                                value@ == JsonV::Array(items),
                                positional(items) == count,
                                arr@[n - 1] == Json::Object(*m),
                                mv == members(m@),
                                items[n - 1] == JsonV::Object(mv),
                                prefix_bytes(value@, count as int) == Ok::<Seq<u8>, Fault>(first),
                                base == buffered(*old(buf)) + first,
                                sparse_bytes(value@, k as int) matches Ok(d) && buffered(*buf)
                                    == base + d,
                            decreases m@.len() - k,
                        {
                            let ghost d = sparse_bytes(value@, k as int)->Ok_0;
                            let key = &m[k].0;
                            let val = &m[k].1;
                            proof {
                                assert(mv[k as int] == (key@, val@));
                                assert(decreases_to!(*value => value->Array_0));
                                assert(decreases_to!(*arr => arr@));
                                assert(decreases_to!(arr@ => arr@[n - 1]));
                                assert(decreases_to!(arr@[n - 1] => arr@[n - 1]->Object_0));
                                assert(decreases_to!(*m => m@));
                                assert(decreases_to!(m@ => m@[k as int]));
                                assert(decreases_to!(m@[k as int] => m@[k as int].1));
                            }
                            if val.is_null() {
                                k += 1;
                                proof {
                                    assert(d + Seq::<u8>::empty() =~= d);
                                }
                                continue ;
                            }
                            match text::parse_u32(key.as_str()) {
                                Some(num) => {
                                    let r = encode_field(buf, num, val);
                                    if r.is_err() {
                                        proof {
                                            lemma_sparse_error(value@, k + 1, mv.len() as int);
                                        }
                                        return r;
                                    }
                                    proof {
                                        let e = field_bytes(num, val@)->Ok_0;
                                        assert(buffered(*buf) =~= base + (d + e));
                                    }
                                },
                                None => {
                                    proof {
                                        lemma_sparse_error(value@, k + 1, mv.len() as int);
                                    }
                                    return Err(PbliteError::InvalidFieldKey(key.clone()));
                                },
                            }
                            k += 1;
                        }
                        proof {
                            let d = sparse_bytes(value@, mv.len() as int)->Ok_0;
                            assert(buffered(*buf) =~= buffered(*old(buf)) + (first + d));
                        }
                    },
                    _ => {},
                }
            } else {
                proof {
                    let first = prefix_bytes(value@, count as int)->Ok_0;
                    assert(first + Seq::<u8>::empty() =~= first);
                }
            }
            Ok(())
        },
        Json::Null => {
            proof {
                assert(buffered(*buf) =~= buffered(*old(buf)) + Seq::<u8>::empty());
            }
            Ok(())
        },
        _ => Err(PbliteError::ExpectedArray),
    }
}

/// Puts the message `value` into a field.
fn encode_nested(buf: &mut bytes::BytesMut, field_number: u32, value: &Json) -> (r: Result<
    (),
    PbliteError,
>)
    ensures
        wrote(
            in_field(field_number, message_bytes(value@)),
            r,
            buffered(*old(buf)),
            buffered(*final(buf)),
        ),
    decreases value, 3nat,
{
    let mut sub = new_buffer(0);
    let r = encode_message(&mut sub, value);
    if r.is_err() {
        return r;
    }
    proof {
        assert(buffered(sub) =~= message_bytes(value@)->Ok_0);
    }
    write_len(buf, field_number, buffer_slice(&sub));
    Ok(())
}

pub(crate) fn encode_field(buf: &mut bytes::BytesMut, field_number: u32, value: &Json) -> (r: Result<
    (),
    PbliteError,
>)
    ensures
        wrote(
            field_bytes(field_number, value@),
            r,
            buffered(*old(buf)),
            buffered(*final(buf)),
        ),
    decreases value, 4nat,
{
    match value {
        Json::Null => {
            proof {
                assert(buffered(*buf) =~= buffered(*old(buf)) + Seq::<u8>::empty());
            }
            Ok(())
        },
        Json::Text(s) => {
            if is_numeric(s.as_str()) {
                if let Some(v) = text::parse_i64(s.as_str()) {
                    write_int(buf, field_number, v as u64);
                    return Ok(());
                }
            }
            let raw = payload_of(s);
            write_len(buf, field_number, raw.as_slice());
            Ok(())
        },
        Json::Pos(n) => {
            write_int(buf, field_number, *n);
            Ok(())
        },
        Json::Neg(n) => {
            write_int(buf, field_number, *n as u64);
            Ok(())
        },
        Json::Float(_) => {
            Err(
                PbliteError::UnexpectedType {
                    field: field_number,
                    detail: "floating point number".to_owned(),
                },
            )
        },
        Json::Bool(b) => {
            write_int(
                buf,
                field_number,
                if *b {
                    1
                } else {
                    0
                },
            );
            Ok(())
        },
        Json::Array(arr) => {
            let ghost items = jsons(arr@);
            let mut nulls: usize = 0;
            let mut arrays: usize = 0;
            let mut i: usize = 0;
            while i < arr.len()
                invariant
                    i <= arr@.len(),
                    items == jsons(arr@),
                    nulls <= i,
                    arrays <= i,
                    nulls == i <==> forall|j: int| 0 <= j < i ==> #[trigger] items[j] is Null,
                    arrays == i <==> forall|j: int| 0 <= j < i ==> #[trigger] items[j] is Array,
                decreases arr@.len() - i,
            {
                proof {
                    assert(items[i as int] == arr@[i as int]@);
                }
                if arr[i].is_null() {
                    nulls += 1;
                }
                if arr[i].is_array() {
                    arrays += 1;
                }
                i += 1;
            }
            if nulls == arr.len() {
                proof {
                    assert(all_null(items));
                    assert(buffered(*buf) =~= buffered(*old(buf)) + Seq::<u8>::empty());
                }
                Ok(())
            } else if arrays == arr.len() && arr.len() > 1 {
                proof {
                    assert(!all_null(items));
                    assert(all_arrays(items));
                    assert(buffered(*buf) =~= buffered(*old(buf)) + Seq::<u8>::empty());
                }
                let mut k: usize = 0;
                while k < arr.len()
                    invariant
                        k <= arr@.len(),
                        *value == Json::Array(*arr),
                        items == jsons(arr@),
                        value@ == JsonV::Array(items),
                        field_bytes(field_number, value@) == repeated_bytes(
                            field_number,
                            value@,
                            items.len() as int,
                        ),
                        repeated_bytes(field_number, value@, k as int) matches Ok(d) && buffered(
                            *buf,
                        ) == buffered(*old(buf)) + d,
                    decreases arr@.len() - k,
                {
                    let ghost d = repeated_bytes(field_number, value@, k as int)->Ok_0;
                    proof {
                        assert(items[k as int] == arr@[k as int]@);
                        assert(decreases_to!(*value => value->Array_0));
                        assert(decreases_to!(*arr => arr@));
                        assert(decreases_to!(arr@ => arr@[k as int]));
                    }
                    let r = encode_nested(buf, field_number, &arr[k]);
                    if r.is_err() {
                        proof {
                            lemma_repeated_error(field_number, value@, k + 1, items.len() as int);
                        }
                        return r;
                    }
                    proof {
                        let e = in_field(field_number, message_bytes(items[k as int]))->Ok_0;
                        assert(buffered(*buf) =~= buffered(*old(buf)) + (d + e));
                    }
                    k += 1;
                }
                Ok(())
            } else {
                proof {
                    assert(!all_null(items));
                    assert(!(items.len() > 1 && all_arrays(items)));
                }
                encode_nested(buf, field_number, value)
            }
        },
        Json::Object(_) => encode_nested(buf, field_number, value),
    }
}

/// The wire form of a pblite message, the kind of each field guessed from its
/// value.
pub fn pblite_to_wire(value: &Json) -> (r: Result<bytes::Bytes, PbliteError>)
    ensures
        match message_bytes(value@) {
            Ok(d) => r matches Ok(b) && contents(b) == d,
            Err(f) => r matches Err(e) && e@ == f,
        },
{
    let mut buf = new_buffer(256);
    match encode_message(&mut buf, value) {
        Ok(()) => {
            proof {
                assert(buffered(buf) =~= message_bytes(value@)->Ok_0);
            }
            Ok(freeze(buf))
        },
        Err(e) => Err(e),
    }
}

// ───────────────────────── wire to pblite ─────────────────────────

/// UTF-8 without control characters other than tab, newline and carriage
/// return.
pub open spec fn text_like(data: Seq<u8>) -> bool {
    &&& valid_utf8(data)
    &&& forall|i: int|
        0 <= i < data.len() ==> #[trigger] data[i] >= 0x20 || data[i] == 9 || data[i] == 10
            || data[i] == 13
}

/// The first byte may begin the tag of a field: it continues, or it has a field
/// number and the wire type of an integer, of a run of bytes or of four bytes.
pub open spec fn nested_like(data: Seq<u8>) -> bool {
    &&& data.len() > 0
    &&& data[0] >= 128 || (data[0] / 8 > 0 && (data[0] % 8 == 0 || data[0] % 8 == 2 || data[0] % 8
        == 5))
}

/// The bytes as a string: their text, or their base64 form where they are none.
pub open spec fn as_string(data: Seq<u8>) -> JsonV {
    if valid_utf8(data) {
        JsonV::Text(decode_utf8(data))
    } else {
        JsonV::Text(base64_text(data))
    }
}

/// The number whose bytes are the first `n` of `data`, the lowest first.
pub open spec fn little_endian(data: Seq<u8>, n: int) -> nat
    decreases n,
{
    if n <= 0 {
        0
    } else {
        little_endian(data.drop_first(), n - 1) * 256 + data[0] as nat
    }
}

pub open spec fn truncated(field: u32, need: usize, have: nat) -> Fault {
    Fault::UnexpectedType {
        field,
        detail: "length-delimited field truncated: need "@ + decimal(need as nat) + ", have "@
            + decimal(have),
    }
}

/// The values of the fields with number `num`, in order.
pub open spec fn values_of(fs: Seq<(u32, JsonV)>, num: int) -> Seq<JsonV>
    decreases fs.len(),
{
    if fs.len() == 0 {
        Seq::empty()
    } else if fs.last().0 == num {
        values_of(fs.drop_last(), num).push(fs.last().1)
    } else {
        values_of(fs.drop_last(), num)
    }
}

/// The highest field number.
pub open spec fn max_number(fs: Seq<(u32, JsonV)>) -> nat
    decreases fs.len(),
{
    if fs.len() == 0 {
        0
    } else if fs.last().0 > max_number(fs.drop_last()) {
        fs.last().0 as nat
    } else {
        max_number(fs.drop_last())
    }
}

/// What stands at the place of field `num`: null where it is absent, its value,
/// or the array of its values where there are several.
pub open spec fn slot(fs: Seq<(u32, JsonV)>, num: int) -> JsonV {
    let vs = values_of(fs, num);
    if vs.len() == 0 {
        JsonV::Null
    } else if vs.len() == 1 {
        vs[0]
    } else {
        JsonV::Array(vs)
    }
}

/// The pblite array of a list of fields.
pub open spec fn assembled(fs: Seq<(u32, JsonV)>) -> JsonV {
    JsonV::Array(Seq::new(max_number(fs), |i: int| slot(fs, i + 1)))
}

pub open spec fn has_number_zero(fs: Seq<(u32, JsonV)>) -> bool {
    exists|i: int| 0 <= i < fs.len() && (#[trigger] fs[i]).0 == 0
}

/// The pblite form of a message, or the error in its bytes. None where a field
/// has the number zero, for which an array has no place.
pub open spec fn decoded(wire: Seq<u8>) -> Option<Result<JsonV, Fault>>
    decreases wire.len(), 3nat,
{
    match fields_of(wire, Seq::empty()) {
        Some(Ok(fs)) => if has_number_zero(fs) {
            None
        } else {
            Some(Ok(assembled(fs)))
        },
        Some(Err(f)) => Some(Err(f)),
        None => None,
    }
}

/// The fields of a message, behind those already read.
pub open spec fn fields_of(wire: Seq<u8>, fs: Seq<(u32, JsonV)>) -> Option<
    Result<Seq<(u32, JsonV)>, Fault>,
>
    decreases wire.len(), 2nat,
{
    if wire.len() == 0 {
        Some(Ok(fs))
    } else {
        match first_field(wire) {
            Some(Ok((num, v, n))) => if 0 < n <= wire.len() {
                fields_of(text::after(wire, n), fs.push((num, v)))
            } else {
                None
            },
            Some(Err(f)) => Some(Err(f)),
            None => None,
        }
    }
}

/// The field at the start of `wire`: its number, its value and its length.
pub open spec fn first_field(wire: Seq<u8>) -> Option<Result<(u32, JsonV, int), Fault>>
    decreases wire.len(), 1nat,
{
    match read(wire) {
        None => Some(Err(Fault::VarintOverflow)),
        Some((tag, n)) => {
            let num = (tag / 8) as u32;
            let rest = text::after(wire, n);
            if tag % 8 == 0 {
                match read(rest) {
                    None => Some(Err(Fault::VarintOverflow)),
                    Some((v, m)) => Some(Ok((num, JsonV::Pos(v), n + m))),
                }
            } else if tag % 8 == 2 {
                match read(rest) {
                    None => Some(Err(Fault::VarintOverflow)),
                    Some((l, m)) => {
                        let len = l as usize;
                        let r = text::after(rest, m);
                        if r.len() < len {
                            Some(Err(truncated(num, len, r.len())))
                        } else {
                            proof {
                                lemma_read_len(wire);
                                lemma_read_len(rest);
                            }
                            match data_value(r.take(len as int)) {
                                Some(v) => Some(Ok((num, v, n + m + len))),
                                None => None,
                            }
                        }
                    },
                }
            } else if tag % 8 == 5 {
                if rest.len() < 4 {
                    Some(Err(Fault::UnsupportedWireType(5)))
                } else {
                    Some(Ok((num, JsonV::Pos(little_endian(rest, 4) as u64), n + 4)))
                }
            } else if tag % 8 == 1 {
                if rest.len() < 8 {
                    Some(Err(Fault::UnsupportedWireType(1)))
                } else {
                    Some(Ok((num, JsonV::Pos(little_endian(rest, 8) as u64), n + 8)))
                }
            } else {
                Some(Err(Fault::UnsupportedWireType((tag % 8) as u32)))
            }
        },
    }
}

/// What a run of bytes stands for: text where it looks like text; a message of
/// fewer than a thousand places where it may be one; else a string.
pub open spec fn data_value(data: Seq<u8>) -> Option<JsonV>
    decreases data.len(), 4nat,
{
    if text_like(data) {
        Some(JsonV::Text(decode_utf8(data)))
    } else if nested_like(data) {
        match decoded(data) {
            Some(Ok(v)) => if v is Array && v->Array_0.len() < 1000 {
                Some(v)
            } else {
                Some(as_string(data))
            },
            Some(Err(_)) => Some(as_string(data)),
            None => None,
        }
    } else {
        Some(as_string(data))
    }
}

/// The views of a list of fields.
pub open spec fn numbered(fs: Seq<(u32, Json)>) -> Seq<(u32, JsonV)> {
    fs.map_values(|f: (u32, Json)| (f.0, f.1@))
}

fn looks_like_text(data: &[u8]) -> (r: Option<String>)
    ensures
        match r {
            Some(s) => text_like(data@) && s@ == decode_utf8(data@),
            None => !text_like(data@),
        },
{
    let mut i: usize = 0;
    while i < data.len()
        invariant
            i <= data@.len(),
            forall|j: int|
                0 <= j < i ==> #[trigger] data@[j] >= 0x20 || data@[j] == 9 || data@[j] == 10
                    || data@[j] == 13,
        decreases data@.len() - i,
    {
        let b: u8 = data[i];
        if !(b >= 0x20 || b == 9 || b == 10 || b == 13) {
            return None;
        }
        i += 1;
    }
    match utf8_text(data) {
        Ok(s) => Some(s),
        Err(_) => None,
    }
}

/// True of bytes that may be a message: the first may begin a tag.
pub fn looks_like_nested_tag(data: &[u8]) -> (r: bool)
    ensures
        r == nested_like(data@),
{
    if data.len() == 0 {
        return false;
    }
    let first: u8 = data[0];
    if first >= 128 {
        return true;
    }
    let wire_type: u8 = first % 8;
    first / 8 > 0 && (wire_type == 0 || wire_type == 2 || wire_type == 5)
}

fn string_value(data: &[u8]) -> (r: Json)
    ensures
        r@ == as_string(data@),
{
    match utf8_text(data) {
        Ok(s) => Json::Text(s),
        Err(_) => Json::Text(encode_base64(data)),
    }
}

fn read_le(data: &[u8], n: usize) -> (r: u64)
    requires
        n <= data@.len(),
        n <= 8,
    ensures
        r == little_endian(data@, n as int),
{
    let mut acc: u64 = 0;
    let mut i: usize = n;
    proof {
        assert(little_endian(text::after(data@, n as int), 0) == 0);
    }
    let ghost mut bound: int = 1;
    while i > 0
        invariant
            i <= n <= data@.len(),
            n <= 8,
            acc == little_endian(text::after(data@, i as int), n - i),
            acc < bound,
            bound == if n - i == 0 { 1int } else if n - i == 1 { 0x100 } else if n - i == 2 {
                0x1_0000
            } else if n - i == 3 { 0x100_0000 } else if n - i == 4 { 0x1_0000_0000 } else if n - i
                == 5 { 0x100_0000_0000 } else if n - i == 6 { 0x1_0000_0000_0000 } else if n - i
                == 7 { 0x100_0000_0000_0000 } else { 0x1_0000_0000_0000_0000 },
        decreases i,
    {
        proof {
            let here = text::after(data@, i - 1);
            assert(here.drop_first() =~= text::after(data@, i as int));
            assert(here[0] == data@[i - 1]);
            bound = bound * 256;
        }
        acc = acc * 256 + data[i - 1] as u64;
        i -= 1;
    }
    proof {
        assert(text::after(data@, 0) =~= data@);
    }
    acc
}

fn gather(fields: &Vec<(u32, Json)>, num: u32) -> (r: Vec<Json>)
    ensures
        jsons(r@) == values_of(numbered(fields@), num as int),
{
    let mut out: Vec<Json> = Vec::new();
    let mut i: usize = 0;
    let ghost fs = numbered(fields@);
    while i < fields.len()
        invariant
            i <= fields@.len(),
            fs == numbered(fields@),
            jsons(out@) == values_of(fs.take(i as int), num as int),
        decreases fields@.len() - i,
    {
        proof {
            assert(fs.take(i + 1).drop_last() =~= fs.take(i as int));
            assert(fs.take(i + 1).last() == (fields@[i as int].0, fields@[i as int].1@));
        }
        if fields[i].0 == num {
            let ghost done = jsons(out@);
            let v = fields[i].1.copy();
            out.push(v);
            proof {
                assert(jsons(out@) =~= done.push(v@));
            }
        }
        i += 1;
    }
    proof {
        assert(fs.take(fs.len() as int) =~= fs);
    }
    out
}

proof fn lemma_no_values(fs: Seq<(u32, JsonV)>, num: int)
    requires
        forall|j: int| 0 <= j < fs.len() ==> (#[trigger] fs[j]).0 != num,
    ensures
        values_of(fs, num).len() == 0,
    decreases fs.len(),
{
    if fs.len() > 0 {
        lemma_no_values(fs.drop_last(), num);
    }
}

proof fn lemma_max_number(fs: Seq<(u32, JsonV)>)
    ensures
        forall|j: int| 0 <= j < fs.len() ==> (#[trigger] fs[j]).0 <= max_number(fs),
        max_number(fs) <= u32::MAX,
    decreases fs.len(),
{
    if fs.len() > 0 {
        lemma_max_number(fs.drop_last());
        assert forall|j: int| 0 <= j < fs.len() implies (#[trigger] fs[j]).0 <= max_number(fs) by {
            if j < fs.len() - 1 {
                assert(fs[j] == fs.drop_last()[j]);
            }
        }
    }
}

fn assemble(fields: &Vec<(u32, Json)>) -> (r: Option<Json>)
    ensures
        match r {
            Some(j) => !has_number_zero(numbered(fields@)) && j@ == assembled(numbered(fields@)),
            None => has_number_zero(numbered(fields@)),
        },
{
    let ghost fs = numbered(fields@);
    let mut max: u32 = 0;
    let mut i: usize = 0;
    while i < fields.len()
        invariant
            i <= fields@.len(),
            fs == numbered(fields@),
            max == max_number(fs.take(i as int)),
            forall|j: int| 0 <= j < i ==> (#[trigger] fs[j]).0 != 0,
        decreases fields@.len() - i,
    {
        proof {
            assert(fs.take(i + 1).drop_last() =~= fs.take(i as int));
            assert(fs.take(i + 1).last() == fs[i as int]);
            assert(fs[i as int] == (fields@[i as int].0, fields@[i as int].1@));
        }
        let num: u32 = fields[i].0;
        if num == 0 {
            return None;
        }
        if num > max {
            max = num;
        }
        i += 1;
    }
    proof {
        assert(fs.take(fs.len() as int) =~= fs);
        lemma_max_number(fs);
    }
    let mut arr: Vec<Json> = Vec::new();
    let mut n: u32 = 0;
    while n < max
        invariant
            n <= max,
            arr@.len() == n,
            forall|k: int| 0 <= k < n ==> (#[trigger] arr@[k]) == Json::Null,
        decreases max - n,
    {
        arr.push(Json::Null);
        n += 1;
    }
    let mut i: usize = 0;
    while i < fields.len()
        invariant
            i <= fields@.len(),
            fs == numbered(fields@),
            max == max_number(fs),
            arr@.len() == max,
            forall|j: int| 0 <= j < fs.len() ==> 0 < (#[trigger] fs[j]).0 <= max,
            forall|k: int|
                0 <= k < max ==> (#[trigger] arr@[k])@ == if exists|j: int|
                    0 <= j < i && (#[trigger] fs[j]).0 == k + 1 {
                    slot(fs, k + 1)
                } else {
                    JsonV::Null
                },
        decreases fields@.len() - i,
    {
        proof {
            assert(fs[i as int] == (fields@[i as int].0, fields@[i as int].1@));
        }
        let num: u32 = fields[i].0;
        let mut vals = gather(fields, num);
        let ghost vs = jsons(vals@);
        let idx: usize = (num - 1) as usize;
        let v = if vals.len() == 1 {
            match vals.pop() {
                Some(x) => {
                    proof {
                        assert(x@ == vs[0]);
                    }
                    x
                },
                None => Json::Null,
            }
        } else {
            if vals.len() == 0 {
                Json::Null
            } else {
                Json::Array(vals)
            }
        };
        proof {
            assert(v@ == slot(fs, num as int));
        }
        let ghost before = arr@;
        arr.set(idx, v);
        proof {
            assert forall|k: int| 0 <= k < max implies (#[trigger] arr@[k])@ == if exists|j: int|
                0 <= j < i + 1 && (#[trigger] fs[j]).0 == k + 1 {
                slot(fs, k + 1)
            } else {
                JsonV::Null
            } by {
                if k == idx {
                    assert(fs[i as int].0 == k + 1);
                } else {
                    assert(arr@[k] == before[k]);
                    if exists|j: int| 0 <= j < i + 1 && (#[trigger] fs[j]).0 == k + 1 {
                        let j = choose|j: int| 0 <= j < i + 1 && (#[trigger] fs[j]).0 == k + 1;
                        assert(j != i);
                    }
                }
            }
        }
        i += 1;
    }
    proof {
        assert forall|k: int| 0 <= k < max implies (#[trigger] jsons(arr@)[k]) == slot(
            fs,
            k + 1,
        ) by {
            assert(jsons(arr@)[k] == arr@[k]@);
            if !exists|j: int| 0 <= j < fs.len() && (#[trigger] fs[j]).0 == k + 1 {
                lemma_no_values(fs, k + 1);
            }
        }
        assert(jsons(arr@) =~= Seq::new(max_number(fs), |i: int| slot(fs, i + 1)));
    }
    Some(Json::Array(arr))
}

fn decode_data(data: &[u8]) -> (r: Option<Json>)
    ensures
        match r {
            Some(j) => data_value(data@) == Some(j@),
            None => data_value(data@) is None,
        },
    decreases data@.len(), 4nat,
{
    if let Some(s) = looks_like_text(data) {
        return Some(Json::Text(s));
    }
    if looks_like_nested_tag(data) {
        match decode_wire(data) {
            None => None,
            Some(Ok(nested)) => match &nested {
                Json::Array(a) => if a.len() < 1000 {
                    Some(nested)
                } else {
                    Some(string_value(data))
                },
                _ => Some(string_value(data)),
            },
            Some(Err(_)) => Some(string_value(data)),
        }
    } else {
        Some(string_value(data))
    }
}

fn decode_field(wire: &[u8]) -> (r: Option<Result<(u32, Json, usize), PbliteError>>)
    ensures
        match r {
            Some(Ok((num, v, n))) => first_field(wire@) == Some(
                Ok::<(u32, JsonV, int), Fault>((num, v@, n as int)),
            ) && 0 < n <= wire@.len(),
            Some(Err(e)) => first_field(wire@) == Some(Err::<(u32, JsonV, int), Fault>(e@)),
            None => first_field(wire@) is None,
        },
    decreases wire@.len(), 1nat,
{
    let total: usize = wire.len();
    let (tag, n) = match varint_at(wire) {
        Ok(p) => p,
        Err(e) => return Some(Err(e)),
    };
    let num: u32 = (tag / 8) as u32;
    let rest = slice_subrange(wire, n, total);
    let wire_type: u64 = tag % 8;
    if wire_type == 0 {
        match varint_at(rest) {
            Ok((v, m)) => Some(Ok((num, Json::Pos(v), n + m))),
            Err(e) => Some(Err(e)),
        }
    } else if wire_type == 2 {
        match varint_at(rest) {
            Ok((l, m)) => {
                let len: usize = l as usize;
                let r = slice_subrange(rest, m, rest.len());
                if r.len() < len {
                    let a = text::join3(
                        "length-delimited field truncated: need ",
                        text::show(len as u64).as_str(),
                        ", have ",
                    );
                    let detail = text::join2(a.as_str(), text::show(r.len() as u64).as_str());
                    return Some(Err(PbliteError::UnexpectedType { field: num, detail }));
                }
                let data = slice_subrange(r, 0, len);
                proof {
                    assert(data@ =~= r@.take(len as int));
                }
                match decode_data(data) {
                    Some(v) => Some(Ok((num, v, n + m + len))),
                    None => None,
                }
            },
            Err(e) => Some(Err(e)),
        }
    } else if wire_type == 5 {
        if rest.len() < 4 {
            Some(Err(PbliteError::UnsupportedWireType(5)))
        } else {
            Some(Ok((num, Json::Pos(read_le(rest, 4)), n + 4)))
        }
    } else if wire_type == 1 {
        if rest.len() < 8 {
            Some(Err(PbliteError::UnsupportedWireType(1)))
        } else {
            Some(Ok((num, Json::Pos(read_le(rest, 8)), n + 8)))
        }
    } else {
        Some(Err(PbliteError::UnsupportedWireType(wire_type as u32)))
    }
}

fn decode_wire(wire: &[u8]) -> (r: Option<Result<Json, PbliteError>>)
    ensures
        match r {
            Some(Ok(j)) => decoded(wire@) == Some(Ok::<JsonV, Fault>(j@)),
            Some(Err(e)) => decoded(wire@) == Some(Err::<JsonV, Fault>(e@)),
            None => decoded(wire@) is None,
        },
    decreases wire@.len(), 3nat,
{
    let total: usize = wire.len();
    let mut fields: Vec<(u32, Json)> = Vec::new();
    let mut pos: usize = 0;
    proof {
        assert(numbered(fields@) =~= Seq::empty());
        assert(text::after(wire@, 0) =~= wire@);
    }
    while pos < total
        invariant
            pos <= total == wire@.len(),
            fields_of(wire@, Seq::empty()) == fields_of(
                text::after(wire@, pos as int),
                numbered(fields@),
            ),
        decreases total - pos,
    {
        let rest = slice_subrange(wire, pos, total);
        match decode_field(rest) {
            Some(Ok((num, v, n))) => {
                let ghost done = numbered(fields@);
                let ghost vv = v@;
                fields.push((num, v));
                proof {
                    assert(numbered(fields@) =~= done.push((num, vv)));
                    assert(text::after(rest@, n as int) =~= text::after(wire@, pos + n));
                }
                pos += n;
            },
            Some(Err(e)) => {
                return Some(Err(e));
            },
            None => {
                return None;
            },
        }
    }
    match assemble(&fields) {
        Some(j) => Some(Ok(j)),
        None => None,
    }
}

/// The pblite form of a message, or the error in its bytes.
pub fn wire_to_pblite(wire: &[u8]) -> (r: Result<Json, PbliteError>)
    requires
        decoded(wire@) is Some,
    ensures
        match r {
            Ok(j) => decoded(wire@) == Some(Ok::<JsonV, Fault>(j@)),
            Err(e) => decoded(wire@) == Some(Err::<JsonV, Fault>(e@)),
        },
{
    match decode_wire(wire) {
        Some(r) => r,
        None => Ok(Json::Null),
    }
}

/// The pblite form of a message, or the error in its bytes. None where a field
/// has the number zero.
pub fn wire_to_pblite_checked(wire: &[u8]) -> (r: Option<Result<Json, PbliteError>>)
    ensures
        match r {
            Some(Ok(j)) => decoded(wire@) == Some(Ok::<JsonV, Fault>(j@)),
            Some(Err(e)) => decoded(wire@) == Some(Err::<JsonV, Fault>(e@)),
            None => decoded(wire@) is None,
        },
{
    if decode_wire(wire).is_none() {
        None
    } else {
        Some(wire_to_pblite(wire))
    }
}

} // verus!
