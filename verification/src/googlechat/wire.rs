//! The protobuf wire format: variable-length integers, tags and the byte
//! buffers that they are written to.
use vstd::prelude::*;
use vstd::slice::slice_subrange;

use crate::error::{Fault, PbliteError};

verus! {

pub const WIRE_VARINT: u32 = 0;

pub const WIRE_LEN: u32 = 2;

// ───────────────────────── byte buffers ─────────────────────────

/// `bytes::Bytes`, an immutable run of bytes.
#[verifier::external_type_specification]
#[verifier::external_body]
pub struct ExBytes(bytes::Bytes);

/// `bytes::BytesMut`, a growing buffer of bytes.
#[verifier::external_type_specification]
#[verifier::external_body]
pub struct ExBytesMut(bytes::BytesMut);

/// The bytes that a `bytes::Bytes` holds.
pub uninterp spec fn contents(b: bytes::Bytes) -> Seq<u8>;

/// The bytes that a `bytes::BytesMut` holds.
pub uninterp spec fn buffered(b: bytes::BytesMut) -> Seq<u8>;

/// `BytesMut::with_capacity` makes an empty buffer. The capacity has to be one that can be
/// had.
#[verifier::external_body]
pub(crate) fn new_buffer(capacity: usize) -> (r: bytes::BytesMut)
    requires
        capacity <= 4096,
    ensures
        buffered(r) == Seq::<u8>::empty(),
{
    bytes::BytesMut::with_capacity(capacity)
}

/// `BufMut::put_u8` appends one byte.
#[verifier::external_body]
pub(crate) fn put_u8(buf: &mut bytes::BytesMut, b: u8)
    ensures
        buffered(*final(buf)) == buffered(*old(buf)).push(b),
{
    bytes::BufMut::put_u8(buf, b)
}

/// `BufMut::put_slice` appends the bytes in order.
#[verifier::external_body]
pub(crate) fn put_slice(buf: &mut bytes::BytesMut, data: &[u8])
    ensures
        buffered(*final(buf)) == buffered(*old(buf)) + data@,
{
    bytes::BufMut::put_slice(buf, data)
}

/// `BytesMut::freeze` keeps the bytes.
#[verifier::external_body]
pub(crate) fn freeze(buf: bytes::BytesMut) -> (r: bytes::Bytes)
    ensures
        contents(r) == buffered(buf),
{
    buf.freeze()
}

/// The dereference of a `bytes::BytesMut` is the slice of its bytes.
#[verifier::external_body]
pub(crate) fn buffer_slice(buf: &bytes::BytesMut) -> (r: &[u8])
    ensures
        r@ == buffered(*buf),
{
    buf
}

/// The dereference of a `bytes::Bytes` is the slice of its bytes.
#[verifier::external_body]
pub(crate) fn bytes_slice(b: &bytes::Bytes) -> (r: &[u8])
    ensures
        r@ == contents(*b),
{
    b
}

/// `Bytes::copy_from_slice` holds a copy of the bytes.
#[verifier::external_body]
pub(crate) fn copy_bytes(data: &[u8]) -> (r: bytes::Bytes)
    ensures
        contents(r) == data@,
{
    bytes::Bytes::copy_from_slice(data)
}

// ───────────────────────── varints ─────────────────────────

/// The varint of `v`: groups of seven bits, the lowest first, each but the last
/// with its high bit set.
pub open spec fn varint(v: nat) -> Seq<u8>
    decreases v,
{
    if v < 128 {
        seq![v as u8]
    } else {
        seq![(v % 128 + 128) as u8] + varint(v / 128)
    }
}

/// The number of bytes up to the first without its high bit, that one
/// counted, from `i` on.
pub open spec fn varint_end(data: Seq<u8>, i: int) -> Option<int>
    decreases data.len() - i,
{
    if i < 0 || i >= data.len() {
        None
    } else if data[i] < 128 {
        Some(i + 1)
    } else {
        varint_end(data, i + 1)
    }
}

/// The number whose groups of seven bits are the first `n` bytes, the lowest
/// first.
pub open spec fn groups(data: Seq<u8>, n: int) -> nat
    decreases n,
{
    if n <= 0 {
        0
    } else {
        groups(data, n - 1) + (data[n - 1] % 128) as nat * pow128(n - 1)
    }
}

pub open spec fn pow128(n: int) -> nat
    decreases n,
{
    if n <= 0 {
        1
    } else {
        128 * pow128(n - 1)
    }
}

/// The varint at the start of `data`, of at most ten bytes: its value, of which
/// sixty-four bits are kept, and its length.
pub open spec fn read(data: Seq<u8>) -> Option<(u64, int)> {
    match varint_end(data, 0) {
        Some(n) => if n <= 10 {
            Some(((groups(data, n) % 0x1_0000_0000_0000_0000) as u64, n))
        } else {
            None
        },
        None => None,
    }
}

proof fn lemma_pow128(n: int)
    requires
        0 <= n <= 10,
    ensures
        0 < pow128(n) <= 0x40_0000_0000_0000_0000,
    decreases n,
{
    reveal_with_fuel(pow128, 11);
}

proof fn lemma_end(data: Seq<u8>, i: int)
    ensures
        varint_end(data, i) matches Some(n) ==> i < n <= data.len() && data[n - 1] < 128
            && forall|j: int| i <= j < n - 1 ==> #[trigger] data[j] >= 128,
    decreases data.len() - i,
{
    if 0 <= i < data.len() && data[i] >= 128 {
        lemma_end(data, i + 1);
    }
}

/// The varint at the start of `data`, and its length.
pub fn varint_at(data: &[u8]) -> (r: Result<(u64, usize), PbliteError>)
    ensures
        match r {
            Ok((v, n)) => read(data@) == Some((v, n as int)) && 0 < n <= data@.len(),
            Err(e) => read(data@) is None && e@ == Fault::VarintOverflow,
        },
{
    let mut result: u128 = 0;
    let mut scale: u128 = 1;
    let mut i: usize = 0;
    while i < data.len()
        invariant
            i <= data@.len(),
            i <= 10,
            varint_end(data@, 0) == varint_end(data@, i as int),
            scale == pow128(i as int),
            result == groups(data@, i as int),
            result < scale,
            scale <= 0x40_0000_0000_0000_0000,
        decreases data@.len() - i,
    {
        if i >= 10 {
            proof {
                lemma_end(data@, i as int);
            }
            return Err(PbliteError::VarintOverflow);
        }
        let b: u8 = data[i];
        let x: u128 = (b % 128) as u128;
        proof {
            lemma_pow128(i as int);
            lemma_pow128(i + 1);
            assert(x * scale <= 127 * scale) by (nonlinear_arith)
                requires
                    x <= 127,
            ;
            assert(pow128(i + 1) == 128 * pow128(i as int));
        }
        result = result + x * scale;
        scale = scale * 128;
        i += 1;
        if b < 128 {
            proof {
                assert(result as u64 == (result % 0x1_0000_0000_0000_0000) as u64) by (bit_vector);
            }
            return Ok((result as u64, i));
        }
    }
    Err(PbliteError::VarintOverflow)
}

/// The varint at the start of `data`, and what follows it.
pub fn read_varint(data: &[u8]) -> (r: Result<(u64, &[u8]), PbliteError>)
    ensures
        match r {
            Ok((v, rest)) => read(data@) matches Some((w, n)) && v == w && rest@ == data@.subrange(
                n,
                data@.len() as int,
            ),
            Err(e) => read(data@) is None && e@ == Fault::VarintOverflow,
        },
{
    match varint_at(data) {
        Ok((v, n)) => Ok((v, slice_subrange(data, n, data.len()))),
        Err(e) => Err(e),
    }
}

/// Appends the varint of `value`.
pub fn write_varint(buf: &mut bytes::BytesMut, value: u64)
    ensures
        buffered(*final(buf)) == buffered(*old(buf)) + varint(value as nat),
    decreases value,
{
    if value < 128 {
        put_u8(buf, value as u8);
        proof {
            assert(buffered(*buf) =~= buffered(*old(buf)) + varint(value as nat));
        }
    } else {
        put_u8(buf, (value % 128) as u8 + 128);
        write_varint(buf, value / 128);
        proof {
            assert(buffered(*buf) =~= buffered(*old(buf)) + varint(value as nat));
        }
    }
}

/// The tag of a field: its number and its wire type.
pub open spec fn tag(field: u32, wire_type: nat) -> Seq<u8> {
    varint((field * 8 + wire_type) as nat)
}

/// Appends the tag of a field.
pub fn write_tag(buf: &mut bytes::BytesMut, field_number: u32, wire_type: u32)
    requires
        wire_type < 8,
    ensures
        buffered(*final(buf)) == buffered(*old(buf)) + tag(field_number, wire_type as nat),
{
    write_varint(buf, field_number as u64 * 8 + wire_type as u64)
}

// ───────────────────────── fields ─────────────────────────

/// A field that holds an integer.
pub open spec fn int_field(field: u32, v: u64) -> Seq<u8> {
    tag(field, 0) + varint(v as nat)
}

/// A field that holds a run of bytes, preceded by its length.
pub open spec fn len_field(field: u32, data: Seq<u8>) -> Seq<u8> {
    tag(field, 2) + varint(data.len()) + data
}

/// Appends a field that holds an integer.
pub fn write_int(buf: &mut bytes::BytesMut, field_number: u32, v: u64)
    ensures
        buffered(*final(buf)) == buffered(*old(buf)) + int_field(field_number, v),
{
    write_tag(buf, field_number, WIRE_VARINT);
    write_varint(buf, v);
    proof {
        assert(buffered(*buf) =~= buffered(*old(buf)) + int_field(field_number, v));
    }
}

/// Appends a field that holds a run of bytes.
pub fn write_len(buf: &mut bytes::BytesMut, field_number: u32, data: &[u8])
    ensures
        buffered(*final(buf)) == buffered(*old(buf)) + len_field(field_number, data@),
{
    write_tag(buf, field_number, WIRE_LEN);
    write_varint(buf, data.len() as u64);
    put_slice(buf, data);
    proof {
        assert(buffered(*buf) =~= buffered(*old(buf)) + len_field(field_number, data@));
    }
}

// ───────────────────────── laws ─────────────────────────

proof fn lemma_groups_local(a: Seq<u8>, b: Seq<u8>, n: int)
    requires
        n <= a.len(),
        n <= b.len(),
        forall|i: int| 0 <= i < n ==> a[i] == b[i],
    ensures
        groups(a, n) == groups(b, n),
    decreases n,
{
    if n > 0 {
        lemma_groups_local(a, b, n - 1);
    }
}

/// The groups of `data` are its first byte and the groups of the rest.
proof fn lemma_groups_first(data: Seq<u8>, n: int)
    requires
        0 < n <= data.len(),
    ensures
        groups(data, n) == (data[0] % 128) as nat + 128 * groups(data.drop_first(), n - 1),
    decreases n,
{
    let rest = data.drop_first();
    if n == 1 {
        reveal_with_fuel(groups, 2);
        assert(pow128(0) == 1);
        assert((data[0] % 128) as nat * 1 == (data[0] % 128) as nat);
    } else {
        lemma_groups_first(data, n - 1);
        let x = (data[n - 1] % 128) as nat;
        assert(rest[n - 2] == data[n - 1]);
        assert(pow128(n - 1) == 128 * pow128(n - 2));
        let p = pow128(n - 2);
        assert(x * (128 * p) == 128 * (x * p)) by (nonlinear_arith);
        assert(groups(rest, n - 1) == groups(rest, n - 2) + x * p);
        assert(128 * (groups(rest, n - 2) + x * p) == 128 * groups(rest, n - 2) + 128 * (x * p));
    }
}

proof fn lemma_end_shift(data: Seq<u8>, i: int)
    requires
        0 < i,
        data.len() > 0,
    ensures
        varint_end(data, i) == match varint_end(data.drop_first(), i - 1) {
            Some(n) => Some(n + 1),
            None => None,
        },
    decreases data.len() - i,
{
    if i < data.len() && data[i] >= 128 {
        lemma_end_shift(data, i + 1);
    }
}

/// The bytes of a varint end where the varint does, whatever follows them.
proof fn lemma_varint_reads(v: nat, rest: Seq<u8>)
    ensures
        varint_end(varint(v) + rest, 0) == Some(varint(v).len() as int),
        groups(varint(v) + rest, varint(v).len() as int) == v,
        varint(v).len() > 0,
    decreases v,
{
    let all = varint(v) + rest;
    if v < 128 {
        assert(all[0] == v);
        lemma_groups_first(all, 1);
        assert(groups(all.drop_first(), 0) == 0);
    } else {
        lemma_varint_reads(v / 128, rest);
        assert(all.drop_first() =~= varint(v / 128) + rest);
        assert(all[0] == v % 128 + 128);
        lemma_end_shift(all, 1);
        lemma_groups_first(all, varint(v).len() as int);
    }
}

proof fn lemma_varint_len(v: nat, k: nat)
    requires
        v < pow128(k as int),
        k > 0,
    ensures
        varint(v).len() <= k,
    decreases k,
{
    if v >= 128 {
        assert(k > 1) by {
            reveal_with_fuel(pow128, 2);
        }
        assert(v / 128 < pow128(k - 1)) by (nonlinear_arith)
            requires
                v < 128 * pow128(k - 1),
        ;
        lemma_varint_len(v / 128, (k - 1) as nat);
    }
}

/// Reading a varint gives back the number that was written, and takes exactly
/// its bytes, whatever follows them.
pub proof fn law_varint_reads_back(v: u64, rest: Seq<u8>)
    ensures
        read(varint(v as nat) + rest) == Some((v, varint(v as nat).len() as int)),
        1 <= varint(v as nat).len() <= 10,
{
    lemma_varint_reads(v as nat, rest);
    assert(pow128(10) == 0x40_0000_0000_0000_0000) by {
        reveal_with_fuel(pow128, 11);
    }
    lemma_varint_len(v as nat, 10);
}

/// What [`read`] gives is settled by the bytes that it takes.
pub proof fn lemma_read_len(data: Seq<u8>)
    ensures
        read(data) matches Some((_, n)) ==> 0 < n <= data.len(),
{
    lemma_end(data, 0);
}

} // verus!
