//! The framing of the event channel.
//!
//! A frame is a length in decimal, a newline, and the content. The length counts
//! UTF-16 code units: a character of four UTF-8 bytes counts as two, any other
//! as one. Bytes are taken in as they come, and frames are given out as they
//! become complete.
use vstd::prelude::*;
use vstd::utf8::{decode_utf8, encode_utf8, valid_utf8};
use vstd::slice::slice_subrange;

use crate::googlechat::pblite::utf8_text;
use crate::googlechat::wire::{contents, copy_bytes};
use crate::text::{self, after, decimal, find, find_from, natural, occurs_at, trimmed};

verus! {

broadcast use vstd::string::group_string_axioms;

/// The number of bytes of the character that begins with `b`.
pub open spec fn char_width(b: u8) -> Option<int> {
    if b <= 0x7F {
        Some(1)
    } else if 0xC0 <= b <= 0xDF {
        Some(2)
    } else if 0xE0 <= b <= 0xEF {
        Some(3)
    } else if 0xF0 <= b <= 0xF7 {
        Some(4)
    } else {
        None
    }
}

/// The number of bytes of the characters that make up `units` code units, or one
/// more where a character of two units crosses the end. None where the data
/// does not reach that far or holds no character.
pub open spec fn bytes_for(data: Seq<u8>, units: int) -> Option<int>
    decreases data.len(),
{
    if units <= 0 {
        Some(0)
    } else if data.len() == 0 {
        None
    } else {
        match char_width(data[0]) {
            Some(w) => if w > data.len() {
                None
            } else {
                match bytes_for(
                    after(data, w),
                    units - if w == 4 {
                        2int
                    } else {
                        1
                    },
                ) {
                    Some(k) => Some(w + k),
                    None => None,
                }
            },
            None => None,
        }
    }
}

/// The frame at the start of `buf`: where its content begins and ends.
pub open spec fn frame(buf: Seq<u8>) -> Option<(int, int)> {
    match find(buf, seq![10u8]) {
        Some(nl) => if valid_utf8(buf.take(nl)) {
            match natural(trimmed(decode_utf8(buf.take(nl))), usize::MAX as nat) {
                Some(units) => match bytes_for(after(buf, nl + 1), units as int) {
                    Some(k) => Some((nl + 1, nl + 1 + k)),
                    None => None,
                },
                None => None,
            }
        } else {
            None
        },
        None => None,
    }
}

proof fn lemma_bytes_for_bound(data: Seq<u8>, units: int)
    ensures
        bytes_for(data, units) matches Some(k) ==> 0 <= k <= data.len(),
    decreases data.len(),
{
    if units > 0 && data.len() > 0 {
        match char_width(data[0]) {
            Some(w) => if w <= data.len() {
                lemma_bytes_for_bound(
                    after(data, w),
                    units - if w == 4 {
                        2int
                    } else {
                        1
                    },
                );
            },
            None => {},
        }
    }
}

/// A frame ends after it begins, and within the bytes.
pub proof fn lemma_frame_bounds(buf: Seq<u8>)
    ensures
        frame(buf) matches Some((a, b)) ==> 0 < a <= b <= buf.len(),
{
    text::lemma_find_from(buf, seq![10u8], 0);
    match find(buf, seq![10u8]) {
        Some(nl) => if valid_utf8(buf.take(nl)) {
            match natural(trimmed(decode_utf8(buf.take(nl))), usize::MAX as nat) {
                Some(units) => lemma_bytes_for_bound(after(buf, nl + 1), units as int),
                None => {},
            }
        },
        None => {},
    }
}

/// The bytes received and not yet given out.
pub struct ChunkParser {
    buffer: Vec<u8>,
}

impl View for ChunkParser {
    type V = Seq<u8>;

    closed spec fn view(&self) -> Seq<u8> {
        self.buffer@
    }
}

impl ChunkParser {
    /// A parser that has received nothing.
    pub fn new() -> (r: ChunkParser)
        ensures
            r@ == Seq::<u8>::empty(),
    {
        ChunkParser { buffer: Vec::with_capacity(65536) }
    }

    /// Takes in bytes.
    pub fn feed(&mut self, data: &[u8])
        ensures
            final(self)@ == old(self)@ + data@,
    {
        self.buffer.extend_from_slice(data);
        proof {
            assert(self.buffer@ =~= old(self).buffer@ + data@);
        }
    }

    /// Gives out the content of the next frame, if it has come in whole. Where it
    /// has not, nothing changes.
    pub fn next_chunk(&mut self) -> (r: Option<bytes::Bytes>)
        ensures
            match frame(old(self)@) {
                Some((a, b)) => r matches Some(f) && contents(f) == old(self)@.subrange(a, b)
                    && final(self)@ == after(old(self)@, b),
                None => r is None && final(self)@ == old(self)@,
            },
    {
        let total: usize = self.buffer.len();
        let all = self.buffer.as_slice();
        let nl: usize = match memchr_newline(all) {
            Some(i) => i,
            None => return None,
        };
        let head = slice_subrange(all, 0, nl);
        proof {
            assert(head@ =~= self@.take(nl as int));
        }
        let length = match utf8_text(head) {
            Ok(s) => text::trim(s.as_str()),
            Err(_) => return None,
        };
        let units: usize = match text::parse_usize(length.as_str()) {
            Some(n) => n,
            None => return None,
        };
        let start: usize = nl + 1;
        let rest = slice_subrange(all, start, total);
        let k: usize = match utf16_units_to_utf8_bytes(rest, units) {
            Some(k) => k,
            None => return None,
        };
        let end: usize = start + k;
        let f = copy_bytes(slice_subrange(all, start, end));
        let tail = self.buffer.split_off(end);
        self.buffer = tail;
        Some(f)
    }

    /// The number of bytes received and not yet given out.
    pub fn buffered(&self) -> (r: usize)
        ensures
            r == self@.len(),
    {
        self.buffer.len()
    }
}

impl Default for ChunkParser {
    fn default() -> (r: ChunkParser)
        ensures
            r@ == Seq::<u8>::empty(),
    {
        ChunkParser::new()
    }
}

fn memchr_newline(buf: &[u8]) -> (r: Option<usize>)
    ensures
        match r {
            Some(i) => find(buf@, seq![10u8]) == Some(i as int) && i < buf@.len(),
            None => find(buf@, seq![10u8]) is None,
        },
{
    let mut i: usize = 0;
    while i < buf.len()
        invariant
            i <= buf@.len(),
            find(buf@, seq![10u8]) == find_from(buf@, seq![10u8], i as int),
        decreases buf@.len() - i,
    {
        proof {
            let here = buf@.subrange(i as int, i + 1);
            assert(here.len() == 1 && here[0] == buf@[i as int]);
            if buf@[i as int] == 10 {
                assert(here =~= seq![10u8]);
            } else {
                assert(seq![10u8][0] != here[0]);
            }
        }
        if buf[i] == 10 {
            return Some(i);
        }
        i += 1;
    }
    None
}

/// The number of bytes at the front of `data` that stand for `utf16_len` units of UTF-16;
/// none where there are too few.
pub fn utf16_units_to_utf8_bytes(data: &[u8], utf16_len: usize) -> (r: Option<usize>)
    ensures
        match r {
            Some(k) => bytes_for(data@, utf16_len as int) == Some(k as int) && k <= data@.len(),
            None => bytes_for(data@, utf16_len as int) is None,
        },
{
    let total: usize = data.len();
    let mut count: usize = 0;
    let mut offset: usize = 0;
    proof {
        assert(after(data@, 0) =~= data@);
    }
    while count < utf16_len
        invariant
            offset <= total == data@.len(),
            count <= utf16_len + 1,
            bytes_for(data@, utf16_len as int) == match bytes_for(
                after(data@, offset as int),
                utf16_len - count,
            ) {
                Some(k) => Some(offset + k),
                None => None,
            },
        decreases total - offset,
    {
        if offset >= total {
            return None;
        }
        let b: u8 = data[offset];
        let width: usize = if b <= 0x7F {
            1
        } else if 0xC0 <= b && b <= 0xDF {
            2
        } else if 0xE0 <= b && b <= 0xEF {
            3
        } else if 0xF0 <= b && b <= 0xF7 {
            4
        } else {
            return None;
        };
        if width > total - offset {
            return None;
        }
        let ghost rest = after(data@, offset as int);
        proof {
            assert(rest[0] == b);
            assert(after(rest, width as int) =~= after(data@, offset + width));
        }
        if width == 4 && utf16_len - count == 1 {
            proof {
                assert(bytes_for(after(rest, 4), -1) == Some(0int));
            }
            return Some(offset + width);
        }
        count += if width == 4 {
            2
        } else {
            1
        };
        offset += width;
    }
    Some(offset)
}

// ───────────────────────── laws ─────────────────────────

proof fn lemma_bytes_for_more(data: Seq<u8>, more: Seq<u8>, units: int)
    requires
        bytes_for(data, units) is Some,
    ensures
        bytes_for(data + more, units) == bytes_for(data, units),
    decreases data.len(),
{
    if units > 0 {
        let w = char_width(data[0])->0;
        assert(after(data + more, w) =~= after(data, w) + more);
        lemma_bytes_for_more(
            after(data, w),
            more,
            units - if w == 4 {
                2int
            } else {
                1
            },
        );
    }
}

proof fn lemma_find_more(s: Seq<u8>, more: Seq<u8>, p: Seq<u8>, i: int)
    requires
        0 <= i,
        find_from(s, p, i) is Some,
    ensures
        find_from(s + more, p, i) == find_from(s, p, i),
    decreases s.len() + 1 - i,
{
    assert((s + more).subrange(i, i + p.len()) =~= s.subrange(i, i + p.len()));
    if !occurs_at(s, p, i) {
        lemma_find_more(s, more, p, i + 1);
    }
}

/// A frame that has come in whole stays the same whatever comes in after it, so
/// that the frames do not depend on how the bytes were cut on their way.
pub proof fn law_frame_is_stable(buf: Seq<u8>, more: Seq<u8>)
    requires
        frame(buf) is Some,
    ensures
        frame(buf + more) == frame(buf),
        frame(buf) matches Some((a, b)) && 0 < a <= b <= buf.len() && (buf + more).subrange(a, b)
            == buf.subrange(a, b) && after(buf + more, b) == after(buf, b) + more,
{
    let nl = find(buf, seq![10u8])->0;
    lemma_find_more(buf, more, seq![10u8], 0);
    text::lemma_find_from(buf, seq![10u8], 0);
    assert((buf + more).take(nl) =~= buf.take(nl));
    let rest = after(buf, nl + 1);
    assert(after(buf + more, nl + 1) =~= rest + more);
    let units = natural(trimmed(decode_utf8(buf.take(nl))), usize::MAX as nat)->0;
    lemma_bytes_for_more(rest, more, units as int);
    lemma_bytes_for_bound(rest, units as int);
    let (a, b) = frame(buf)->0;
    assert((buf + more).subrange(a, b) =~= buf.subrange(a, b));
    assert(after(buf + more, b) =~= after(buf, b) + more);
}

/// The number of UTF-16 code units of a text.
pub open spec fn utf16_units(s: Seq<char>) -> nat
    decreases s.len(),
{
    if s.len() == 0 {
        0
    } else {
        utf16_units(s.drop_first()) + if s[0] as u32 >= 0x10000 {
            2nat
        } else {
            1
        }
    }
}

/// A text framed for the channel.
pub open spec fn framed(s: Seq<char>) -> Seq<u8> {
    encode_utf8(decimal(utf16_units(s))) + seq![10u8] + encode_utf8(s)
}

proof fn lemma_bytes_for_text(s: Seq<char>, rest: Seq<u8>)
    ensures
        bytes_for(encode_utf8(s) + rest, utf16_units(s) as int) == Some(encode_utf8(s).len() as int),
    decreases s.len(),
{
    if s.len() > 0 {
        let all = encode_utf8(s) + rest;
        vstd::utf8::encode_utf8_first_scalar(s);
        let w = vstd::utf8::encode_scalar(s[0] as u32).len() as int;
        let tail = encode_utf8(s.drop_first());
        assert(encode_utf8(s) == vstd::utf8::encode_scalar(s[0] as u32) + tail);
        assert(all[0] == encode_utf8(s)[0]);
        assert(char_width(all[0]) == Some(w));
        assert(after(all, w) =~= tail + rest);
        lemma_bytes_for_text(s.drop_first(), rest);
    }
}

proof fn lemma_ascii_bytes(s: Seq<char>)
    requires
        forall|i: int| 0 <= i < s.len() ==> text::digit(#[trigger] s[i]),
    ensures
        encode_utf8(s) =~= Seq::new(s.len(), |i: int| s[i] as u8),
{
    assert(vstd::utf8::is_ascii_chars(s));
    vstd::utf8::is_ascii_chars_encode_utf8(s);
}

proof fn lemma_digits_trimmed(s: Seq<char>)
    requires
        text::all_digits(s),
        s.len() > 0,
    ensures
        trimmed(s) == s,
        text::unsigned_part(s, false) == s,
{
    assert(text::digit(s[0]) && text::digit(s[s.len() - 1]));
}

/// What was framed is given out again: the frame of a text, whatever comes after
/// it, holds the text and nothing else.
pub proof fn law_framed_reads_back(s: Seq<char>, rest: Seq<u8>)
    requires
        utf16_units(s) <= usize::MAX,
    ensures
        frame(framed(s) + rest) matches Some((a, b)) && (framed(s) + rest).subrange(a, b)
            == encode_utf8(s) && after(framed(s) + rest, b) == rest,
{
    let units = utf16_units(s);
    let head = decimal(units);
    let hb = encode_utf8(head);
    let all = framed(s) + rest;
    let nl = head.len() as int;
    text::law_decimal_reads_back(units);
    lemma_ascii_bytes(head);
    lemma_digits_trimmed(head);
    assert(all.take(nl) =~= hb);
    vstd::utf8::encode_utf8_valid_utf8(head);
    vstd::utf8::encode_utf8_decode_utf8(head);
    assert(all.subrange(nl, nl + 1) =~= seq![10u8]);
    assert(occurs_at(all, seq![10u8], nl));
    assert forall|j: int| 0 <= j < nl implies !#[trigger] occurs_at(all, seq![10u8], j) by {
        assert(text::digit(head[j]));
        assert(all.subrange(j, j + 1)[0] == hb[j]);
        assert(hb[j] == head[j] as u8);
        assert(seq![10u8][0] == 10);
    }
    text::lemma_find_from(all, seq![10u8], 0);
    assert(find(all, seq![10u8]) == Some(nl));
    assert(after(all, nl + 1) =~= encode_utf8(s) + rest);
    lemma_bytes_for_text(s, rest);
    let b = nl + 1 + encode_utf8(s).len();
    assert(all.subrange(nl + 1, b) =~= encode_utf8(s));
    assert(after(all, b) =~= rest);
}

} // verus!
