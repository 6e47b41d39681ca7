//! Hexadecimal notation, and the percent encoding of addresses and forms.
use vstd::prelude::*;
use vstd::utf8::{encode_utf8, is_ascii_chars, is_ascii_chars_encode_utf8};

use crate::text::after;

verus! {

broadcast use vstd::string::group_string_axioms;

// ───────────────────────── hexadecimal ─────────────────────────

/// The hexadecimal digit that stands for `n`, for `n` below sixteen.
pub open spec fn hex_digit(n: nat, upper: bool) -> char {
    if n < 10 {
        ('0' as u32 + n) as char
    } else if upper {
        ('A' as u32 + n - 10) as char
    } else {
        ('a' as u32 + n - 10) as char
    }
}

/// The last `width` hexadecimal digits of `n`.
pub open spec fn hex(n: nat, width: nat, upper: bool) -> Seq<char>
    decreases width,
{
    if width == 0 {
        Seq::empty()
    } else {
        hex(n / 16, (width - 1) as nat, upper).push(hex_digit(n % 16, upper))
    }
}

/// Two to the power of four times `width`: the numbers below it have no more than
/// `width` hexadecimal digits.
pub open spec fn pow16(width: nat) -> nat
    decreases width,
{
    if width == 0 {
        1
    } else {
        16 * pow16((width - 1) as nat)
    }
}

fn digit_of(n: u8, upper: bool) -> (r: char)
    requires
        n < 16,
    ensures
        r == hex_digit(n as nat, upper),
{
    if n < 10 {
        (48 + n) as char
    } else if upper {
        (55 + n) as char
    } else {
        (87 + n) as char
    }
}

/// Writes the last `width` hexadecimal digits of `n`.
pub fn show_hex(n: u64, width: usize, upper: bool) -> (r: String)
    ensures
        r@ == hex(n as nat, width as nat, upper),
    decreases width,
{
    if width == 0 {
        return String::new();
    }
    let mut out = show_hex(n / 16, width - 1, upper);
    out.push(digit_of((n % 16) as u8, upper));
    out
}

/// The notation has `width` characters, each a hexadecimal digit.
pub proof fn law_hex_is_digits(n: nat, width: nat, upper: bool)
    ensures
        hex(n, width, upper).len() == width,
        forall|i: int|
            0 <= i < width ==> exists|d: nat|
                d < 16 && #[trigger] hex(n, width, upper)[i] == #[trigger] hex_digit(d, upper),
    decreases width,
{
    if width > 0 {
        law_hex_is_digits(n / 16, (width - 1) as nat, upper);
        let before = hex(n / 16, (width - 1) as nat, upper);
        assert forall|i: int| 0 <= i < width implies exists|d: nat|
            d < 16 && #[trigger] hex(n, width, upper)[i] == #[trigger] hex_digit(d, upper) by {
            if i < width - 1 {
                assert(hex(n, width, upper)[i] == before[i]);
                let d = choose|d: nat| d < 16 && before[i] == #[trigger] hex_digit(d, upper);
                assert(hex(n, width, upper)[i] == hex_digit(d, upper));
            } else {
                assert(hex(n, width, upper)[i] == hex_digit(n % 16, upper));
            }
        }
    }
}

/// Two numbers of no more than `width` digits with the same notation are the same.
pub proof fn law_hex_tells_apart(m: nat, n: nat, width: nat, upper: bool)
    requires
        m < pow16(width),
        n < pow16(width),
        hex(m, width, upper) == hex(n, width, upper),
    ensures
        m == n,
    decreases width,
{
    if width > 0 {
        let a = hex(m / 16, (width - 1) as nat, upper);
        let b = hex(n / 16, (width - 1) as nat, upper);
        law_hex_is_digits(m / 16, (width - 1) as nat, upper);
        law_hex_is_digits(n / 16, (width - 1) as nat, upper);
        assert(a =~= hex(m, width, upper).drop_last());
        assert(b =~= hex(n, width, upper).drop_last());
        assert(hex(m, width, upper).last() == hex_digit(m % 16, upper));
        assert(hex(n, width, upper).last() == hex_digit(n % 16, upper));
        law_hex_tells_apart(m / 16, n / 16, (width - 1) as nat, upper);
    }
}

/// The value of a hexadecimal digit.
pub open spec fn hex_value(b: u8) -> Option<u8> {
    if 48 <= b <= 57 {
        Some((b - 48) as u8)
    } else if 97 <= b <= 102 {
        Some((b - 87) as u8)
    } else if 65 <= b <= 70 {
        Some((b - 55) as u8)
    } else {
        None
    }
}

/// The value of a hexadecimal digit.
pub fn hex_val(b: u8) -> (r: Option<u8>)
    ensures
        r == hex_value(b),
{
    if 48 <= b && b <= 57 {
        Some(b - 48)
    } else if 97 <= b && b <= 102 {
        Some(b - 87)
    } else if 65 <= b && b <= 70 {
        Some(b - 55)
    } else {
        None
    }
}

// ───────────────────────── encoding ─────────────────────────

/// A byte that stands for itself: a letter, a digit, or one of `-_.~`.
pub open spec fn unreserved(b: u8) -> bool {
    ||| 65 <= b <= 90
    ||| 97 <= b <= 122
    ||| 48 <= b <= 57
    ||| b == 45
    ||| b == 95
    ||| b == 46
    ||| b == 126
}

/// What stands for a byte: itself, or a percent sign and two digits.
pub open spec fn escaped_byte(b: u8) -> Seq<char> {
    if unreserved(b) {
        seq![b as char]
    } else {
        seq!['%'] + hex(b as nat, 2, true)
    }
}

/// The percent encoding of a run of bytes.
pub open spec fn escaped(data: Seq<u8>) -> Seq<char>
    decreases data.len(),
{
    if data.len() == 0 {
        Seq::empty()
    } else {
        escaped(data.drop_last()) + escaped_byte(data.last())
    }
}

/// The percent encoding of a text's UTF-8 form.
pub fn url_encode(s: &str) -> (r: String)
    ensures
        r@ == escaped(encode_utf8(s@)),
{
    let data = s.as_bytes();
    let mut out = String::new();
    let mut i: usize = 0;
    while i < data.len()
        invariant
            i <= data@.len(),
            out@ == escaped(data@.take(i as int)),
        decreases data@.len() - i,
    {
        let b: u8 = data[i];
        proof {
            assert(data@.take(i + 1).drop_last() =~= data@.take(i as int));
        }
        if (65 <= b && b <= 90) || (97 <= b && b <= 122) || (48 <= b && b <= 57) || b == 45 || b
            == 95 || b == 46 || b == 126 {
            out.push(b as char);
        } else {
            let ghost before = out@;
            out.push('%');
            let digits = show_hex(b as u64, 2, true);
            out.append(digits.as_str());
            proof {
                assert(out@ =~= before + escaped_byte(b));
            }
        }
        i += 1;
    }
    proof {
        assert(data@.take(data@.len() as int) =~= data@);
    }
    out
}

// ───────────────────────── decoding ─────────────────────────

/// What a percent-encoded run of bytes stands for: a plus sign for a space, a
/// percent sign and two digits for the character with that number, and any other
/// byte for the character with its number. A percent sign without two digits after
/// it stands for itself, and so do the bytes after it.
pub open spec fn unescaped(data: Seq<u8>) -> Seq<char>
    decreases data.len(),
{
    if data.len() == 0 {
        Seq::empty()
    } else if data[0] == 43 {
        seq![' '] + unescaped(after(data, 1))
    } else if data[0] != 37 {
        seq![data[0] as char] + unescaped(after(data, 1))
    } else if data.len() == 1 {
        seq!['%']
    } else if data.len() == 2 {
        seq!['%', data[1] as char]
    } else {
        (match (hex_value(data[1]), hex_value(data[2])) {
            (Some(a), Some(b)) => seq![(16 * a + b) as char],
            _ => seq!['%', data[1] as char, data[2] as char],
        }) + unescaped(after(data, 3))
    }
}

/// What a percent-encoded text stands for.
pub fn url_decode(s: &str) -> (r: String)
    ensures
        r@ == unescaped(encode_utf8(s@)),
{
    let data = s.as_bytes();
    let n: usize = data.len();
    let mut out = String::new();
    let mut i: usize = 0;
    proof {
        assert(after(data@, 0) =~= data@);
    }
    while i < n
        invariant
            n == data@.len(),
            i <= n,
            out@ + unescaped(after(data@, i as int)) == unescaped(data@),
        decreases n - i,
    {
        let b: u8 = data[i];
        let ghost before = out@;
        let ghost rest = after(data@, i as int);
        if b == 43 {
            out.push(' ');
            i += 1;
            proof {
                assert(after(rest, 1) =~= after(data@, i as int));
                assert(out@ + unescaped(after(data@, i as int)) =~= before + unescaped(rest));
            }
        } else if b != 37 {
            out.push(b as char);
            i += 1;
            proof {
                assert(after(rest, 1) =~= after(data@, i as int));
                assert(out@ + unescaped(after(data@, i as int)) =~= before + unescaped(rest));
            }
        } else if n - i == 1 {
            out.push('%');
            i += 1;
            proof {
                assert(after(data@, i as int) =~= Seq::empty());
                assert(out@ + unescaped(after(data@, i as int)) =~= before + unescaped(rest));
            }
        } else if n - i == 2 {
            out.push('%');
            out.push(data[i + 1] as char);
            i += 2;
            proof {
                assert(after(data@, i as int) =~= Seq::empty());
                assert(out@ + unescaped(after(data@, i as int)) =~= before + unescaped(rest));
            }
        } else {
            let x: u8 = data[i + 1];
            let y: u8 = data[i + 2];
            match (hex_val(x), hex_val(y)) {
                (Some(a), Some(b)) => out.push((16 * a + b) as char),
                _ => {
                    out.push('%');
                    out.push(x as char);
                    out.push(y as char);
                },
            }
            i += 3;
            proof {
                assert(after(rest, 3) =~= after(data@, i as int));
                assert(out@ + unescaped(after(data@, i as int)) =~= before + unescaped(rest));
            }
        }
    }
    proof {
        assert(after(data@, n as int) =~= Seq::empty());
        assert(out@ + Seq::<char>::empty() =~= out@);
    }
    out
}

/// The characters whose numbers the bytes are.
pub open spec fn wide(data: Seq<u8>) -> Seq<char> {
    data.map_values(|b: u8| b as char)
}

/// The bytes of a text made of characters below 128.
pub open spec fn narrow(s: Seq<char>) -> Seq<u8> {
    s.map_values(|c: char| c as u8)
}

proof fn lemma_escaped_byte(b: u8)
    ensures
        is_ascii_chars(escaped_byte(b)),
        !unreserved(b) ==> escaped_byte(b).len() == 3 && escaped_byte(b)[0] == '%' && hex_value(
            escaped_byte(b)[1] as u8,
        ) == Some((b / 16) as u8) && hex_value(escaped_byte(b)[2] as u8) == Some((b % 16) as u8),
{
    if !unreserved(b) {
        reveal_with_fuel(hex, 3);
        assert(hex(b as nat, 2, true) =~= seq![
            hex_digit((b / 16) as nat % 16, true),
            hex_digit((b % 16) as nat, true),
        ]);
    }
}

proof fn lemma_escaped_ascii(data: Seq<u8>)
    ensures
        is_ascii_chars(escaped(data)),
    decreases data.len(),
{
    if data.len() > 0 {
        lemma_escaped_ascii(data.drop_last());
        lemma_escaped_byte(data.last());
    }
}

/// The percent encoding, byte by byte from the front.
proof fn lemma_escaped_front(data: Seq<u8>)
    requires
        data.len() > 0,
    ensures
        escaped(data) == escaped_byte(data[0]) + escaped(after(data, 1)),
    decreases data.len(),
{
    if data.len() == 1 {
        assert(data.drop_last() =~= Seq::empty());
        assert(after(data, 1) =~= Seq::empty());
        assert(escaped(data) =~= escaped_byte(data[0]) + escaped(after(data, 1)));
    } else {
        lemma_escaped_front(data.drop_last());
        assert(after(data, 1).drop_last() =~= after(data.drop_last(), 1));
        assert(escaped(data) =~= escaped_byte(data[0]) + escaped(after(data, 1)));
    }
}

proof fn lemma_unescape_escaped(data: Seq<u8>)
    ensures
        unescaped(narrow(escaped(data))) == wide(data),
    decreases data.len(),
{
    if data.len() == 0 {
        assert(narrow(escaped(data)) =~= Seq::empty());
        assert(wide(data) =~= Seq::empty());
    } else {
        let b = data[0];
        let rest = after(data, 1);
        let text = narrow(escaped(data));
        lemma_escaped_front(data);
        lemma_escaped_byte(b);
        lemma_unescape_escaped(rest);
        assert(wide(data) =~= seq![b as char] + wide(rest));
        if unreserved(b) {
            assert(after(text, 1) =~= narrow(escaped(rest)));
            assert(text[0] == b);
        } else {
            assert(after(text, 3) =~= narrow(escaped(rest)));
            assert(text[0] == 37);
            assert(text[1] == escaped_byte(b)[1] as u8);
            assert(text[2] == escaped_byte(b)[2] as u8);
            assert(16 * (b / 16) + b % 16 == b);
        }
    }
}

/// Decoding undoes encoding, for a text of ASCII characters.
pub proof fn law_encoding_reads_back(s: Seq<char>)
    requires
        is_ascii_chars(s),
    ensures
        unescaped(encode_utf8(escaped(encode_utf8(s)))) == s,
{
    let data = encode_utf8(s);
    is_ascii_chars_encode_utf8(s);
    lemma_escaped_ascii(data);
    is_ascii_chars_encode_utf8(escaped(data));
    assert(encode_utf8(escaped(data)) =~= narrow(escaped(data)));
    lemma_unescape_escaped(data);
    assert(wide(data) =~= s);
}

/// An encoded text is made of unreserved characters and percent signs, so that none
/// of the signs that separate the parts of an address or a form stands in it.
pub proof fn law_encoding_leaves_no_separator(data: Seq<u8>)
    ensures
        forall|i: int|
            0 <= i < escaped(data).len() ==> (#[trigger] escaped(data)[i] == '%' || unreserved(
                escaped(data)[i] as u8,
            )),
    decreases data.len(),
{
    if data.len() > 0 {
        law_encoding_leaves_no_separator(data.drop_last());
        lemma_escaped_byte(data.last());
        let a = escaped(data.drop_last());
        let b = escaped_byte(data.last());
        assert forall|i: int| 0 <= i < escaped(data).len() implies (#[trigger] escaped(data)[i]
            == '%' || unreserved(escaped(data)[i] as u8)) by {
            if i < a.len() {
                assert(escaped(data)[i] == a[i]);
            } else {
                assert(escaped(data)[i] == b[i - a.len()]);
            }
        }
    }
}

} // verus!
