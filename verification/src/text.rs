//! Text as a sequence of characters: searching, cutting, trimming, and the
//! decimal and hexadecimal notation of integers.
//!
//! The view of a `str` or `String` is its sequence of characters, and every
//! function here is specified over that view.
use vstd::prelude::*;

verus! {

broadcast use vstd::string::group_string_axioms;

// ───────────────────────── characters ─────────────────────────

/// The characters with the Unicode `White_Space` property.
pub open spec fn white(c: char) -> bool {
    let n = c as u32;
    ||| 0x09 <= n <= 0x0D
    ||| n == 0x20
    ||| n == 0x85
    ||| n == 0xA0
    ||| n == 0x1680
    ||| 0x2000 <= n <= 0x200A
    ||| n == 0x2028
    ||| n == 0x2029
    ||| n == 0x202F
    ||| n == 0x205F
    ||| n == 0x3000
}

/// True of the characters with the Unicode `White_Space` property.
pub fn is_white(c: char) -> (r: bool)
    ensures
        r == white(c),
{
    let n: u32 = c as u32;
    (0x09 <= n && n <= 0x0D) || n == 0x20 || n == 0x85 || n == 0xA0 || n == 0x1680 || (0x2000 <= n
        && n <= 0x200A) || n == 0x2028 || n == 0x2029 || n == 0x202F || n == 0x205F || n == 0x3000
}

pub open spec fn digit(c: char) -> bool {
    '0' <= c <= '9'
}

pub open spec fn digit_value(c: char) -> nat {
    (c as u32 - '0' as u32) as nat
}

/// The decimal digit that stands for `n`, for `n` below ten.
pub open spec fn digit_char(n: nat) -> char {
    (('0' as u32 + n) as u32) as char
}

// ───────────────────────── building strings ─────────────────────────

/// `String::push` appends the character to the end of the string.
pub assume_specification[ std::string::String::push ](s: &mut std::string::String, c: char)
    ensures
        final(s)@ == old(s)@.push(c),
;

/// The characters of `s`, in order.
pub fn chars_of(s: &str) -> (r: Vec<char>)
    ensures
        r@ == s@,
{
    let mut out: Vec<char> = Vec::new();
    for c in it: s.chars()
        invariant
            it.seq() == s@,
            out@ == s@.take(it.index() as int),
    {
        out.push(c);
    }
    out
}

/// The string made of the characters of `v` from `from` up to `to`.
pub fn string_of(v: &Vec<char>, from: usize, to: usize) -> (r: String)
    requires
        from <= to <= v@.len(),
    ensures
        r@ == v@.subrange(from as int, to as int),
{
    let mut out = String::new();
    let mut i: usize = from;
    while i < to
        invariant
            from <= i <= to <= v@.len(),
            out@ == v@.subrange(from as int, i as int),
        decreases to - i,
    {
        out.push(v[i]);
        i += 1;
    }
    out
}

/// Joins two pieces of text.
pub fn join2(a: &str, b: &str) -> (r: String)
    ensures
        r@ == a@ + b@,
{
    let mut out = a.to_owned();
    out.append(b);
    out
}

/// Joins three pieces of text.
pub fn join3(a: &str, b: &str, c: &str) -> (r: String)
    ensures
        r@ == a@ + b@ + c@,
{
    let mut out = join2(a, b);
    out.append(c);
    out
}

/// True where the two texts have the same characters.
pub fn same(a: &str, b: &str) -> (r: bool)
    ensures
        r == (a@ == b@),
{
    let x = a.to_owned();
    let y = b.to_owned();
    x == y
}

// ───────────────────────── searching ─────────────────────────

/// `p` stands in `s` at position `i`.
pub open spec fn occurs_at<T>(s: Seq<T>, p: Seq<T>, i: int) -> bool {
    0 <= i && i + p.len() <= s.len() && s.subrange(i, i + p.len()) == p
}

/// The first position from `i` on at which `p` stands in `s`.
pub open spec fn find_from<T>(s: Seq<T>, p: Seq<T>, i: int) -> Option<int>
    decreases s.len() + 1 - i,
{
    if i < 0 || i + p.len() > s.len() {
        None
    } else if occurs_at(s, p, i) {
        Some(i)
    } else {
        find_from(s, p, i + 1)
    }
}

pub open spec fn find<T>(s: Seq<T>, p: Seq<T>) -> Option<int> {
    find_from(s, p, 0)
}

pub open spec fn holds<T>(s: Seq<T>, p: Seq<T>) -> bool {
    find(s, p) is Some
}

pub open spec fn starts<T>(s: Seq<T>, p: Seq<T>) -> bool {
    occurs_at(s, p, 0)
}

pub open spec fn ends<T>(s: Seq<T>, p: Seq<T>) -> bool {
    occurs_at(s, p, s.len() - p.len())
}

/// What follows the first `n` characters.
pub open spec fn after<T>(s: Seq<T>, n: int) -> Seq<T> {
    s.subrange(n, s.len() as int)
}

/// The first position at which `p` stands is the one that [`find_from`] gives,
/// and there is none where it gives none.
pub proof fn lemma_find_from<T>(s: Seq<T>, p: Seq<T>, i: int)
    requires
        0 <= i,
    ensures
        match find_from(s, p, i) {
            Some(k) => i <= k && occurs_at(s, p, k) && forall|j: int|
                i <= j < k ==> !#[trigger] occurs_at(s, p, j),
            None => forall|j: int| i <= j ==> !#[trigger] occurs_at(s, p, j),
        },
    decreases s.len() + 1 - i,
{
    if i + p.len() <= s.len() && !occurs_at(s, p, i) {
        lemma_find_from(s, p, i + 1);
    }
}

/// True where `p` stands in `s` at position `i`.
pub fn occurs(s: &Vec<char>, p: &Vec<char>, i: usize) -> (r: bool)
    ensures
        r == occurs_at(s@, p@, i as int),
{
    if i > s.len() || s.len() - i < p.len() {
        return false;
    }
    let n: usize = s.len();
    let mut k: usize = 0;
    while k < p.len()
        invariant
            n == s@.len(),
            k <= p@.len(),
            i + p@.len() <= n,
            s@.subrange(i as int, i + k) == p@.take(k as int),
        decreases p@.len() - k,
    {
        if s[i + k] != p[k] {
            proof {
                assert(s@.subrange(i as int, i + p@.len())[k as int] != p@[k as int]);
            }
            return false;
        }
        proof {
            assert(s@.subrange(i as int, i + k + 1) =~= s@.subrange(i as int, i + k).push(
                s@[i + k],
            ));
            assert(p@.take(k + 1) =~= p@.take(k as int).push(p@[k as int]));
        }
        k += 1;
    }
    proof {
        assert(p@.take(p@.len() as int) =~= p@);
    }
    true
}

/// The first position from `from` on at which `p` stands in `s`.
pub fn position(s: &Vec<char>, p: &Vec<char>, from: usize) -> (r: Option<usize>)
    ensures
        match r {
            Some(i) => find_from(s@, p@, from as int) == Some(i as int) && from <= i && i + p@.len()
                <= s@.len(),
            None => find_from(s@, p@, from as int) is None,
        },
{
    let mut i: usize = from;
    while i <= s.len() && p.len() <= s.len() - i
        invariant
            from <= i,
            find_from(s@, p@, from as int) == find_from(s@, p@, i as int),
        decreases s@.len() + 1 - i,
    {
        if occurs(s, p, i) {
            return Some(i);
        }
        if i == s.len() {
            proof {
                assert(s@.subrange(i as int, i as int) =~= p@);
            }
            return None;
        }
        i += 1;
    }
    None
}

/// The first position of `p` in `s`, counted in characters.
pub fn find_str(s: &str, p: &str) -> (r: Option<usize>)
    ensures
        match r {
            Some(i) => find(s@, p@) == Some(i as int) && i + p@.len() <= s@.len(),
            None => find(s@, p@) is None,
        },
{
    let a = chars_of(s);
    let b = chars_of(p);
    position(&a, &b, 0)
}

/// True where `p` stands somewhere in `s`.
pub fn contains(s: &str, p: &str) -> (r: bool)
    ensures
        r == holds(s@, p@),
{
    find_str(s, p).is_some()
}

/// True where `s` begins with `p`.
pub fn starts_with(s: &str, p: &str) -> (r: bool)
    ensures
        r == starts(s@, p@),
{
    let a = chars_of(s);
    let b = chars_of(p);
    occurs(&a, &b, 0)
}

/// True where `s` ends with `p`.
pub fn ends_with(s: &str, p: &str) -> (r: bool)
    ensures
        r == ends(s@, p@),
{
    let a = chars_of(s);
    let b = chars_of(p);
    if a.len() < b.len() {
        return false;
    }
    occurs(&a, &b, a.len() - b.len())
}

/// What follows the prefix `p`, where `s` begins with it.
pub open spec fn without_prefix(s: Seq<char>, p: Seq<char>) -> Option<Seq<char>> {
    if starts(s, p) {
        Some(after(s, p.len() as int))
    } else {
        None
    }
}

pub open spec fn text_opt(s: Option<String>) -> Option<Seq<char>> {
    match s {
        Some(t) => Some(t@),
        None => None,
    }
}

/// The text, or none.
pub open spec fn or_empty(s: Option<Seq<char>>) -> Seq<char> {
    match s {
        Some(t) => t,
        None => Seq::empty(),
    }
}

/// A copy of an optional text.
pub fn copy_opt(s: &Option<String>) -> (r: Option<String>)
    ensures
        text_opt(r) == text_opt(*s),
        r == *s,
{
    match s {
        Some(t) => Some(t.clone()),
        None => None,
    }
}

/// A copy of an optional text, empty where there is none.
pub fn text_or_empty(s: &Option<String>) -> (r: String)
    ensures
        r@ == or_empty(text_opt(*s)),
{
    match s {
        Some(t) => t.clone(),
        None => String::new(),
    }
}

/// What follows the prefix `p`, where `s` begins with it.
pub fn strip_prefix(s: &str, p: &str) -> (r: Option<String>)
    ensures
        text_opt(r) == without_prefix(s@, p@),
{
    let a = chars_of(s);
    let b = chars_of(p);
    if occurs(&a, &b, 0) {
        Some(string_of(&a, b.len(), a.len()))
    } else {
        None
    }
}

/// What precedes the suffix `p`, where `s` ends with it.
pub open spec fn without_suffix(s: Seq<char>, p: Seq<char>) -> Option<Seq<char>> {
    if ends(s, p) {
        Some(s.take(s.len() - p.len()))
    } else {
        None
    }
}

/// What precedes the suffix `p`, where `s` ends with it.
pub fn strip_suffix(s: &str, p: &str) -> (r: Option<String>)
    ensures
        text_opt(r) == without_suffix(s@, p@),
{
    let a = chars_of(s);
    let b = chars_of(p);
    if a.len() >= b.len() && occurs(&a, &b, a.len() - b.len()) {
        let r = string_of(&a, 0, a.len() - b.len());
        proof {
            assert(r@ =~= s@.take(s@.len() - p@.len()));
        }
        Some(r)
    } else {
        None
    }
}

/// The characters of `s` from `from` up to `to`.
pub fn cut(s: &str, from: usize, to: usize) -> (r: String)
    requires
        from <= to <= s@.len(),
    ensures
        r@ == s@.subrange(from as int, to as int),
{
    let a = chars_of(s);
    string_of(&a, from, to)
}

/// The number of bytes of a character in UTF-8.
pub open spec fn utf8_width(c: char) -> nat {
    let n = c as u32;
    if n < 0x80 {
        1
    } else if n < 0x800 {
        2
    } else if n < 0x10000 {
        3
    } else {
        4
    }
}

/// The number of bytes of a text in UTF-8.
pub open spec fn utf8_size(s: Seq<char>) -> nat
    decreases s.len(),
{
    if s.len() == 0 {
        0
    } else {
        utf8_size(s.drop_last()) + utf8_width(s.last())
    }
}

/// The longest beginning of `s` that has no more than `n` bytes in UTF-8.
pub open spec fn within(s: Seq<char>, n: nat) -> Seq<char>
    decreases s.len(),
{
    if s.len() == 0 || utf8_size(s) <= n {
        s
    } else {
        within(s.drop_last(), n)
    }
}

/// The number of bytes of a character in UTF-8.
pub fn width_of(c: char) -> (r: usize)
    ensures
        r == utf8_width(c),
{
    let n: u32 = c as u32;
    if n < 0x80 {
        1
    } else if n < 0x800 {
        2
    } else if n < 0x10000 {
        3
    } else {
        4
    }
}

proof fn lemma_size_grows(s: Seq<char>, i: int)
    requires
        0 <= i <= s.len(),
    ensures
        utf8_size(s.take(i)) + (s.len() - i) <= utf8_size(s),
    decreases s.len() - i,
{
    if i == s.len() {
        assert(s.take(i) =~= s);
    } else {
        lemma_size_grows(s, i + 1);
        assert(s.take(i + 1).drop_last() =~= s.take(i));
    }
}

proof fn lemma_within(s: Seq<char>, n: nat, i: int)
    requires
        0 <= i <= s.len(),
        utf8_size(s.take(i)) <= n,
        i < s.len() ==> utf8_size(s.take(i + 1)) > n,
    ensures
        within(s, n) == s.take(i),
    decreases s.len(),
{
    if i == s.len() {
        assert(s.take(i) =~= s);
    } else {
        lemma_size_grows(s, i + 1);
        let t = s.drop_last();
        assert(t.take(i) =~= s.take(i));
        if i + 1 < s.len() {
            assert(t.take(i + 1) =~= s.take(i + 1));
        }
        lemma_within(t, n, i);
    }
}

/// The longest beginning of `s` that has no more than `n` bytes in UTF-8.
pub fn cut_bytes(s: &str, n: usize) -> (r: String)
    ensures
        r@ == within(s@, n as nat),
{
    let v = chars_of(s);
    let mut size: usize = 0;
    let mut i: usize = 0;
    while i < v.len()
        invariant
            v@ == s@,
            i <= v@.len(),
            size == utf8_size(s@.take(i as int)),
            size <= n,
        decreases v@.len() - i,
    {
        let w: usize = width_of(v[i]);
        proof {
            assert(s@.take(i + 1).drop_last() =~= s@.take(i as int));
        }
        if w > n - size {
            proof {
                lemma_within(s@, n as nat, i as int);
            }
            return string_of(&v, 0, i);
        }
        size += w;
        i += 1;
    }
    proof {
        lemma_within(s@, n as nat, i as int);
    }
    string_of(&v, 0, i)
}

/// The bytes of two texts in a row are those of the one and of the other.
pub proof fn lemma_size_of_sum(a: Seq<char>, b: Seq<char>)
    ensures
        utf8_size(a + b) == utf8_size(a) + utf8_size(b),
    decreases b.len(),
{
    if b.len() == 0 {
        assert(a + b =~= a);
    } else {
        lemma_size_of_sum(a, b.drop_last());
        assert((a + b).drop_last() =~= a + b.drop_last());
    }
}

/// What a text begins with is found again by its number of bytes.
pub proof fn lemma_within_beginning(s: Seq<char>, i: int)
    requires
        0 <= i <= s.len(),
    ensures
        within(s, utf8_size(s.take(i))) == s.take(i),
{
    if i < s.len() {
        assert(s.take(i + 1).drop_last() =~= s.take(i));
    }
    lemma_within(s, utf8_size(s.take(i)), i);
}

/// The longest beginning of a text is a beginning of it.
pub proof fn lemma_within_is_beginning(s: Seq<char>, n: nat)
    ensures
        within(s, n).len() <= s.len(),
        within(s, n) == s.take(within(s, n).len() as int),
        utf8_size(within(s, n)) <= n,
    decreases s.len(),
{
    if s.len() == 0 || utf8_size(s) <= n {
        assert(s.take(s.len() as int) =~= s);
    } else {
        let t = s.drop_last();
        lemma_within_is_beginning(t, n);
        assert(t.take(within(t, n).len() as int) =~= s.take(within(t, n).len() as int));
    }
}

proof fn lemma_size_is_length(s: Seq<char>)
    ensures
        utf8_size(s) == vstd::utf8::encode_utf8(s).len(),
    decreases s.len(),
{
    if s.len() > 0 {
        let rest = s.drop_first();
        lemma_size_is_length(rest);
        let first = seq![s[0]];
        lemma_size_of_sum(first, rest);
        assert(first + rest =~= s);
        assert(first.drop_last() =~= Seq::<char>::empty());
        assert(utf8_size(first.drop_last()) == 0);
        assert(utf8_size(first) == utf8_width(s[0]));
        vstd::utf8::char_is_scalar(s[0]);
        assert(vstd::utf8::encode_scalar(s[0] as u32).len() == utf8_width(s[0]));
    }
}

/// The number of bytes of a text in UTF-8.
pub fn size_of(s: &str) -> (r: usize)
    ensures
        r == utf8_size(s@),
{
    proof {
        lemma_size_is_length(s@);
    }
    s.as_bytes().len()
}

/// What stands behind the first `marker` in `s`, up to the next quotation mark.
pub open spec fn quoted(s: Seq<char>, marker: Seq<char>) -> Option<Seq<char>> {
    match find(s, marker) {
        Some(i) => {
            let rest = after(s, i + marker.len());
            match find(rest, seq!['"']) {
                Some(end) => Some(rest.take(end)),
                None => None,
            }
        },
        None => None,
    }
}

/// What stands behind the first `marker` in `s`, up to the next quotation mark.
pub fn quoted_after(s: &str, marker: &str) -> (r: Option<String>)
    ensures
        text_opt(r) == quoted(s@, marker@),
{
    let v = chars_of(s);
    let m = chars_of(marker);
    let n: usize = v.len();
    let start: usize = match position(&v, &m, 0) {
        Some(i) => i + m.len(),
        None => return None,
    };
    let rest = string_of(&v, start, n);
    proof {
        assert(rest@ =~= after(s@, start as int));
        reveal_strlit("\"");
        assert("\""@ =~= seq!['"']);
    }
    match find_str(rest.as_str(), "\"") {
        Some(end) => {
            let r = cut(rest.as_str(), 0, end);
            proof {
                assert(r@ =~= rest@.take(end as int));
            }
            Some(r)
        },
        None => None,
    }
}

// ───────────────────────── trimming ─────────────────────────

/// `s` without the white characters at its start.
pub open spec fn trimmed_start(s: Seq<char>) -> Seq<char>
    decreases s.len(),
{
    if s.len() > 0 && white(s[0]) {
        trimmed_start(s.drop_first())
    } else {
        s
    }
}

/// `s` without the white characters at its end.
pub open spec fn trimmed_end(s: Seq<char>) -> Seq<char>
    decreases s.len(),
{
    if s.len() > 0 && white(s.last()) {
        trimmed_end(s.drop_last())
    } else {
        s
    }
}

/// `s` without the white characters at either end.
pub open spec fn trimmed(s: Seq<char>) -> Seq<char> {
    trimmed_end(trimmed_start(s))
}

/// `v` without the white characters at either end.
pub fn trim_chars(v: &Vec<char>) -> (r: (usize, usize))
    ensures
        r.0 <= r.1 <= v@.len(),
        v@.subrange(r.0 as int, r.1 as int) == trimmed(v@),
{
    let mut a: usize = 0;
    proof {
        assert(v@.subrange(0, v@.len() as int) =~= v@);
    }
    while a < v.len() && is_white(v[a])
        invariant
            a <= v@.len(),
            trimmed_start(v@) == trimmed_start(v@.subrange(a as int, v@.len() as int)),
        decreases v@.len() - a,
    {
        proof {
            assert(v@.subrange(a as int, v@.len() as int).drop_first() =~= v@.subrange(
                a + 1,
                v@.len() as int,
            ));
        }
        a += 1;
    }
    let mut b: usize = v.len();
    while b > a && is_white(v[b - 1])
        invariant
            a <= b <= v@.len(),
            trimmed_end(v@.subrange(a as int, v@.len() as int)) == trimmed_end(
                v@.subrange(a as int, b as int),
            ),
        decreases b,
    {
        proof {
            assert(v@.subrange(a as int, b as int).drop_last() =~= v@.subrange(a as int, b - 1));
        }
        b -= 1;
    }
    (a, b)
}

/// `s` without the white characters at either end.
pub fn trim(s: &str) -> (r: String)
    ensures
        r@ == trimmed(s@),
{
    let v = chars_of(s);
    let (a, b) = trim_chars(&v);
    string_of(&v, a, b)
}

/// `s` without the characters `c` at its end.
pub open spec fn without_trailing(s: Seq<char>, c: char) -> Seq<char>
    decreases s.len(),
{
    if s.len() > 0 && s.last() == c {
        without_trailing(s.drop_last(), c)
    } else {
        s
    }
}

/// `s` without the characters `c` at its end.
pub fn trim_end_matches(s: &str, c: char) -> (r: String)
    ensures
        r@ == without_trailing(s@, c),
{
    let v = chars_of(s);
    let mut b: usize = v.len();
    proof {
        assert(v@.take(v@.len() as int) =~= v@);
    }
    while b > 0 && v[b - 1] == c
        invariant
            b <= v@.len(),
            without_trailing(v@, c) == without_trailing(v@.take(b as int), c),
        decreases b,
    {
        proof {
            assert(v@.take(b as int).drop_last() =~= v@.take(b - 1));
        }
        b -= 1;
    }
    let r = string_of(&v, 0, b);
    proof {
        assert(r@ =~= v@.take(b as int));
    }
    r
}

/// `s` without the characters `c` at its start.
pub open spec fn without_leading(s: Seq<char>, c: char) -> Seq<char>
    decreases s.len(),
{
    if s.len() > 0 && s[0] == c {
        without_leading(s.drop_first(), c)
    } else {
        s
    }
}

/// `s` without the characters `c` at its start.
pub fn trim_start_matches(s: &str, c: char) -> (r: String)
    ensures
        r@ == without_leading(s@, c),
{
    let v = chars_of(s);
    let mut a: usize = 0;
    proof {
        assert(v@.subrange(0, v@.len() as int) =~= v@);
    }
    while a < v.len() && v[a] == c
        invariant
            a <= v@.len(),
            without_leading(v@, c) == without_leading(v@.subrange(a as int, v@.len() as int), c),
        decreases v@.len() - a,
    {
        proof {
            assert(v@.subrange(a as int, v@.len() as int).drop_first() =~= v@.subrange(
                a + 1,
                v@.len() as int,
            ));
        }
        a += 1;
    }
    string_of(&v, a, v.len())
}

// ───────────────────────── splitting ─────────────────────────

/// `s` without the copies of `p` at its start.
pub open spec fn without_copies(s: Seq<char>, p: Seq<char>) -> Seq<char>
    decreases s.len(),
{
    if p.len() > 0 && starts(s, p) {
        without_copies(after(s, p.len() as int), p)
    } else {
        s
    }
}

/// `s` without the copies of `p` at its start.
pub fn trim_copies(s: &str, p: &str) -> (r: String)
    ensures
        r@ == without_copies(s@, p@),
{
    let v = chars_of(s);
    let q = chars_of(p);
    let n: usize = v.len();
    let mut i: usize = 0;
    proof {
        assert(after(s@, 0) =~= s@);
    }
    while q.len() > 0 && occurs(&v, &q, i)
        invariant
            v@ == s@,
            q@ == p@,
            n == v@.len(),
            i <= n,
            without_copies(s@, p@) == without_copies(after(s@, i as int), p@),
        decreases n - i,
    {
        let ghost rest = after(s@, i as int);
        proof {
            assert(rest.subrange(0, p@.len() as int) =~= s@.subrange(i as int, i + p@.len()));
            assert(after(rest, p@.len() as int) =~= after(s@, i + p@.len()));
        }
        i += q.len();
    }
    proof {
        let rest = after(s@, i as int);
        if p@.len() > 0 && starts(rest, p@) {
            assert(rest.subrange(0, p@.len() as int) =~= s@.subrange(i as int, i + p@.len()));
        }
    }
    string_of(&v, i, n)
}

/// The views of a list of strings.
pub open spec fn texts(v: Seq<String>) -> Seq<Seq<char>> {
    v.map_values(|s: String| s@)
}

/// The pieces of `s` between the separators `c`: one more than there are
/// separators.
pub open spec fn pieces(s: Seq<char>, c: char) -> Seq<Seq<char>>
    decreases s.len(),
{
    if s.len() == 0 {
        seq![s]
    } else if s.last() == c {
        pieces(s.drop_last(), c).push(Seq::empty())
    } else {
        let before = pieces(s.drop_last(), c);
        before.update(before.len() - 1, before.last().push(s.last()))
    }
}

proof fn lemma_pieces_some(s: Seq<char>, c: char)
    ensures
        pieces(s, c).len() > 0,
    decreases s.len(),
{
    if s.len() > 0 {
        lemma_pieces_some(s.drop_last(), c);
    }
}

/// The pieces of `s` between the separators `c`.
pub fn split(s: &str, c: char) -> (r: Vec<String>)
    ensures
        texts(r@) == pieces(s@, c),
        r@.len() > 0,
{
    let v = chars_of(s);
    let mut out: Vec<String> = Vec::new();
    let mut cur = String::new();
    let mut i: usize = 0;
    proof {
        assert(v@.take(0) =~= Seq::<char>::empty());
        assert(texts(out@).push(cur@) =~= pieces(v@.take(0), c));
    }
    while i < v.len()
        invariant
            i <= v@.len(),
            texts(out@).push(cur@) == pieces(v@.take(i as int), c),
        decreases v@.len() - i,
    {
        proof {
            assert(v@.take(i + 1).drop_last() =~= v@.take(i as int));
            lemma_pieces_some(v@.take(i as int), c);
        }
        let ghost done = texts(out@);
        let ghost piece = cur@;
        if v[i] == c {
            out.push(cur);
            cur = String::new();
            proof {
                assert(texts(out@) =~= done.push(piece));
                assert(texts(out@).push(cur@) =~= pieces(v@.take(i + 1), c));
            }
        } else {
            cur.push(v[i]);
            proof {
                assert(texts(out@).push(cur@) =~= pieces(v@.take(i + 1), c));
            }
        }
        i += 1;
    }
    proof {
        assert(v@.take(v@.len() as int) =~= v@);
    }
    let ghost done = texts(out@);
    let ghost piece = cur@;
    out.push(cur);
    proof {
        assert(texts(out@) =~= done.push(piece));
    }
    out
}

/// The two sides of the first separator `c` in `s`.
pub open spec fn sides(s: Seq<char>, c: char) -> Option<(Seq<char>, Seq<char>)> {
    match find(s, seq![c]) {
        Some(i) => Some((s.take(i), after(s, i + 1))),
        None => None,
    }
}

/// The two sides of the first separator `c` in `s`.
pub fn split_once(s: &str, c: char) -> (r: Option<(String, String)>)
    ensures
        match r {
            Some((a, b)) => sides(s@, c) == Some((a@, b@)),
            None => sides(s@, c) is None,
        },
{
    let v = chars_of(s);
    let mut p: Vec<char> = Vec::new();
    p.push(c);
    proof {
        assert(p@ =~= seq![c]);
    }
    match position(&v, &p, 0) {
        Some(i) => {
            let n: usize = v.len();
            let a = string_of(&v, 0, i);
            let b = string_of(&v, i + 1, n);
            proof {
                assert(a@ =~= s@.take(i as int));
            }
            Some((a, b))
        },
        None => None,
    }
}

/// The words of `s`: its longest runs without white characters.
pub open spec fn words(s: Seq<char>) -> Seq<Seq<char>>
    decreases s.len(),
{
    if s.len() == 0 {
        Seq::empty()
    } else if white(s.last()) {
        words(s.drop_last())
    } else if s.len() > 1 && !white(s[s.len() - 2]) {
        let before = words(s.drop_last());
        before.update(before.len() - 1, before.last().push(s.last()))
    } else {
        words(s.drop_last()).push(seq![s.last()])
    }
}

proof fn lemma_words_some(s: Seq<char>)
    ensures
        s.len() > 0 && !white(s.last()) ==> words(s).len() > 0,
    decreases s.len(),
{
    if s.len() > 0 {
        lemma_words_some(s.drop_last());
    }
}

/// The words of `s`: its longest runs without white characters.
pub fn split_whitespace(s: &str) -> (r: Vec<String>)
    ensures
        texts(r@) == words(s@),
{
    let v = chars_of(s);
    let mut out: Vec<String> = Vec::new();
    let mut cur = String::new();
    let mut i: usize = 0;
    proof {
        assert(v@.take(0) =~= Seq::<char>::empty());
        assert(texts(out@) =~= words(v@.take(0)));
    }
    while i < v.len()
        invariant
            i <= v@.len(),
            cur@.len() > 0 <==> i > 0 && !white(v@[i - 1]),
            words(v@.take(i as int)) == if cur@.len() > 0 {
                texts(out@).push(cur@)
            } else {
                texts(out@)
            },
        decreases v@.len() - i,
    {
        proof {
            assert(v@.take(i + 1).drop_last() =~= v@.take(i as int));
            assert(v@.take(i + 1).last() == v@[i as int]);
            lemma_words_some(v@.take(i as int));
            if i > 0 {
                assert(v@.take(i + 1)[i - 1] == v@[i - 1]);
            }
        }
        let ghost done = texts(out@);
        let ghost piece = cur@;
        if is_white(v[i]) {
            if !cur.as_str().is_empty() {
                out.push(cur);
                cur = String::new();
                proof {
                    assert(texts(out@) =~= done.push(piece));
                }
            }
        } else {
            cur.push(v[i]);
            proof {
                if piece.len() == 0 {
                    assert(cur@ =~= seq![v@[i as int]]);
                }
                assert(texts(out@).push(cur@) =~= words(v@.take(i + 1)));
            }
        }
        i += 1;
    }
    proof {
        assert(v@.take(v@.len() as int) =~= v@);
    }
    let ghost done = texts(out@);
    let ghost piece = cur@;
    if !cur.as_str().is_empty() {
        out.push(cur);
        proof {
            assert(texts(out@) =~= done.push(piece));
        }
    }
    out
}

/// A line without the carriage return that ends it, if one does.
pub open spec fn without_return(s: Seq<char>) -> Seq<char> {
    if s.len() > 0 && s.last() == '\r' {
        s.drop_last()
    } else {
        s
    }
}

/// The lines of `s`. A newline ends a line, with the carriage return before
/// it; what follows the last newline is a line of its own unless it is empty.
pub open spec fn lines(s: Seq<char>) -> Seq<Seq<char>> {
    let p = pieces(s, '\n');
    let ended = p.drop_last().map_values(|l: Seq<char>| without_return(l));
    if p.last().len() == 0 {
        ended
    } else {
        ended.push(p.last())
    }
}

/// The lines of `s`.
pub fn split_lines(s: &str) -> (r: Vec<String>)
    ensures
        texts(r@) == lines(s@),
{
    let p = split(s, '\n');
    let mut out: Vec<String> = Vec::new();
    let n: usize = p.len();
    let mut i: usize = 0;
    let ghost ended = texts(p@).drop_last().map_values(|l: Seq<char>| without_return(l));
    while i < n - 1
        invariant
            n == p@.len(),
            n > 0,
            i <= n - 1,
            ended == texts(p@).drop_last().map_values(|l: Seq<char>| without_return(l)),
            texts(out@) == ended.take(i as int),
        decreases n - 1 - i,
    {
        let ghost done = texts(out@);
        let v = chars_of(p[i].as_str());
        let mut b: usize = v.len();
        if b > 0 && v[b - 1] == '\r' {
            b -= 1;
        }
        let l = string_of(&v, 0, b);
        proof {
            assert(v@ == texts(p@)[i as int]);
            assert(l@ =~= without_return(v@));
        }
        out.push(l);
        proof {
            assert(texts(out@) =~= done.push(l@));
            assert(ended.take(i + 1) =~= ended.take(i as int).push(ended[i as int]));
        }
        i += 1;
    }
    let ghost done = texts(out@);
    proof {
        assert(ended.take(n - 1) =~= ended);
        assert(texts(p@).last() == p@[n - 1]@);
    }
    if !p[n - 1].as_str().is_empty() {
        let l = p[n - 1].clone();
        out.push(l);
        proof {
            assert(texts(out@) =~= done.push(l@));
        }
    }
    out
}

// ───────────────────────── joining ─────────────────────────

/// The pieces one after another, with `sep` between them.
pub open spec fn joined(p: Seq<Seq<char>>, sep: Seq<char>) -> Seq<char>
    decreases p.len(),
{
    if p.len() == 0 {
        Seq::empty()
    } else if p.len() == 1 {
        p[0]
    } else {
        joined(p.drop_last(), sep) + sep + p.last()
    }
}

/// The first `n` pieces one after another, with `sep` between them.
pub fn join(p: &Vec<String>, n: usize, sep: &str) -> (r: String)
    requires
        n <= p@.len(),
    ensures
        r@ == joined(texts(p@).take(n as int), sep@),
{
    let mut out = String::new();
    let mut i: usize = 0;
    while i < n
        invariant
            i <= n <= p@.len(),
            out@ == joined(texts(p@).take(i as int), sep@),
        decreases n - i,
    {
        if i > 0 {
            out.append(sep);
        }
        out.append(p[i].as_str());
        proof {
            assert(texts(p@).take(i + 1).drop_last() =~= texts(p@).take(i as int));
            assert(texts(p@).take(i + 1).last() == p@[i as int]@);
            if i == 0 {
                assert(out@ =~= p@[0]@);
            }
        }
        i += 1;
    }
    out
}

// ───────────────────────── integers ─────────────────────────

/// Every character is a decimal digit.
pub open spec fn all_digits(s: Seq<char>) -> bool {
    forall|i: int| 0 <= i < s.len() ==> digit(#[trigger] s[i])
}

/// The number that a sequence of decimal digits stands for.
pub open spec fn number(s: Seq<char>) -> nat
    decreases s.len(),
{
    if s.len() == 0 {
        0
    } else {
        number(s.drop_last()) * 10 + digit_value(s.last())
    }
}

/// `s` without the sign at its start.
pub open spec fn unsigned_part(s: Seq<char>, minus: bool) -> Seq<char> {
    if s.len() > 0 && (s[0] == '+' || (minus && s[0] == '-')) {
        s.drop_first()
    } else {
        s
    }
}

/// The number up to `max` that `s` writes in decimal: digits, with an optional
/// plus sign before them.
pub open spec fn natural(s: Seq<char>, max: nat) -> Option<nat> {
    let d = unsigned_part(s, false);
    if d.len() > 0 && all_digits(d) && number(d) <= max {
        Some(number(d))
    } else {
        None
    }
}

/// The 64-bit signed number that `s` writes in decimal: digits, with an
/// optional sign before them.
pub open spec fn integer(s: Seq<char>) -> Option<i64> {
    let d = unsigned_part(s, true);
    let v = if s.len() > 0 && s[0] == '-' {
        -(number(d) as int)
    } else {
        number(d) as int
    };
    if d.len() > 0 && all_digits(d) && i64::MIN <= v <= i64::MAX {
        Some(v as i64)
    } else {
        None
    }
}

proof fn lemma_number_grows(s: Seq<char>, k: int)
    requires
        0 <= k <= s.len(),
    ensures
        number(s.take(k)) <= number(s),
    decreases s.len() - k,
{
    if k == s.len() {
        assert(s.take(k) =~= s);
    } else {
        lemma_number_grows(s, k + 1);
        assert(s.take(k + 1).drop_last() =~= s.take(k));
    }
}

/// The number that the digits of `v` from `from` on stand for, where there is
/// at least one, all are digits and it is at most `max`.
fn digits_value(v: &Vec<char>, from: usize, max: u64) -> (r: Option<u64>)
    requires
        from <= v@.len(),
    ensures
        ({
            let d = after(v@, from as int);
            match r {
                Some(n) => d.len() > 0 && all_digits(d) && number(d) == n && n <= max,
                None => !(d.len() > 0 && all_digits(d) && number(d) <= max),
            }
        }),
{
    let ghost d = after(v@, from as int);
    if from == v.len() {
        return None;
    }
    let mut acc: u64 = 0;
    let mut i: usize = from;
    proof {
        assert(d.take(0) =~= Seq::<char>::empty());
    }
    while i < v.len()
        invariant
            from <= i <= v@.len(),
            d == after(v@, from as int),
            acc <= max,
            acc == number(d.take(i - from)),
            forall|j: int| 0 <= j < i - from ==> digit(#[trigger] d[j]),
        decreases v@.len() - i,
    {
        let c = v[i];
        if c < '0' || c > '9' {
            proof {
                assert(!digit(d[i - from]));
            }
            return None;
        }
        let x: u64 = (c as u32 - '0' as u32) as u64;
        proof {
            assert(d.take(i + 1 - from).drop_last() =~= d.take(i - from));
            assert(d.take(i + 1 - from).last() == c);
            lemma_number_grows(d, i + 1 - from);
        }
        let next: u128 = acc as u128 * 10 + x as u128;
        if next > max as u128 {
            return None;
        }
        acc = next as u64;
        i += 1;
    }
    proof {
        assert(d.take(d.len() as int) =~= d);
    }
    Some(acc)
}

/// The number up to `max` that `s` writes in decimal.
pub fn parse_natural(s: &str, max: u64) -> (r: Option<u64>)
    ensures
        match r {
            Some(n) => natural(s@, max as nat) == Some(n as nat),
            None => natural(s@, max as nat) is None,
        },
{
    let v = chars_of(s);
    let mut from: usize = 0;
    if v.len() > 0 && v[0] == '+' {
        from = 1;
    }
    proof {
        assert(after(v@, from as int) =~= unsigned_part(s@, false));
    }
    digits_value(&v, from, max)
}

/// The `u32` that `s` writes in decimal.
pub fn parse_u32(s: &str) -> (r: Option<u32>)
    ensures
        match r {
            Some(n) => natural(s@, u32::MAX as nat) == Some(n as nat),
            None => natural(s@, u32::MAX as nat) is None,
        },
{
    match parse_natural(s, u32::MAX as u64) {
        Some(n) => Some(n as u32),
        None => None,
    }
}

/// The `usize` that `s` writes in decimal.
pub fn parse_usize(s: &str) -> (r: Option<usize>)
    ensures
        match r {
            Some(n) => natural(s@, usize::MAX as nat) == Some(n as nat),
            None => natural(s@, usize::MAX as nat) is None,
        },
{
    match parse_natural(s, usize::MAX as u64) {
        Some(n) => Some(n as usize),
        None => None,
    }
}

/// The 64-bit signed number that `s` writes in decimal.
pub fn parse_i64(s: &str) -> (r: Option<i64>)
    ensures
        r == integer(s@),
{
    let v = chars_of(s);
    let mut from: usize = 0;
    let mut minus: bool = false;
    if v.len() > 0 && (v[0] == '+' || v[0] == '-') {
        minus = v[0] == '-';
        from = 1;
    }
    proof {
        assert(after(v@, from as int) =~= unsigned_part(s@, true));
    }
    if minus {
        match digits_value(&v, from, 0x8000_0000_0000_0000) {
            Some(n) => Some((-(n as i128)) as i64),
            None => None,
        }
    } else {
        match digits_value(&v, from, 0x7FFF_FFFF_FFFF_FFFF) {
            Some(n) => Some(n as i64),
            None => None,
        }
    }
}

/// `n` in decimal notation.
pub open spec fn decimal(n: nat) -> Seq<char>
    decreases n,
{
    if n < 10 {
        seq![digit_char(n)]
    } else {
        decimal(n / 10).push(digit_char(n % 10))
    }
}

/// `n` in decimal notation.
pub fn show(n: u64) -> (r: String)
    ensures
        r@ == decimal(n as nat),
{
    show_wide(n as u128)
}

/// `n` in decimal notation.
pub fn show_wide(n: u128) -> (r: String)
    ensures
        r@ == decimal(n as nat),
    decreases n,
{
    let mut out = if n < 10 {
        String::new()
    } else {
        show_wide(n / 10)
    };
    let d: u8 = 48 + (n % 10) as u8;
    out.push(d as char);
    proof {
        if n < 10 {
            assert(out@ =~= decimal(n as nat));
        }
    }
    out
}

/// The decimal notation of a number reads back as that number.
pub proof fn law_decimal_reads_back(n: nat)
    ensures
        all_digits(decimal(n)),
        decimal(n).len() > 0,
        number(decimal(n)) == n,
    decreases n,
{
    let last = digit_char(n % 10);
    assert(digit(last) && digit_value(last) == n % 10);
    if n >= 10 {
        law_decimal_reads_back(n / 10);
        assert(decimal(n).drop_last() =~= decimal(n / 10));
    } else {
        assert(decimal(n).drop_last() =~= Seq::<char>::empty());
        assert(number(decimal(n).drop_last()) == 0);
    }
}

} // verus!
