//! What is cut apart goes together again: pieces, words, lines, and the ends of a text.
use vstd::prelude::*;

use crate::percent::unescaped;
use crate::text::{
    after, all_digits, decimal, find, holds, integer, joined, law_decimal_reads_back,
    lemma_find_from, lines, natural, number, occurs_at, pieces, quoted, sides, starts, trimmed,
    trimmed_end, trimmed_start, unsigned_part, utf8_size, white, within, without_copies,
    without_leading, without_return, without_trailing, words,
};

verus! {

// ───────────────────────── searching ─────────────────────────

/// What is found is found at its first place, and what stands anywhere is found.
pub proof fn law_the_first_place_is_found(s: Seq<char>, p: Seq<char>, i: int)
    requires
        0 <= i,
        i + p.len() <= s.len(),
        s.subrange(i, i + p.len()) == p,
    ensures
        find(s, p) matches Some(k) && 0 <= k <= i && s.subrange(k, k + p.len()) == p,
        holds(s, p),
{
    assert(occurs_at(s, p, i));
    lemma_find_from(s, p, 0);
}

/// What is found stands there.
pub proof fn law_what_is_found_is_there(s: Seq<char>, p: Seq<char>)
    ensures
        find(s, p) matches Some(k) ==> 0 <= k && k + p.len() <= s.len() && s.subrange(
            k,
            k + p.len(),
        ) == p,
        holds(s, p) <==> exists|i: int|
            0 <= i && i + p.len() <= s.len() && #[trigger] s.subrange(i, i + p.len()) == p,
{
    lemma_find_from(s, p, 0);
    if exists|i: int| 0 <= i && i + p.len() <= s.len() && #[trigger] s.subrange(i, i + p.len()) == p {
        let i = choose|i: int|
            0 <= i && i + p.len() <= s.len() && #[trigger] s.subrange(i, i + p.len()) == p;
        assert(occurs_at(s, p, i));
    }
}

/// What is quoted behind a mark is given out, whatever comes before and behind.
pub proof fn law_what_is_quoted_is_given_out(
    before: Seq<char>,
    mark: Seq<char>,
    t: Seq<char>,
    rest: Seq<char>,
)
    requires
        !t.contains('"'),
        forall|j: int|
            0 <= j < before.len() ==> !#[trigger] occurs_at(
                before + mark + t + seq!['"'] + rest,
                mark,
                j,
            ),
    ensures
        quoted(before + mark + t + seq!['"'] + rest, mark) == Some(t),
{
    let s = before + mark + t + seq!['"'] + rest;
    let n = before.len() as int;
    assert(s.subrange(n, n + mark.len()) =~= mark);
    assert(occurs_at(s, mark, n));
    lemma_find_from(s, mark, 0);
    match find(s, mark) {
        Some(k) => {
            if k < n {
                assert(!occurs_at(s, mark, k));
            }
        },
        None => {},
    }
    assert(find(s, mark) == Some(n));
    let tail = after(s, n + mark.len());
    assert(tail =~= t + seq!['"'] + rest);
    let m = t.len() as int;
    assert(tail.subrange(m, m + 1) =~= seq!['"']);
    assert(occurs_at(tail, seq!['"'], m));
    lemma_find_from(tail, seq!['"'], 0);
    match find(tail, seq!['"']) {
        Some(k) => {
            if k < m {
                assert(tail.subrange(k, k + 1)[0] == tail[k]);
                assert(t.contains(t[k]));
            }
        },
        None => {},
    }
    assert(tail.take(m) =~= t);
}

// ───────────────────────── the ends ─────────────────────────

/// The text is white throughout.
pub open spec fn all_white(s: Seq<char>) -> bool {
    forall|i: int| 0 <= i < s.len() ==> white(#[trigger] s[i])
}

proof fn lemma_trimmed_start(s: Seq<char>)
    ensures
        ({
            let t = trimmed_start(s);
            let n = s.len() - t.len();
            &&& 0 <= n
            &&& t == after(s, n)
            &&& all_white(s.take(n))
            &&& t.len() > 0 ==> !white(t[0])
        }),
    decreases s.len(),
{
    if s.len() > 0 && white(s[0]) {
        let rest = s.drop_first();
        lemma_trimmed_start(rest);
        let t = trimmed_start(rest);
        let n = s.len() - t.len();
        assert(after(rest, n - 1) =~= after(s, n));
        assert forall|i: int| 0 <= i < n implies white(#[trigger] s.take(n)[i]) by {
            if i > 0 {
                assert(rest.take(n - 1)[i - 1] == s[i]);
            }
        }
    } else {
        assert(after(s, 0) =~= s);
    }
}

proof fn lemma_trimmed_end(s: Seq<char>)
    ensures
        ({
            let t = trimmed_end(s);
            let n = t.len() as int;
            &&& n <= s.len()
            &&& t == s.take(n)
            &&& all_white(after(s, n))
            &&& n > 0 ==> !white(t.last())
        }),
    decreases s.len(),
{
    if s.len() > 0 && white(s.last()) {
        let rest = s.drop_last();
        lemma_trimmed_end(rest);
        let n = trimmed_end(rest).len() as int;
        assert(rest.take(n) =~= s.take(n));
        assert forall|i: int| 0 <= i < s.len() - n implies white(#[trigger] after(s, n)[i]) by {
            if i < s.len() - n - 1 {
                assert(after(rest, n)[i] == after(s, n)[i]);
            }
        }
    } else {
        assert(s.take(s.len() as int) =~= s);
    }
}

/// Only white is taken from the two ends of a text, and all of it.
pub proof fn law_only_the_white_ends_are_taken(s: Seq<char>)
    ensures
        exists|a: Seq<char>, b: Seq<char>|
            s == #[trigger] (a + trimmed(s) + b) && all_white(a) && all_white(b),
        trimmed(s).len() > 0 ==> !white(trimmed(s)[0]) && !white(trimmed(s).last()),
{
    let t = trimmed_start(s);
    let u = trimmed(s);
    lemma_trimmed_start(s);
    lemma_trimmed_end(t);
    let a = s.take(s.len() - t.len());
    let b = after(t, u.len() as int);
    assert(s =~= a + u + b);
    assert(s == (a + trimmed(s) + b));
}

/// A text without white at its ends stays as it is.
pub proof fn law_a_clean_text_stays(s: Seq<char>)
    requires
        s.len() > 0 ==> !white(s[0]) && !white(s.last()),
    ensures
        trimmed(s) == s,
{
}

/// The copies of a character at an end are taken, and nothing else.
pub proof fn law_copies_are_taken_from_the_ends(s: Seq<char>, c: char)
    ensures
        ({
            let t = without_trailing(s, c);
            &&& t.len() <= s.len()
            &&& t == s.take(t.len() as int)
            &&& t.len() > 0 ==> t.last() != c
            &&& forall|i: int| t.len() <= i < s.len() ==> s[i] == c
        }),
        ({
            let t = without_leading(s, c);
            let n = s.len() - t.len();
            &&& n >= 0
            &&& t == after(s, n)
            &&& t.len() > 0 ==> t[0] != c
            &&& forall|i: int| 0 <= i < n ==> s[i] == c
        }),
    decreases s.len(),
{
    assert(s.take(s.len() as int) =~= s);
    assert(after(s, 0) =~= s);
    if s.len() > 0 && s.last() == c {
        let r = s.drop_last();
        law_copies_are_taken_from_the_ends(r, c);
        let t = without_trailing(r, c);
        assert(r.take(t.len() as int) =~= s.take(t.len() as int));
        assert forall|i: int| t.len() <= i < s.len() implies s[i] == c by {
            if i < r.len() {
                assert(r[i] == s[i]);
            }
        }
    }
    if s.len() > 0 && s[0] == c {
        let r = s.drop_first();
        law_copies_are_taken_from_the_ends(r, c);
        let t = without_leading(r, c);
        let n = s.len() - t.len();
        assert(after(r, n - 1) =~= after(s, n));
        assert forall|i: int| 0 <= i < n implies s[i] == c by {
            if i > 0 {
                assert(r[i - 1] == s[i]);
            }
        }
    }
}

/// A mark at the start of a text is taken however often it stands there.
pub proof fn law_marks_are_taken(s: Seq<char>, p: Seq<char>)
    requires
        p.len() > 0,
    ensures
        without_copies(p + s, p) == without_copies(s, p),
        !starts(s, p) ==> without_copies(s, p) == s,
        !starts(without_copies(s, p), p),
    decreases s.len(),
{
    assert((p + s).subrange(0, p.len() as int) =~= p);
    assert(after(p + s, p.len() as int) =~= s);
    if starts(s, p) {
        law_marks_are_taken(after(s, p.len() as int), p);
    }
}

// ───────────────────────── pieces ─────────────────────────

/// The pieces of a text joined by what parted them are the text, and no piece holds it.
pub proof fn law_pieces_join_again(s: Seq<char>, c: char)
    ensures
        pieces(s, c).len() > 0,
        joined(pieces(s, c), seq![c]) == s,
        forall|i: int| 0 <= i < pieces(s, c).len() ==> !(#[trigger] pieces(s, c)[i]).contains(c),
    decreases s.len(),
{
    let sep = seq![c];
    let p = pieces(s, c);
    if s.len() > 0 {
        let before = pieces(s.drop_last(), c);
        law_pieces_join_again(s.drop_last(), c);
        if s.last() == c {
            assert(p.drop_last() =~= before);
            assert(joined(p, sep) =~= s.drop_last() + sep);
            assert(s =~= s.drop_last() + sep);
        } else {
            let last = before.len() - 1;
            assert(p.drop_last() =~= before.drop_last());
            assert(p.last() == before.last().push(s.last()));
            assert(s =~= s.drop_last().push(s.last()));
            if before.len() == 1 {
                assert(joined(p, sep) =~= joined(before, sep).push(s.last()));
            } else {
                assert(joined(p, sep) =~= joined(before, sep).push(s.last()));
            }
            assert forall|i: int| 0 <= i < p.len() implies !(#[trigger] p[i]).contains(c) by {
                assert(!before[i].contains(c));
                if i == last && p[i].contains(c) {
                    let k = choose|k: int| 0 <= k < p[i].len() && p[i][k] == c;
                    assert(before[i][k] == c);
                }
            }
        }
    }
}

/// Texts are joined one behind the other, with what parts them between.
pub proof fn law_texts_are_joined_in_order(a: Seq<Seq<char>>, b: Seq<Seq<char>>, sep: Seq<char>)
    requires
        a.len() > 0,
        b.len() > 0,
    ensures
        joined(a + b, sep) == joined(a, sep) + sep + joined(b, sep),
        forall|t: Seq<char>| #[trigger] joined(seq![t], sep) == t,
    decreases b.len(),
{
    assert((a + b).drop_last() =~= a + b.drop_last());
    if b.len() == 1 {
        assert(a + b.drop_last() =~= a);
    } else {
        law_texts_are_joined_in_order(a, b.drop_last(), sep);
        assert(joined(a + b, sep) =~= joined(a, sep) + sep + joined(b, sep));
    }
}

/// A text is cut in two at the first separator: the two sides and the separator are the text,
/// and the first side holds no other. A text without one is not cut.
pub proof fn law_the_first_separator_cuts(s: Seq<char>, c: char)
    ensures
        sides(s, c) is Some <==> s.contains(c),
        sides(s, c) matches Some((a, b)) ==> s == a + seq![c] + b && !a.contains(c),
{
    let p = seq![c];
    lemma_find_from(s, p, 0);
    if s.contains(c) {
        let i = choose|i: int| 0 <= i < s.len() && s[i] == c;
        assert(s.subrange(i, i + 1) =~= p);
        assert(occurs_at(s, p, i));
    }
    match find(s, p) {
        Some(k) => {
            assert(s.subrange(k, k + 1)[0] == s[k]);
            assert(s =~= s.take(k) + p + after(s, k + 1));
            if s.take(k).contains(c) {
                let j = choose|j: int| 0 <= j < k && s.take(k)[j] == c;
                assert(s.subrange(j, j + 1) =~= p);
                assert(occurs_at(s, p, j));
            }
        },
        None => {},
    }
}

// ───────────────────────── words ─────────────────────────

/// A text without white is one word.
pub proof fn law_a_text_without_white_is_a_word(s: Seq<char>)
    requires
        s.len() > 0,
        forall|i: int| 0 <= i < s.len() ==> !white(#[trigger] s[i]),
    ensures
        words(s) == seq![s],
    decreases s.len(),
{
    let t = s.drop_last();
    assert(!white(s[s.len() - 1]));
    if s.len() == 1 {
        assert(words(t) =~= Seq::empty());
        assert(seq![s.last()] =~= s);
        assert(words(s) =~= seq![s]);
    } else {
        assert(!white(s[s.len() - 2]));
        assert forall|i: int| 0 <= i < t.len() implies !white(#[trigger] t[i]) by {
            assert(!white(s[i]));
        }
        law_a_text_without_white_is_a_word(t);
        assert(t.push(s.last()) =~= s);
        assert(words(s) =~= seq![s]);
    }
}

/// White parts words: the words of two texts with white between are those of the first and
/// then those of the second.
pub proof fn law_white_parts_words(a: Seq<char>, w: char, b: Seq<char>)
    requires
        white(w),
    ensures
        words(a.push(w) + b) == words(a) + words(b),
    decreases b.len(),
{
    let s = a.push(w) + b;
    if b.len() == 0 {
        assert(s =~= a.push(w));
        assert(s.drop_last() =~= a);
        assert(words(s) =~= words(a) + words(b));
    } else {
        let t = b.drop_last();
        assert(s.drop_last() =~= a.push(w) + t);
        assert(s.last() == b.last());
        law_white_parts_words(a, w, t);
        if !white(b.last()) {
            if b.len() > 1 {
                assert(s[s.len() - 2] == b[b.len() - 2]);
                if !white(b[b.len() - 2]) {
                    lemma_some_word(t);
                    assert(words(s) =~= words(a) + words(b));
                } else {
                    assert(words(s) =~= words(a) + words(b));
                }
            } else {
                assert(s[s.len() - 2] == w);
                assert(words(s) =~= words(a) + words(b));
            }
        } else {
            assert(words(s) =~= words(a) + words(b));
        }
    }
}

proof fn lemma_some_word(s: Seq<char>)
    requires
        s.len() > 0,
        !white(s.last()),
    ensures
        words(s).len() > 0,
    decreases s.len(),
{
    if s.len() > 1 && !white(s[s.len() - 2]) {
        lemma_some_word(s.drop_last());
    }
}

// ───────────────────────── lines ─────────────────────────

proof fn lemma_first_piece(a: Seq<char>, c: char, b: Seq<char>)
    requires
        !a.contains(c),
    ensures
        pieces(a.push(c) + b, c) == seq![a] + pieces(b, c),
    decreases b.len(),
{
    let s = a.push(c) + b;
    if b.len() == 0 {
        assert(s =~= a.push(c));
        assert(s.drop_last() =~= a);
        lemma_whole_piece(a, c);
        assert(b =~= Seq::empty());
        assert(pieces(s, c) =~= seq![a] + pieces(b, c));
    } else {
        assert(s.drop_last() =~= a.push(c) + b.drop_last());
        assert(s.last() == b.last());
        lemma_first_piece(a, c, b.drop_last());
        law_pieces_join_again(b.drop_last(), c);
        assert(pieces(s, c) =~= seq![a] + pieces(b, c));
    }
}

proof fn lemma_whole_piece(a: Seq<char>, c: char)
    requires
        !a.contains(c),
    ensures
        pieces(a, c) == seq![a],
    decreases a.len(),
{
    if a.len() > 0 {
        assert(a[a.len() - 1] != c);
        assert forall|i: int| 0 <= i < a.len() - 1 implies a.drop_last()[i] != c by {
            assert(a.contains(a[i]));
        }
        lemma_whole_piece(a.drop_last(), c);
        assert(a.drop_last().push(a.last()) =~= a);
        assert(pieces(a, c) =~= seq![a]);
    }
}

/// A newline ends a line, and the lines of what follows come after it. The carriage return
/// before a newline is no part of the line.
pub proof fn law_a_newline_ends_a_line(a: Seq<char>, b: Seq<char>)
    requires
        !a.contains('\n'),
    ensures
        lines(a.push('\n') + b) == seq![without_return(a)] + lines(b),
        lines(a) == if a.len() == 0 {
            Seq::<Seq<char>>::empty()
        } else {
            seq![a]
        },
        a.len() > 0 && a.last() == '\r' ==> without_return(a) == a.drop_last(),
        a.len() == 0 || a.last() != '\r' ==> without_return(a) == a,
{
    lemma_first_piece(a, '\n', b);
    lemma_whole_piece(a, '\n');
    law_pieces_join_again(b, '\n');
    let p = pieces(b, '\n');
    let q = seq![a] + p;
    let f = |l: Seq<char>| without_return(l);
    assert(q.drop_last() =~= seq![a] + p.drop_last());
    assert(q.drop_last().map_values(f) =~= seq![without_return(a)] + p.drop_last().map_values(f));
    assert(q.last() == p.last());
    assert(lines(a.push('\n') + b) =~= seq![without_return(a)] + lines(b));
    assert(seq![a].drop_last().map_values(f) =~= Seq::empty());
    assert(lines(a) =~= if a.len() == 0 {
        Seq::<Seq<char>>::empty()
    } else {
        seq![a]
    });
}

// ───────────────────────── sizes and numbers ─────────────────────────

/// As much of a text as fits is kept: with one character more it would not fit.
pub proof fn law_as_much_as_fits_is_kept(s: Seq<char>, n: nat, i: int)
    requires
        0 <= i <= s.len(),
        utf8_size(s.take(i)) <= n,
    ensures
        i <= within(s, n).len(),
    decreases s.len(),
{
    if s.len() > 0 && utf8_size(s) > n {
        let t = s.drop_last();
        if i == s.len() {
            assert(s.take(i) =~= s);
        } else {
            assert(t.take(i) =~= s.take(i));
            law_as_much_as_fits_is_kept(t, n, i);
        }
    }
}

/// A number reads back from its decimal notation, with a sign before it or without.
pub proof fn law_numbers_read_back(n: nat, max: nat)
    ensures
        n <= max ==> natural(decimal(n), max) == Some(n) && natural(seq!['+'] + decimal(n), max)
            == Some(n),
        n > max ==> natural(decimal(n), max) is None,
        natural(seq!['-'] + decimal(n), max) is None,
        n <= i64::MAX ==> integer(decimal(n)) == Some(n as i64) && integer(
            seq!['+'] + decimal(n),
        ) == Some(n as i64),
        n <= i64::MAX + 1 ==> integer(seq!['-'] + decimal(n)) == Some((-n) as i64),
        n > i64::MAX ==> integer(decimal(n)) is None,
        n > i64::MAX + 1 ==> integer(seq!['-'] + decimal(n)) is None,
{
    law_decimal_reads_back(n);
    let d = decimal(n);
    assert(crate::text::digit(d[0]));
    assert(unsigned_part(d, false) == d);
    assert(unsigned_part(d, true) == d);
    let plus = seq!['+'] + d;
    let minus = seq!['-'] + d;
    assert(plus.drop_first() =~= d);
    assert(minus.drop_first() =~= d);
    assert(unsigned_part(minus, false) == minus);
    assert(!crate::text::digit(minus[0]));
}

/// Anything that is read as a number is digits with a sign before them at the most.
pub proof fn law_only_digits_are_numbers(s: Seq<char>, max: nat)
    ensures
        natural(s, max) matches Some(n) ==> n <= max && s.len() > 0 && (all_digits(s) || (s[0]
            == '+' && all_digits(s.drop_first()))),
        all_digits(s) && s.len() > 0 && number(s) <= max ==> natural(s, max) == Some(number(s)),
{
    if all_digits(s) && s.len() > 0 {
        assert(crate::text::digit(s[0]));
    }
}

/// A digit behind a number makes it ten times as much and the digit more.
pub proof fn law_digits_have_their_place(s: Seq<char>, d: char)
    ensures
        number(s.push(d)) == 10 * number(s) + crate::text::digit_value(d),
        number(Seq::empty()) == 0,
{
    assert(s.push(d).drop_last() =~= s);
}

// ───────────────────────── escapes ─────────────────────────

/// A plus sign stands for a space, any other byte that is no percent sign for itself, and a
/// percent sign without two digits behind it for itself too; what follows is read as it would
/// be alone.
pub proof fn law_escapes_are_read(b: u8, c: u8, rest: Seq<u8>)
    ensures
        unescaped(seq![43u8] + rest) == seq![' '] + unescaped(rest),
        b != 43 && b != 37 ==> unescaped(seq![b] + rest) == seq![b as char] + unescaped(rest),
        hex_val_of(b) is Some && hex_val_of(c) is Some ==> unescaped(seq![37u8, b, c] + rest)
            == seq![(16 * hex_val_of(b)->0 + hex_val_of(c)->0) as char] + unescaped(rest),
        hex_val_of(b) is None || hex_val_of(c) is None ==> unescaped(seq![37u8, b, c] + rest)
            == seq!['%', b as char, c as char] + unescaped(rest),
{
    let plus = seq![43u8] + rest;
    assert(after(plus, 1) =~= rest);
    let one = seq![b] + rest;
    assert(after(one, 1) =~= rest);
    let three = seq![37u8, b, c] + rest;
    assert(three[0] == 37 && three[1] == b && three[2] == c);
    assert(after(three, 3) =~= rest);
}

/// The value of a hexadecimal digit, in either case.
pub open spec fn hex_val_of(b: u8) -> Option<int> {
    if 48 <= b <= 57 {
        Some(b - 48)
    } else if 65 <= b <= 70 {
        Some(b - 55)
    } else if 97 <= b <= 102 {
        Some(b - 87)
    } else {
        None
    }
}

} // verus!
