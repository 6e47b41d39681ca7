//! What holds between the daemon and its clients: of requests, and of the stream of events.
use vstd::prelude::*;
use vstd::utf8::{encode_utf8, is_ascii_chars, is_ascii_chars_encode_utf8, is_ascii_chars_nat_bound};

use crate::agent::cli::{answer_path, question_path, search_path, search_query};
use crate::agent::client::{
    events_path, events_query, frame_parts, has_comment, kind_list, last_field, next_frame,
};
use crate::agent::events::{written, EventFilter};
use crate::agent::json::{kind_text, law_kind_reads_back, EventKind};
use crate::agent::server::{
    filled, kinds_in, plain_text, query_map, routed, value_in, wanted, RouteV,
};
use crate::percent::{
    escaped, law_encoding_leaves_no_separator, law_encoding_reads_back, unescaped, wide,
};
use crate::text::{
    after, decimal, digit, find, find_from, law_decimal_reads_back, lemma_find_from, lines, natural,
    occurs_at, pieces, sides, starts, text_opt, trimmed, without_leading, without_return,
};

verus! {

proof fn lemma_one_piece(s: Seq<char>, c: char)
    requires
        !s.contains(c),
    ensures
        pieces(s, c) == seq![s],
    decreases s.len(),
{
    if s.len() > 0 {
        assert(s.last() != c) by {
            assert(s.contains(s.last()));
        }
        assert forall|i: int| 0 <= i < s.drop_last().len() implies s.drop_last()[i] != c by {
            assert(s.contains(s[i]));
        }
        lemma_one_piece(s.drop_last(), c);
        assert(pieces(s, c)[0] =~= s);
        assert(pieces(s, c) =~= seq![s]);
    }
}

proof fn lemma_next_piece(a: Seq<char>, b: Seq<char>, c: char)
    requires
        !b.contains(c),
    ensures
        pieces(a.push(c) + b, c) == pieces(a, c).push(b),
    decreases b.len(),
{
    let s = a.push(c) + b;
    if b.len() == 0 {
        assert(s =~= a.push(c));
        assert(s.drop_last() =~= a);
        assert(b =~= Seq::empty());
    } else {
        assert(s.drop_last() =~= a.push(c) + b.drop_last());
        assert(b.last() != c) by {
            assert(b.contains(b.last()));
        }
        assert forall|i: int| 0 <= i < b.drop_last().len() implies b.drop_last()[i] != c by {
            assert(b.contains(b[i]));
        }
        lemma_next_piece(a, b.drop_last(), c);
        assert(b.drop_last().push(b.last()) =~= b);
        assert(pieces(s, c) =~= pieces(a, c).push(b));
    }
}

proof fn lemma_two_pieces(a: Seq<char>, b: Seq<char>, c: char)
    requires
        !a.contains(c),
        !b.contains(c),
    ensures
        pieces(a.push(c) + b, c) == seq![a, b],
{
    lemma_one_piece(a, c);
    lemma_next_piece(a, b, c);
    assert(seq![a].push(b) =~= seq![a, b]);
}

/// The first sign of its sort parts a text.
proof fn lemma_sides(a: Seq<char>, b: Seq<char>, c: char)
    requires
        !a.contains(c),
    ensures
        sides(a.push(c) + b, c) == Some((a, b)),
{
    let s = a.push(c) + b;
    let n = a.len() as int;
    let p = seq![c];
    lemma_find_from(s, p, 0);
    assert(s.subrange(n, n + 1) =~= p);
    assert(occurs_at(s, p, n));
    match find_from(s, p, 0) {
        Some(k) => {
            assert(s.subrange(k, k + 1)[0] == s[k]);
            if k < n {
                assert(a.contains(a[k]));
            }
        },
        None => {},
    }
    assert(find(s, p) == Some(n));
    assert(s.take(n) =~= a);
    assert(after(s, n + 1) =~= b);
}

/// The names of the kinds of events hold neither line breaks nor carriage returns, nor
/// commas or spaces.
proof fn lemma_kind_text(k: EventKind)
    ensures
        is_ascii_chars(kind_text(k)),
        !kind_text(k).contains(','),
        trimmed(kind_text(k)) == kind_text(k),
        !kind_text(k).contains('\n'),
        !kind_text(k).contains('\r'),
        kind_text(k).len() > 0,
{
    reveal_strlit("message_posted");
    reveal_strlit("message_edited");
    reveal_strlit("message_deleted");
    reveal_strlit("reaction_updated");
    reveal_strlit("typing_started");
    reveal_strlit("typing_stopped");
    reveal_strlit("space_updated");
    reveal_strlit("presence_changed");
    reveal_strlit("membership_changed");
    reveal_strlit("read_state_updated");
}

/// The first place with two line breaks in a row is where they are found.
proof fn lemma_first_break(buf: Seq<char>, n: int)
    requires
        0 <= n,
        n + 2 <= buf.len(),
        buf[n] == '\n',
        buf[n + 1] == '\n',
        forall|j: int| 0 <= j < n ==> !(#[trigger] buf[j] == '\n' && buf[j + 1] == '\n'),
    ensures
        find(buf, seq!['\n', '\n']) == Some(n),
{
    let p = seq!['\n', '\n'];
    assert(buf.subrange(n, n + 2) =~= p);
    assert(occurs_at(buf, p, n));
    lemma_find_from(buf, p, 0);
    match find(buf, p) {
        Some(k) => {
            if k < n {
                assert(buf.subrange(k, k + 2)[0] == p[0]);
                assert(buf.subrange(k, k + 2)[1] == p[1]);
                assert(buf[k] == '\n' && buf[k + 1] == '\n');
            }
        },
        None => {},
    }
}

/// Two lines without line breaks in them, the second not empty, end at the empty line.
proof fn lemma_frame_end(first: Seq<char>, second: Seq<char>, more: Seq<char>)
    requires
        !first.contains('\n'),
        !second.contains('\n'),
        second.len() > 0,
    ensures
        find(first.push('\n') + second + seq!['\n', '\n'] + more, "\n\n"@) == Some(
            (first.len() + 1 + second.len()) as int,
        ),
{
    reveal_strlit("\n\n");
    assert("\n\n"@ =~= seq!['\n', '\n']);
    let a = first.len() as int;
    let n = a + 1 + second.len();
    let buf = first.push('\n') + second + seq!['\n', '\n'] + more;
    assert forall|j: int| 0 <= j < n implies !(#[trigger] buf[j] == '\n' && buf[j + 1] == '\n') by {
        if j < a {
            assert(buf[j] == first[j]);
            if first[j] == '\n' {
                assert(first.contains('\n'));
            }
        } else if j == a {
            assert(buf[j + 1] == second[0]);
            if second[0] == '\n' {
                assert(second.contains('\n'));
            }
        } else {
            assert(buf[j] == second[j - a - 1]);
            if second[j - a - 1] == '\n' {
                assert(second.contains('\n'));
            }
        }
    }
    lemma_first_break(buf, n);
}

/// The lines of an event's frame.
proof fn lemma_frame_lines(first: Seq<char>, second: Seq<char>)
    requires
        !first.contains('\n'),
        !second.contains('\n'),
        !first.contains('\r'),
        second.len() > 0,
    ensures
        lines(first.push('\n') + second) == seq![first, second],
{
    lemma_two_pieces(first, second, '\n');
    if first.len() > 0 && first.last() == '\r' {
        assert(first.contains(first.last()));
    }
    assert(without_return(first) == first);
    assert(lines(first.push('\n') + second) =~= seq![first, second]);
}

/// The name and the data of an event's frame.
proof fn lemma_frame_fields(k: Seq<char>, json: Seq<char>)
    ensures
        ({
            let rows = seq!["event: "@ + k, "data: "@ + json];
            &&& !has_comment(rows)
            &&& last_field(rows, "data: "@) == Some(json)
            &&& last_field(rows, "event: "@) == Some(k)
        }),
{
    reveal_strlit("event: ");
    reveal_strlit("data: ");
    reveal_strlit(":");
    let first = "event: "@ + k;
    let second = "data: "@ + json;
    let rows = seq![first, second];
    if starts(first, ":"@) {
        assert(first.subrange(0, 1)[0] == ':');
    }
    if starts(second, ":"@) {
        assert(second.subrange(0, 1)[0] == ':');
    }
    assert(second.subrange(0, 6) =~= "data: "@);
    assert(after(second, 6) =~= json);
    assert(first.subrange(0, 7) =~= "event: "@);
    assert(after(first, 7) =~= k);
    if starts(second, "event: "@) {
        assert(second.subrange(0, 7)[0] == 'e');
    }
    assert(rows.last() == second);
    assert(rows.drop_last() =~= seq![first]);
    assert(seq![first].last() == first);
    assert(last_field(seq![first], "event: "@) == Some(k));
}

/// A reader of the stream gets back the event that was written, its name and its data,
/// and what was written behind it. The data is a JSON text on one line.
pub proof fn law_written_event_reads_back(kind: EventKind, json: Seq<char>, more: Seq<char>)
    requires
        !json.contains('\n'),
    ensures
        next_frame(written(kind, json) + more) == (Some((Some(kind_text(kind)), json)), more),
{
    lemma_kind_text(kind);
    let k = kind_text(kind);
    let first = "event: "@ + k;
    let second = "data: "@ + json;
    assert(!first.contains('\n') && !first.contains('\r') && first.len() > 0) by {
        reveal_strlit("event: ");
        assert forall|i: int| 0 <= i < first.len() implies #[trigger] first[i] != '\n' && first[i]
            != '\r' by {
            if i >= 7 {
                assert(k.contains(k[i - 7]));
            }
        }
    }
    assert(!second.contains('\n') && second.len() > 0) by {
        reveal_strlit("data: ");
        assert forall|i: int| 0 <= i < second.len() implies #[trigger] second[i] != '\n' by {
            if i >= 6 {
                assert(json.contains(json[i - 6]));
            }
        }
    }
    let frame = first.push('\n') + second;
    let n = frame.len() as int;
    let buf = written(kind, json) + more;
    assert(buf =~= frame + seq!['\n', '\n'] + more) by {
        reveal_strlit("\n");
    }
    lemma_frame_end(first, second, more);
    lemma_frame_lines(first, second);
    lemma_frame_fields(k, json);
    assert(buf.take(n) =~= frame);
    assert(after(buf, n + 2) =~= more);
    assert(frame_parts(frame) == Some((Some(k), json)));
}

// ───────────────────────── requests ─────────────────────────

proof fn lemma_unescaped_plain(data: Seq<u8>)
    requires
        forall|i: int| 0 <= i < data.len() ==> #[trigger] data[i] != 43 && data[i] != 37,
    ensures
        unescaped(data) == wide(data),
    decreases data.len(),
{
    if data.len() > 0 {
        let rest = after(data, 1);
        assert forall|i: int| 0 <= i < rest.len() implies #[trigger] rest[i] != 43 && rest[i] != 37 by {
            assert(rest[i] == data[i + 1]);
        }
        lemma_unescaped_plain(rest);
        assert(unescaped(data) =~= wide(data));
    } else {
        assert(unescaped(data) =~= wide(data));
    }
}

/// A text of ASCII characters without a plus or a percent sign stands for itself.
proof fn lemma_plain_text(s: Seq<char>)
    requires
        is_ascii_chars(s),
        !s.contains('+'),
        !s.contains('%'),
    ensures
        plain_text(s) == s,
{
    let data = encode_utf8(s);
    is_ascii_chars_encode_utf8(s);
    is_ascii_chars_nat_bound(s);
    assert forall|i: int| 0 <= i < data.len() implies #[trigger] data[i] != 43 && data[i] != 37 by {
        assert(s.contains(s[i]));
        assert(data[i] == s[i] as u8);
    }
    lemma_unescaped_plain(data);
    assert(wide(data) =~= s);
}

/// A number in decimal is made of digits alone.
proof fn lemma_digits_plain(n: nat)
    ensures
        is_ascii_chars(decimal(n)),
        !decimal(n).contains('+'),
        !decimal(n).contains('%'),
        !decimal(n).contains('&'),
        !decimal(n).contains('/'),
        !decimal(n).contains('?'),
{
    law_decimal_reads_back(n);
    assert forall|i: int| 0 <= i < decimal(n).len() implies '0' <= #[trigger] decimal(n)[i] <= '9' by {
        assert(digit(decimal(n)[i]));
    }
}

proof fn lemma_escaped_plain(data: Seq<u8>)
    ensures
        !escaped(data).contains('&'),
        !escaped(data).contains('/'),
        !escaped(data).contains('?'),
{
    law_encoding_leaves_no_separator(data);
}

proof fn lemma_search_query(query: Seq<char>, top: usize)
    requires
        is_ascii_chars(query),
    ensures
        query_map(pieces(search_query(query, top), '&')) == map![
            "q"@ => query,
            "top"@ => decimal(top as nat),
        ],
{
    let e = escaped(encode_utf8(query));
    let t = decimal(top as nat);
    reveal_strlit("q=");
    reveal_strlit("&top=");
    reveal_strlit("q");
    reveal_strlit("top");
    let first = "q"@.push('=') + e;
    let second = "top"@.push('=') + t;
    lemma_escaped_plain(encode_utf8(query));
    lemma_digits_plain(top as nat);
    assert(!first.contains('&')) by {
        assert forall|i: int| 0 <= i < first.len() implies first[i] != '&' by {
            if i >= 2 {
                assert(first[i] == e[i - 2]);
                assert(e.contains(e[i - 2]));
            }
        }
    }
    assert(!second.contains('&')) by {
        assert forall|i: int| 0 <= i < second.len() implies second[i] != '&' by {
            if i >= 4 {
                assert(second[i] == t[i - 4]);
                assert(t.contains(t[i - 4]));
            }
        }
    }
    assert(search_query(query, top) =~= first.push('&') + second);
    lemma_two_pieces(first, second, '&');
    lemma_sides("q"@, e, '=');
    lemma_sides("top"@, t, '=');
    lemma_plain_text("q"@);
    lemma_plain_text("top"@);
    lemma_plain_text(t);
    law_encoding_reads_back(query);
    let both = seq![first, second];
    assert(both.drop_last() =~= seq![first]);
    assert(seq![first].drop_last() =~= Seq::<Seq<char>>::empty());
    assert(query_map(Seq::<Seq<char>>::empty()) == Map::<Seq<char>, Seq<char>>::empty());
    assert(query_map(seq![first]) == Map::<Seq<char>, Seq<char>>::empty().insert("q"@, query));
    assert(query_map(both) =~= map!["q"@ => query, "top"@ => t]);
}

proof fn lemma_no_sides(s: Seq<char>, c: char)
    requires
        !s.contains(c),
    ensures
        sides(s, c) is None,
{
    lemma_find_from(s, seq![c], 0);
    match find_from(s, seq![c], 0) {
        Some(k) => {
            assert(s.subrange(k, k + 1)[0] == s[k]);
            assert(s.contains(s[k]));
        },
        None => {},
    }
}

proof fn lemma_no_sign(a: Seq<char>, b: Seq<char>, c: char)
    requires
        !a.contains(c),
        !b.contains(c),
    ensures
        !(a + b).contains(c),
{
    assert forall|i: int| 0 <= i < (a + b).len() implies (a + b)[i] != c by {
        if i < a.len() {
            assert(a.contains(a[i]));
        } else {
            assert(b.contains(b[i - a.len()]));
        }
    }
}

/// The daemon reads from the path of a search what the client wrote into it: the space, the text
/// and the number of threads.
pub proof fn law_search_is_understood(space: Seq<char>, query: Seq<char>, top: usize)
    requires
        !space.contains('/'),
        !space.contains('?'),
        is_ascii_chars(query),
    ensures
        ({
            let m = query_map(pieces(search_query(query, top), '&'));
            &&& routed("GET"@, search_path(space, query, top)) == (RouteV::Search {
                space_id: space,
                query: search_query(query, top),
            })
            &&& value_in(m, "q"@) == Some(query)
            &&& wanted(value_in(m, "top"@)) == top
        }),
{
    let q = search_query(query, top);
    let t = decimal(top as nat);
    lemma_search_query(query, top);
    assert("q"@ != "top"@) by {
        reveal_strlit("q");
        reveal_strlit("top");
        assert("q"@.len() != "top"@.len());
    }
    law_decimal_reads_back(top as nat);
    lemma_digits_plain(top as nat);
    assert(t.contains(t[0]));
    assert(natural(t, usize::MAX as nat) == Some(top as nat));
    reveal_strlit("/v1/spaces/");
    reveal_strlit("/threads/search?");
    reveal_strlit("v1");
    reveal_strlit("spaces");
    reveal_strlit("threads");
    reveal_strlit("search");
    reveal_strlit("health");
    let head = seq!['/'] + "v1"@.push('/') + "spaces"@.push('/') + space.push('/') + "threads"@.push(
        '/',
    ) + "search"@;
    assert(search_path(space, query, top) =~= head.push('?') + q);
    assert(!head.contains('?')) by {
        lemma_no_sign("/v1/spaces/"@, space, '?');
        let tail = seq!['/'] + "threads"@.push('/') + "search"@;
        lemma_no_sign("/v1/spaces/"@ + space, tail, '?');
        assert(head =~= "/v1/spaces/"@ + space + tail);
    }
    lemma_sides(head, q, '?');
    let bare = "v1"@.push('/') + "spaces"@.push('/') + space.push('/') + "threads"@.push('/')
        + "search"@;
    assert(head.drop_first() =~= bare);
    assert(bare[0] == 'v');
    assert(without_leading(bare, '/') == bare);
    assert(without_leading(head, '/') == bare);
    lemma_two_pieces("v1"@, "spaces"@, '/');
    let a = "v1"@.push('/') + "spaces"@;
    lemma_next_piece(a, space, '/');
    let b = a.push('/') + space;
    lemma_next_piece(b, "threads"@, '/');
    let c = b.push('/') + "threads"@;
    lemma_next_piece(c, "search"@, '/');
    assert(bare =~= c.push('/') + "search"@);
    assert(pieces(bare, '/') =~= seq!["v1"@, "spaces"@, space, "threads"@, "search"@]);
}

/// The daemon reads from the path of a question the space that the client wrote into it.
pub proof fn law_question_is_understood(space: Seq<char>)
    requires
        !space.contains('/'),
        !space.contains('?'),
    ensures
        routed("POST"@, question_path(space)) == (RouteV::Ask { space_id: space }),
{
    reveal_strlit("/v1/spaces/");
    reveal_strlit("/questions");
    reveal_strlit("v1");
    reveal_strlit("spaces");
    reveal_strlit("questions");
    reveal_strlit("GET");
    reveal_strlit("POST");
    let url = question_path(space);
    lemma_no_sign("/v1/spaces/"@, space, '?');
    lemma_no_sign("/v1/spaces/"@ + space, "/questions"@, '?');
    lemma_no_sides(url, '?');
    let bare = "v1"@.push('/') + "spaces"@.push('/') + space.push('/') + "questions"@;
    assert(url.drop_first() =~= bare);
    assert(bare[0] == 'v');
    assert(without_leading(bare, '/') == bare);
    assert(without_leading(url, '/') == bare);
    lemma_two_pieces("v1"@, "spaces"@, '/');
    let a = "v1"@.push('/') + "spaces"@;
    lemma_next_piece(a, space, '/');
    let b = a.push('/') + space;
    lemma_next_piece(b, "questions"@, '/');
    assert(bare =~= b.push('/') + "questions"@);
    assert(pieces(bare, '/') =~= seq!["v1"@, "spaces"@, space, "questions"@]);
    assert("GET"@.len() != "POST"@.len());
}

/// The daemon reads from the path of an answer the topic that the client wrote into it.
pub proof fn law_answer_is_understood(topic: Seq<char>)
    requires
        !topic.contains('/'),
        !topic.contains('?'),
    ensures
        routed("POST"@, answer_path(topic)) == (RouteV::Reply { topic_id: topic }),
{
    reveal_strlit("/v1/threads/");
    reveal_strlit("/reply");
    reveal_strlit("v1");
    reveal_strlit("threads");
    reveal_strlit("spaces");
    reveal_strlit("reply");
    reveal_strlit("GET");
    reveal_strlit("POST");
    let url = answer_path(topic);
    lemma_no_sign("/v1/threads/"@, topic, '?');
    lemma_no_sign("/v1/threads/"@ + topic, "/reply"@, '?');
    lemma_no_sides(url, '?');
    let bare = "v1"@.push('/') + "threads"@.push('/') + topic.push('/') + "reply"@;
    assert(url.drop_first() =~= bare);
    assert(bare[0] == 'v');
    assert(without_leading(bare, '/') == bare);
    assert(without_leading(url, '/') == bare);
    lemma_two_pieces("v1"@, "threads"@, '/');
    let a = "v1"@.push('/') + "threads"@;
    lemma_next_piece(a, topic, '/');
    let b = a.push('/') + topic;
    lemma_next_piece(b, "reply"@, '/');
    assert(bare =~= b.push('/') + "reply"@);
    assert(pieces(bare, '/') =~= seq!["v1"@, "threads"@, topic, "reply"@]);
    assert("GET"@.len() != "POST"@.len());
    assert("threads"@[0] != "spaces"@[0]);
}

/// A part of a query: a name and an encoded value.
spec fn part(name: Seq<char>, value: Seq<char>) -> Seq<char> {
    name.push('=') + escaped(encode_utf8(value))
}

/// The parts of a query, each with a sign behind it.
spec fn with_signs(ps: Seq<(Seq<char>, Seq<char>)>) -> Seq<char>
    decreases ps.len(),
{
    if ps.len() == 0 {
        Seq::empty()
    } else {
        with_signs(ps.drop_last()) + part(ps.last().0, ps.last().1).push('&')
    }
}

/// The names and values of a query.
spec fn map_of(ps: Seq<(Seq<char>, Seq<char>)>) -> Map<Seq<char>, Seq<char>>
    decreases ps.len(),
{
    if ps.len() == 0 {
        Map::empty()
    } else {
        map_of(ps.drop_last()).insert(ps.last().0, ps.last().1)
    }
}

/// A name that stands for itself, and a value that can be read back.
spec fn readable(p: (Seq<char>, Seq<char>)) -> bool {
    &&& is_ascii_chars(p.0)
    &&& !p.0.contains('+') && !p.0.contains('%') && !p.0.contains('&') && !p.0.contains('=')
    &&& is_ascii_chars(p.1)
}

/// What is written behind a text without the sign belongs to its last piece.
proof fn lemma_last_piece(a: Seq<char>, b: Seq<char>, c: char)
    requires
        !b.contains(c),
    ensures
        pieces(a, c).len() > 0,
        pieces(a + b, c) == pieces(a, c).drop_last().push(pieces(a, c).last() + b),
    decreases a.len() + b.len(),
{
    if b.len() == 0 {
        if a.len() > 0 {
            lemma_last_piece(a.drop_last(), Seq::empty(), c);
        }
        assert(a + b =~= a);
        assert(pieces(a, c).last() + b =~= pieces(a, c).last());
        assert(pieces(a, c).drop_last().push(pieces(a, c).last()) =~= pieces(a, c));
    } else {
        assert((a + b).drop_last() =~= a + b.drop_last());
        assert(b.last() != c) by {
            assert(b.contains(b.last()));
        }
        assert forall|i: int| 0 <= i < b.drop_last().len() implies b.drop_last()[i] != c by {
            assert(b.contains(b[i]));
        }
        lemma_last_piece(a, b.drop_last(), c);
        let before = pieces(a, c).last();
        assert((before + b.drop_last()).push(b.last()) =~= before + b);
        assert(pieces(a + b, c) =~= pieces(a, c).drop_last().push(before + b));
    }
}

proof fn lemma_query_of_parts(ps: Seq<(Seq<char>, Seq<char>)>)
    requires
        forall|i: int| 0 <= i < ps.len() ==> readable(#[trigger] ps[i]),
    ensures
        pieces(with_signs(ps), '&').len() > 0,
        pieces(with_signs(ps), '&').last() == Seq::<char>::empty(),
        query_map(pieces(with_signs(ps), '&').drop_last()) == map_of(ps),
        query_map(pieces(with_signs(ps), '&')) == map_of(ps),
    decreases ps.len(),
{
    if ps.len() == 0 {
        let none = pieces(Seq::<char>::empty(), '&');
        assert(none =~= seq![Seq::<char>::empty()]);
        assert(none.drop_last() =~= Seq::<Seq<char>>::empty());
    } else {
        let (name, value) = ps.last();
        assert(readable(ps[ps.len() - 1]));
        assert forall|i: int| 0 <= i < ps.drop_last().len() implies readable(
            #[trigger] ps.drop_last()[i],
        ) by {
            assert(ps.drop_last()[i] == ps[i]);
        }
        lemma_query_of_parts(ps.drop_last());
        let head = with_signs(ps.drop_last());
        let e = escaped(encode_utf8(value));
        let p = part(name, value);
        lemma_escaped_plain(encode_utf8(value));
        assert(!name.push('=').contains('&')) by {
            assert forall|i: int| 0 <= i < name.push('=').len() implies name.push('=')[i] != '&' by {
                if i < name.len() {
                    assert(name.contains(name[i]));
                }
            }
        }
        lemma_no_sign(name.push('='), e, '&');
        lemma_last_piece(head, p, '&');
        let before = pieces(head, '&').drop_last();
        assert(Seq::<char>::empty() + p =~= p);
        assert(pieces(head + p, '&') == before.push(p));
        let whole = with_signs(ps);
        assert(whole =~= (head + p).push('&'));
        assert(whole.drop_last() =~= head + p);
        let all = pieces(whole, '&');
        assert(all == before.push(p).push(Seq::empty()));
        assert(all.drop_last() =~= before.push(p));
        assert(before.push(p).drop_last() =~= before);
        lemma_sides(name, e, '=');
        lemma_plain_text(name);
        law_encoding_reads_back(value);
        assert(query_map(before.push(p)) == map_of(ps));
    }
}

proof fn lemma_kinds_read(kinds: Seq<EventKind>)
    requires
        kinds.len() > 0,
    ensures
        is_ascii_chars(kind_list(kinds)),
        pieces(kind_list(kinds), ',') == kinds.map_values(|k: EventKind| kind_text(k)),
        kinds_in(pieces(kind_list(kinds), ',')) == kinds,
    decreases kinds.len(),
{
    let names = kinds.map_values(|k: EventKind| kind_text(k));
    let k = kinds.last();
    lemma_kind_text(k);
    law_kind_reads_back(k, Seq::empty());
    assert(names.last() == kind_text(k));
    assert(names.drop_last() =~= kinds.drop_last().map_values(|k: EventKind| kind_text(k)));
    if kinds.len() == 1 {
        assert(kind_list(kinds) == kind_text(k));
        lemma_one_piece(kind_text(k), ',');
        assert(seq![kind_text(k)] =~= names);
        assert(names.drop_last() =~= Seq::<Seq<char>>::empty());
        assert(kinds_in(names.drop_last()) == Seq::<EventKind>::empty());
        assert(kinds_in(names) == Seq::<EventKind>::empty().push(k));
        assert(Seq::<EventKind>::empty().push(k) =~= kinds);
    } else {
        reveal_strlit(",");
        lemma_kinds_read(kinds.drop_last());
        let before = kind_list(kinds.drop_last());
        assert(kind_list(kinds) =~= before.push(',') + kind_text(k));
        lemma_next_piece(before, kind_text(k), ',');
        assert(pieces(kind_list(kinds), ',') =~= names);
        assert(kinds.drop_last().push(k) =~= kinds);
        assert(is_ascii_chars(kind_list(kinds))) by {
            assert forall|i: int| 0 <= i < kind_list(kinds).len() implies (kind_list(
                kinds,
            )[i] as nat) < 128 by {
                is_ascii_chars_nat_bound(before);
                is_ascii_chars_nat_bound(kind_text(k));
                if i < before.len() {
                    assert(kind_list(kinds)[i] == before[i]);
                } else if i > before.len() {
                    assert(kind_list(kinds)[i] == kind_text(k)[i - before.len() - 1]);
                }
            }
        }
    }
}

/// The parts of the query for the events that pass a filter.
spec fn filter_parts(f: EventFilter) -> Seq<(Seq<char>, Seq<char>)> {
    (match f.space_id {
        Some(s) => seq![("space_id"@, s@)],
        None => Seq::empty(),
    }) + (match f.topic_id {
        Some(t) => seq![("topic_id"@, t@)],
        None => Seq::empty(),
    }) + (if f.kinds@.len() > 0 {
        seq![("kinds"@, kind_list(f.kinds@))]
    } else {
        Seq::empty()
    })
}

proof fn lemma_signs_of_sum(a: Seq<(Seq<char>, Seq<char>)>, p: (Seq<char>, Seq<char>))
    ensures
        with_signs(a.push(p)) == with_signs(a) + part(p.0, p.1).push('&'),
        map_of(a.push(p)) == map_of(a).insert(p.0, p.1),
{
    assert(a.push(p).drop_last() =~= a);
}

proof fn lemma_filter_query(f: EventFilter)
    ensures
        with_signs(filter_parts(f)) == events_query(f),
        map_of(filter_parts(f)) == ({
            let none = Map::<Seq<char>, Seq<char>>::empty();
            let a = match f.space_id {
                Some(s) => none.insert("space_id"@, s@),
                None => none,
            };
            let b = match f.topic_id {
                Some(t) => a.insert("topic_id"@, t@),
                None => a,
            };
            if f.kinds@.len() > 0 {
                b.insert("kinds"@, kind_list(f.kinds@))
            } else {
                b
            }
        }),
{
    reveal_strlit("space_id=");
    reveal_strlit("topic_id=");
    reveal_strlit("kinds=");
    reveal_strlit("space_id");
    reveal_strlit("topic_id");
    reveal_strlit("kinds");
    reveal_strlit("&");
    let none = Seq::<(Seq<char>, Seq<char>)>::empty();
    let a = match f.space_id {
        Some(s) => none.push(("space_id"@, s@)),
        None => none,
    };
    let b = match f.topic_id {
        Some(t) => a.push(("topic_id"@, t@)),
        None => a,
    };
    let c = if f.kinds@.len() > 0 {
        b.push(("kinds"@, kind_list(f.kinds@)))
    } else {
        b
    };
    assert(c =~= filter_parts(f));
    match f.space_id {
        Some(s) => lemma_signs_of_sum(none, ("space_id"@, s@)),
        None => {},
    }
    match f.topic_id {
        Some(t) => lemma_signs_of_sum(a, ("topic_id"@, t@)),
        None => {},
    }
    if f.kinds@.len() > 0 {
        lemma_signs_of_sum(b, ("kinds"@, kind_list(f.kinds@)));
    }
    assert(with_signs(none) == Seq::<char>::empty());
    assert(with_signs(filter_parts(f)) =~= events_query(f));
}

/// The daemon reads from the path of the stream the filter that the client wrote into it.
pub proof fn law_filter_is_understood(f: EventFilter)
    requires
        f.space_id matches Some(s) ==> is_ascii_chars(s@) && s@.len() > 0,
        f.topic_id matches Some(t) ==> is_ascii_chars(t@) && t@.len() > 0,
    ensures
        ({
            let m = query_map(pieces(events_query(f), '&'));
            &&& routed("GET"@, events_path(f)) == (RouteV::Events { query: events_query(f) })
            &&& filled(value_in(m, "space_id"@)) == text_opt(f.space_id)
            &&& filled(value_in(m, "topic_id"@)) == text_opt(f.topic_id)
            &&& f.kinds@ == match value_in(m, "kinds"@) {
                Some(v) => kinds_in(pieces(v, ',')),
                None => Seq::empty(),
            }
        }),
{
    let q = events_query(f);
    let ps = filter_parts(f);
    lemma_filter_query(f);
    reveal_strlit("space_id");
    reveal_strlit("topic_id");
    reveal_strlit("kinds");
    if f.kinds@.len() > 0 {
        lemma_kinds_read(f.kinds@);
    } else {
        assert(f.kinds@ =~= Seq::empty());
    }
    assert forall|i: int| 0 <= i < ps.len() implies readable(#[trigger] ps[i]) by {
        assert(ps[i].0 == "space_id"@ || ps[i].0 == "topic_id"@ || ps[i].0 == "kinds"@);
    }
    lemma_query_of_parts(ps);
    assert("space_id"@[0] != "topic_id"@[0]);
    assert("space_id"@[0] != "kinds"@[0]);
    assert("topic_id"@[0] != "kinds"@[0]);
    reveal_strlit("/v1/events?");
    reveal_strlit("v1");
    reveal_strlit("events");
    reveal_strlit("health");
    reveal_strlit("spaces");
    let head = seq!['/'] + "v1"@.push('/') + "events"@;
    assert(events_path(f) =~= head.push('?') + q);
    lemma_sides(head, q, '?');
    let bare = "v1"@.push('/') + "events"@;
    assert(head.drop_first() =~= bare);
    assert(bare[0] == 'v');
    assert(without_leading(bare, '/') == bare);
    assert(without_leading(head, '/') == bare);
    lemma_two_pieces("v1"@, "events"@, '/');
    assert("events"@[0] != "health"@[0]);
    assert("events"@[0] != "spaces"@[0]);
}

} // verus!
