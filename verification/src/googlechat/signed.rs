//! What a session rests on: the cookies that are taken and sent, the tokens that are found, the
//! replies that are read, and polls that go on.
use vstd::prelude::*;
use vstd::utf8::encode_utf8;

use crate::cut::law_texts_are_joined_in_order;
use crate::error::ChannelError;
use crate::event::inbound::{EventV, ReasonV};
use crate::googlechat::auth::{chat_place, first_set, has_login, lifetime, on_chat};
use crate::googlechat::chunk::utf16_units;
use crate::googlechat::cookies::{
    collected, desired, first_failure, first_value, header_text, hex_bytes, missing, row_value,
    service_cookies, value_in, BrowserCookie, CookieRow,
};
use crate::googlechat::direct::{
    answers, bare, call_headers, page_token, reply_payload, search_headers, DirectSession,
};
use crate::googlechat::poll::{pause, step_after, step_before, PollState, Poller, StepV};
use crate::googlechat::reply::{reply_fields, unguarded};
use crate::googlechat::session::{
    api_address, events_address, first_frame, register_address, sid_address, sid_in_json,
    streamed_sid, units_prefix, CHAT_BASE,
};
use crate::json::JsonV;
use crate::percent::{hex, law_hex_is_digits};
use crate::text::{
    after, decimal, find, holds, law_decimal_reads_back, lemma_find_from, occurs_at, starts,
    trimmed,
};
use crate::types::ids::PlatformId;

verus! {

// ───────────────────────── cookies ─────────────────────────

/// The first cookie of a name counts; a name that no cookie has has no value.
pub proof fn law_the_first_cookie_counts(
    v: Seq<(Seq<char>, Seq<char>)>,
    name: Seq<char>,
    i: int,
)
    requires
        0 <= i <= v.len(),
        forall|j: int| 0 <= j < i ==> (#[trigger] v[j]).0 != name,
    ensures
        i < v.len() && v[i].0 == name ==> first_value(v, name) == Some(v[i].1),
        i == v.len() ==> first_value(v, name) is None,
    decreases v.len(),
{
    if v.len() > 0 && i > 0 {
        let rest = v.drop_first();
        assert(v[0].0 != name);
        assert forall|j: int| 0 <= j < i - 1 implies (#[trigger] rest[j]).0 != name by {
            assert(v[j + 1].0 != name);
        }
        law_the_first_cookie_counts(rest, name, i - 1);
    }
}

/// All cookies are sent, in their order: the header of two runs of cookies is that of the one
/// and that of the other.
pub proof fn law_all_cookies_are_sent(
    a: Seq<(Seq<char>, Seq<char>)>,
    b: Seq<(Seq<char>, Seq<char>)>,
)
    requires
        a.len() > 0,
        b.len() > 0,
    ensures
        header_text(a + b) == header_text(a) + "; "@ + header_text(b),
        forall|p: (Seq<char>, Seq<char>)| #[trigger]
            header_text(seq![p]) == p.0 + "="@ + p.1,
{
    let f = |p: (Seq<char>, Seq<char>)| p.0 + "="@ + p.1;
    assert((a + b).map_values(f) =~= a.map_values(f) + b.map_values(f));
    law_texts_are_joined_in_order(a.map_values(f), b.map_values(f), "; "@);
    assert forall|p: (Seq<char>, Seq<char>)| #[trigger]
        header_text(seq![p]) == p.0 + "="@ + p.1 by {
        assert(seq![p].map_values(f) =~= seq![p.0 + "="@ + p.1]);
    }
}

/// Of the cookies of a running browser all are taken that are of the service's domains, in
/// their order, and no others.
pub proof fn law_the_cookies_of_the_service_are_taken(v: Seq<BrowserCookie>)
    ensures
        ({
            let ours = v.filter(
                |c: BrowserCookie| holds(c.domain@, "google.com"@) || holds(
                    c.domain@,
                    "google.ca"@,
                ),
            );
            &&& service_cookies(v).len() == ours.len()
            &&& forall|i: int|
                0 <= i < ours.len() ==> #[trigger] service_cookies(v)[i] == (
                    ours[i].name@,
                    ours[i].value@,
                )
        }),
    decreases v.len(),
{
    reveal(Seq::filter);
    if v.len() > 0 {
        law_the_cookies_of_the_service_are_taken(v.drop_last());
    }
}

/// The row has a value that can be read.
pub open spec fn is_readable(row: CookieRow, key: Seq<u8>) -> bool {
    row_value(row, key) is Some
}

/// A row that is not encrypted has the value that stands in it.
pub proof fn law_a_plain_row_is_read(row: CookieRow, key: Seq<u8>)
    ensures
        row.plain@.len() > 0 ==> row_value(row, key) == Some(row.plain@),
        row.plain@.len() == 0 && row.encrypted@.len() < 4 ==> row_value(row, key) is None,
{
}

/// Of each cookie that is wanted the first row that can be read gives the value; a cookie
/// that no row has is not there, nor is one that is not wanted.
pub proof fn law_the_first_readable_row_counts(
    rows: Seq<CookieRow>,
    key: Seq<u8>,
    name: Seq<char>,
    i: int,
)
    requires
        0 <= i <= rows.len(),
        forall|j: int|
            0 <= j < i ==> !((#[trigger] rows[j]).name@ == name && is_readable(rows[j], key)),
        i < rows.len() ==> rows[i].name@ == name && is_readable(rows[i], key),
    ensures
        i < rows.len() && desired(name) ==> first_value(collected(rows, key), name) == row_value(
            rows[i],
            key,
        ),
        i == rows.len() || !desired(name) ==> first_value(collected(rows, key), name) is None,
    decreases rows.len(),
{
    if rows.len() > 0 {
        let t = rows.drop_last();
        let before = collected(t, key);
        let all = collected(rows, key);
        let last = rows.last();
        assert(last == rows[rows.len() - 1]);
        if i == rows.len() {
            law_the_first_readable_row_counts(t, key, name, i - 1);
            if all.len() > before.len() {
                lemma_value_of_more(before, all.last(), name);
            }
        } else if i == rows.len() - 1 {
            law_the_first_readable_row_counts(t, key, name, i);
            if all.len() > before.len() {
                lemma_value_of_more(before, all.last(), name);
            }
        } else {
            assert(t[i] == rows[i]);
            law_the_first_readable_row_counts(t, key, name, i);
            if all.len() > before.len() {
                lemma_value_of_more(before, all.last(), name);
            }
        }
    }
}

proof fn lemma_value_of_more(
    v: Seq<(Seq<char>, Seq<char>)>,
    p: (Seq<char>, Seq<char>),
    name: Seq<char>,
)
    ensures
        first_value(v, name) is Some ==> first_value(v.push(p), name) == first_value(v, name),
        first_value(v, name) is None ==> first_value(v.push(p), name) == if p.0 == name {
            Some(p.1)
        } else {
            None
        },
    decreases v.len(),
{
    let w = v.push(p);
    if v.len() == 0 {
        assert(w.drop_first() =~= v);
        assert(first_value(w.drop_first(), name) is None);
    } else {
        assert(w.drop_first() =~= v.drop_first().push(p));
        lemma_value_of_more(v.drop_first(), p, name);
    }
}

/// There is a session just where its three cookies are; the one that is told as missing is
/// not there.
pub proof fn law_a_session_needs_its_cookies(v: Seq<(Seq<char>, Seq<char>)>)
    ensures
        missing(v) is None <==> first_value(v, "SID"@) is Some && first_value(v, "HSID"@) is Some
            && first_value(v, "SSID"@) is Some,
        missing(v) matches Some(m) ==> first_value(v, m) is None && (m == "SID"@ || m == "HSID"@
            || m == "SSID"@),
{
}

/// The first row that could not be read is told of.
pub proof fn law_the_first_failure_is_told(rows: Seq<Result<CookieRow, String>>, i: int)
    requires
        0 <= i <= rows.len(),
        forall|j: int| 0 <= j < i ==> (#[trigger] rows[j]) is Ok,
        i < rows.len() ==> rows[i] is Err,
    ensures
        i < rows.len() ==> first_failure(rows) == Some(rows[i]->Err_0@),
        i == rows.len() ==> first_failure(rows) is None,
    decreases rows.len(),
{
    if rows.len() > 0 && i > 0 {
        let rest = rows.drop_first();
        assert(rows[0] is Ok);
        assert forall|j: int| 0 <= j < i - 1 implies (#[trigger] rest[j]) is Ok by {
            assert(rows[j + 1] is Ok);
        }
        law_the_first_failure_is_told(rest, i - 1);
    }
}

/// A value with thirty-two bytes before it is read without them, whatever they are; a short
/// value that has none before it is read whole.
pub proof fn law_a_value_is_read(head: Seq<u8>, t: Seq<char>)
    ensures
        head.len() == 32 && t.len() > 0 ==> value_in(head + encode_utf8(t)) == Ok::<
            Seq<char>,
            Seq<char>,
        >(t),
        encode_utf8(t).len() <= 32 ==> value_in(encode_utf8(t)) == Ok::<Seq<char>, Seq<char>>(t),
{
    vstd::utf8::encode_utf8_valid_utf8(t);
    vstd::utf8::encode_utf8_decode_utf8(t);
    let all = head + encode_utf8(t);
    if head.len() == 32 {
        assert(after(all, 32) =~= encode_utf8(t));
        if t.len() > 0 {
            vstd::utf8::encode_utf8_first_scalar(t);
        }
    }
}

proof fn lemma_written_len(data: Seq<u8>)
    ensures
        hex_bytes(data).len() == 2 * data.len(),
    decreases data.len(),
{
    if data.len() > 0 {
        lemma_written_len(data.drop_last());
        law_hex_is_digits(data.last() as nat, 2, false);
    }
}

/// Every byte is written with two digits, in its place.
pub proof fn law_every_byte_is_written(data: Seq<u8>, i: int)
    requires
        0 <= i < data.len(),
    ensures
        hex_bytes(data).len() == 2 * data.len(),
        hex_bytes(data).subrange(2 * i, 2 * i + 2) == hex(data[i] as nat, 2, false),
    decreases data.len(),
{
    let t = data.drop_last();
    let last = hex(data.last() as nat, 2, false);
    lemma_written_len(data);
    lemma_written_len(t);
    let all = hex_bytes(data);
    assert(all == hex_bytes(t) + last);
    if i < t.len() {
        law_every_byte_is_written(t, i);
        assert(all.subrange(2 * i, 2 * i + 2) =~= hex_bytes(t).subrange(2 * i, 2 * i + 2));
    } else {
        assert(all.subrange(2 * i, 2 * i + 2) =~= last);
    }
}

// ───────────────────────── requests ─────────────────────────

/// A header of this name and value is sent.
pub open spec fn is_sent(hs: Seq<(Seq<char>, Seq<char>)>, name: Seq<char>, value: Seq<char>) -> bool {
    exists|i: int| 0 <= i < hs.len() && #[trigger] hs[i] == (name, value)
}

proof fn lemma_sent(hs: Seq<(Seq<char>, Seq<char>)>, i: int)
    requires
        0 <= i < hs.len(),
    ensures
        is_sent(hs, hs[i].0, hs[i].1),
{
}

/// A call carries the cookies and, where the page gave one, the token. It is signed just
/// where the cookie for that is there.
pub proof fn law_a_call_carries_the_session(s: DirectSession, now: u64)
    ensures
        ({
            let hs = call_headers(s, now);
            let token = s.xsrf_token is Some;
            let signed = s.cookies.sapisid is Some;
            &&& is_sent(hs, "Cookie"@, s.cookies.cookie_header@)
            &&& is_sent(hs, "X-Goog-AuthUser"@, "0"@)
            &&& token ==> is_sent(hs, "X-Framework-Xsrf-Token"@, s.xsrf_token->0@)
            &&& signed ==> hs.last().0 == "Authorization"@ && starts(
                hs.last().1,
                "SAPISIDHASH "@ + decimal(now as nat) + "_"@,
            )
            &&& hs.len() == 3 + (if token {
                1int
            } else {
                0
            }) + (if signed {
                1int
            } else {
                0
            })
        }),
{
    let hs = call_headers(s, now);
    lemma_sent(hs, 0);
    lemma_sent(hs, 1);
    if s.xsrf_token is Some {
        lemma_sent(hs, 3);
    }
    if s.cookies.sapisid is Some {
        let head = "SAPISIDHASH "@ + decimal(now as nat) + "_"@;
        assert(hs.last().1.subrange(0, head.len() as int) =~= head);
    }
}

/// A search carries the cookies too, and is signed just where a call is.
pub proof fn law_a_search_carries_the_session(s: DirectSession, now: u64)
    ensures
        ({
            let hs = search_headers(s, now);
            let signed = s.cookies.sapisid is Some;
            &&& is_sent(hs, "Cookie"@, s.cookies.cookie_header@)
            &&& is_sent(hs, "X-Goog-AuthUser"@, "0"@)
            &&& signed ==> hs.last() == call_headers(s, now).last()
            &&& hs.len() == 6 + if signed {
                1int
            } else {
                0
            }
        }),
{
    let hs = search_headers(s, now);
    lemma_sent(hs, 3);
    lemma_sent(hs, 4);
}

// ───────────────────────── tokens ─────────────────────────

/// The token that the page holds under a key is found wherever it stands, unless it is
/// empty; a page without the key has none.
pub proof fn law_the_token_of_the_page_is_found(
    before: Seq<char>,
    key: Seq<char>,
    t: Seq<char>,
    rest: Seq<char>,
)
    requires
        !t.contains('"'),
        forall|j: int|
            0 <= j < before.len() ==> !#[trigger] occurs_at(
                before + ("\""@ + key + "\":\""@) + t + seq!['"'] + rest,
                "\""@ + key + "\":\""@,
                j,
            ),
    ensures
        ({
            let html = before + ("\""@ + key + "\":\""@) + t + seq!['"'] + rest;
            &&& t.len() > 0 ==> page_token(html, key) == Some(t)
            &&& t.len() == 0 ==> page_token(html, key) is None
        }),
        !holds(before, "\""@ + key + "\":\""@) ==> page_token(before, key) is None,
{
    crate::cut::law_what_is_quoted_is_given_out(before, "\""@ + key + "\":\""@, t, rest);
}

/// The number of the session is what is quoted behind the first mark of the stream.
pub proof fn law_the_number_of_the_session_is_found(
    before: Seq<char>,
    sid: Seq<char>,
    rest: Seq<char>,
)
    requires
        !sid.contains('"'),
        sid.len() > 0,
        forall|j: int|
            0 <= j < before.len() ==> !#[trigger] occurs_at(
                before + "[\"c\",\""@ + sid + seq!['"'] + rest,
                "[\"c\",\""@,
                j,
            ),
    ensures
        streamed_sid(before + "[\"c\",\""@ + sid + seq!['"'] + rest) == Some(sid),
{
    crate::cut::law_what_is_quoted_is_given_out(before, "[\"c\",\""@, sid, rest);
}

proof fn lemma_units_of_text(s: Seq<char>, rest: Seq<char>)
    ensures
        units_prefix(s + rest, utf16_units(s)) == s,
    decreases s.len(),
{
    if s.len() > 0 {
        assert((s + rest).drop_first() =~= s.drop_first() + rest);
        assert((s + rest)[0] == s[0]);
        lemma_units_of_text(s.drop_first(), rest);
        assert(seq![s[0]] + s.drop_first() =~= s);
    }
}

/// The first frame of a body is the text that its line gives the length of, whatever follows.
pub proof fn law_the_first_frame_is_cut_out(s: Seq<char>, rest: Seq<char>)
    requires
        utf16_units(s) <= usize::MAX,
    ensures
        first_frame(decimal(utf16_units(s)) + seq!['\n'] + s + rest) == Some(s),
{
    let units = utf16_units(s);
    let head = decimal(units);
    let body = head + seq!['\n'] + s + rest;
    let n = head.len() as int;
    law_decimal_reads_back(units);
    crate::cut::law_numbers_read_back(units, usize::MAX as nat);
    assert(crate::text::digit(head[0]) && crate::text::digit(head[n - 1]));
    assert(trimmed(head) == head);
    assert(body.take(n) =~= head);
    assert(body.subrange(n, n + 1) =~= seq!['\n']);
    assert(occurs_at(body, seq!['\n'], n));
    lemma_find_from(body, seq!['\n'], 0);
    match find(body, seq!['\n']) {
        Some(k) => {
            if k < n {
                assert(body.subrange(k, k + 1)[0] == head[k]);
                assert(crate::text::digit(head[k]));
            }
        },
        None => {},
    }
    assert(find(body, seq!['\n']) == Some(n));
    assert(after(body, n + 1) =~= s + rest);
    lemma_units_of_text(s, rest);
}

// ───────────────────────── replies ─────────────────────────

/// A reply to the procedure: a frame with the mark, its name and the payload.
pub open spec fn reply_frame(rpc: Seq<char>, payload: Seq<char>, more: Seq<JsonV>) -> JsonV {
    JsonV::Array(
        seq![JsonV::Text("wrb.fr"@), JsonV::Text(rpc), JsonV::Text(payload)] + more,
    )
}

/// The payload of the first frame that answers the procedure is given out, whatever other
/// frames come before it and behind; without such a frame there is none.
pub proof fn law_the_reply_to_the_call_is_found(
    before: Seq<JsonV>,
    rpc: Seq<char>,
    payload: Seq<char>,
    more: Seq<JsonV>,
    behind: Seq<JsonV>,
)
    requires
        forall|i: int| 0 <= i < before.len() ==> !answers(#[trigger] before[i], rpc),
    ensures
        reply_payload(
            JsonV::Array(before + seq![reply_frame(rpc, payload, more)] + behind),
            rpc,
        ) == Some(payload),
        reply_payload(JsonV::Array(before), rpc) is None,
    decreases before.len(),
{
    let f = reply_frame(rpc, payload, more);
    let all = before + seq![f] + behind;
    if before.len() == 0 {
        assert(all[0] == f);
        let inner = seq![JsonV::Text("wrb.fr"@), JsonV::Text(rpc), JsonV::Text(payload)] + more;
        assert(inner[0] == JsonV::Text("wrb.fr"@));
        assert(inner[1] == JsonV::Text(rpc));
        assert(inner[2] == JsonV::Text(payload));
        assert(f.item(0) == Some(inner[0]));
        assert(f.item(1) == Some(inner[1]));
        assert(f.item(2) == Some(inner[2]));
    } else {
        assert(!answers(before[0], rpc));
        assert(all[0] == before[0]);
        assert(all.drop_first() =~= before.drop_first() + seq![f] + behind);
        let rest = before.drop_first();
        assert forall|i: int| 0 <= i < rest.len() implies !answers(#[trigger] rest[i], rpc) by {
            assert(!answers(before[i + 1], rpc));
        }
        law_the_reply_to_the_call_is_found(rest, rpc, payload, more, behind);
    }
}

/// A frame with another mark or another name answers nothing.
pub proof fn law_other_frames_answer_nothing(frame: JsonV, rpc: Seq<char>)
    ensures
        answers(frame, rpc) ==> (frame matches JsonV::Array(a) && a.len() >= 2 && a[0]
            == JsonV::Text("wrb.fr"@) && a[1] == JsonV::Text(rpc)),
{
}

/// The guard before a reply is taken off, and the reply is read the same with it or without.
pub proof fn law_the_guard_is_taken_off(line: Seq<char>, t: Seq<char>)
    requires
        starts(line, ")]}'"@),
        !line.contains('\n'),
    ensures
        unguarded(line + seq!['\n'] + t) == trimmed(t),
        !starts(t, ")]}'"@) ==> unguarded(t) == trimmed(t) && bare(t) == trimmed(t),
        bare(")]}'"@ + t) == bare(t),
{
    reveal_strlit(")]}'");
    let s = line + seq!['\n'] + t;
    let n = line.len() as int;
    let p = ")]}'"@;
    assert(s.subrange(0, p.len() as int) =~= line.subrange(0, p.len() as int));
    assert(starts(s, p));
    assert(s.subrange(n, n + 1) =~= seq!['\n']);
    assert(occurs_at(s, seq!['\n'], n));
    lemma_find_from(s, seq!['\n'], 0);
    match find(s, seq!['\n']) {
        Some(k) => {
            if k < n {
                assert(s.subrange(k, k + 1)[0] == line[k]);
                assert(line.contains(line[k]));
            }
        },
        None => {},
    }
    assert(after(s, n + 1) =~= t);
    crate::cut::law_marks_are_taken(t, p);
}

/// The fields of a reply are those that stand behind the name of its method, all of them; a
/// reply without the name begins with its fields.
pub proof fn law_all_fields_of_a_reply_are_read(
    name: Seq<char>,
    fields: Seq<JsonV>,
    behind: Seq<JsonV>,
)
    ensures
        reply_fields(
            JsonV::Array(seq![JsonV::Array(seq![JsonV::Text(name)] + fields)] + behind),
        ) == Some(fields),
        fields.len() == 0 || !(fields[0] is Text) ==> reply_fields(
            JsonV::Array(seq![JsonV::Array(fields)] + behind),
        ) == Some(fields),
{
    let inner = seq![JsonV::Text(name)] + fields;
    let outer = seq![JsonV::Array(inner)] + behind;
    assert(outer[0] == JsonV::Array(inner));
    assert(JsonV::Array(outer).item(0) == Some(outer[0]));
    assert(inner[0] == JsonV::Text(name));
    assert(after(inner, 1) =~= fields);
    let bare = seq![JsonV::Array(fields)] + behind;
    assert(bare[0] == JsonV::Array(fields));
    assert(JsonV::Array(bare).item(0) == Some(bare[0]));
}

// ───────────────────────── the browser ─────────────────────────

/// The first tab that shows the service makes the calls, and where none does the first tab.
pub proof fn law_the_first_chat_tab_is_taken(urls: Seq<String>, i: int, k: int)
    requires
        0 <= i <= k <= urls.len(),
        forall|j: int| i <= j < k ==> !on_chat((#[trigger] urls[j])@),
    ensures
        k < urls.len() && on_chat(urls[k]@) ==> chat_place(urls, i) == Some(k),
        k == urls.len() && urls.len() > 0 ==> chat_place(urls, i) == Some(0int),
        urls.len() == 0 ==> chat_place(urls, i) is None,
    decreases urls.len() - i,
{
    if i < k {
        assert(!on_chat(urls[i]@));
        law_the_first_chat_tab_is_taken(urls, i + 1, k);
    }
}

/// The first place that has the browser is taken; where none has, there is none.
pub proof fn law_the_first_place_is_taken(marks: Seq<bool>, i: int, k: int)
    requires
        0 <= i <= k <= marks.len(),
        forall|j: int| i <= j < k ==> !#[trigger] marks[j],
    ensures
        k < marks.len() && marks[k] ==> first_set(marks, i) == Some(k),
        k == marks.len() ==> first_set(marks, i) is None,
    decreases marks.len() - i,
{
    if i < k {
        assert(!marks[i]);
        law_the_first_place_is_taken(marks, i + 1, k);
    }
}

// ───────────────────────── polls ─────────────────────────

/// A poll that fails loses nothing: the next one acknowledges what the last one did. Each
/// failure is counted and told with its number, and the wait doubles up to a minute.
pub proof fn law_a_failed_poll_is_tried_again(
    poller: Poller,
    state: PollState,
    e: ChannelError,
)
    requires
        !(e is SessionExpired),
        state.retries < u32::MAX,
    ensures
        ({
            let (next, step) = step_after(poller, state, Err(e));
            let told = EventV::Reconnecting {
                platform: PlatformId::GoogleChat,
                attempt: next.retries,
            };
            &&& next.aid == state.aid
            &&& next.retries == state.retries + 1
            &&& step is Wait || step is Reopen
            &&& step matches StepV::Wait(ev, n) ==> ev == told && n == pause(next.retries)
            &&& step matches StepV::Reopen(ev) ==> ev == told && poller == Poller::Tab
        }),
        state.retries < 6 ==> pause((state.retries + 1) as u32) == 2 * pause(state.retries),
        state.retries >= 6 ==> pause((state.retries + 1) as u32) == pause(state.retries),
{
    reveal(vstd::arithmetic::power2::pow2);
    reveal_with_fuel(vstd::arithmetic::power::pow, 8);
}

/// A session that is over is signed up for anew, but for a poller in a tab of its own, which
/// ends and tells why. What was counted stays.
pub proof fn law_an_ended_session_is_renewed(poller: Poller, state: PollState)
    ensures
        ({
            let (next, step) = step_after(poller, state, Err(ChannelError::SessionExpired));
            &&& next == state
            &&& poller != Poller::Tab ==> step is Register
            &&& poller == Poller::Tab ==> step == StepV::Stop(
                EventV::Disconnected {
                    platform: PlatformId::GoogleChat,
                    reason: ReasonV::SessionExpired,
                },
            )
        }),
{
}

/// A reply is taken note of: the next poll acknowledges it.
pub proof fn law_a_reply_is_acknowledged(poller: Poller, state: PollState, aid: u64)
    ensures
        step_after(poller, state, Ok(aid)).0.aid == aid,
        step_after(poller, state, Ok(aid)).1 is Poll,
{
}

/// A poller goes on as long as it has failed less often than it may, and has what it needs;
/// else it ends and tells why.
pub proof fn law_a_poller_goes_on(poller: Poller, state: PollState, has_sid: bool)
    ensures
        ({
            let most: u32 = if poller == Poller::Tab {
                20
            } else {
                10
            };
            let step = step_before(poller, state, has_sid);
            &&& step is Poll <==> state.retries < most && (has_sid || poller != Poller::Direct)
            &&& state.retries >= most ==> step == StepV::Stop(
                EventV::Disconnected {
                    platform: PlatformId::GoogleChat,
                    reason: ReasonV::MaxRetriesExceeded,
                },
            )
            &&& state.retries < most && !(step is Poll) ==> step == StepV::Stop(
                EventV::Disconnected {
                    platform: PlatformId::GoogleChat,
                    reason: ReasonV::SessionExpired,
                },
            )
        }),
{
}

// ───────────────────────── addresses ─────────────────────────

proof fn lemma_same_middle(a: Seq<char>, x: Seq<char>, y: Seq<char>, b: Seq<char>)
    requires
        a + x + b == a + y + b,
    ensures
        x == y,
{
    assert((a + x + b).len() == a.len() + x.len() + b.len());
    assert((a + y + b).len() == a.len() + y.len() + b.len());
    assert(x.len() == y.len());
    let n = a.len() as int;
    let m = n + x.len();
    assert((a + x + b).subrange(n, m) =~= x);
    assert((a + y + b).subrange(n, m) =~= y);
}

/// Polls of different sessions, or that acknowledge different arrays, go to different
/// addresses.
pub proof fn law_polls_tell_what_they_acknowledge(
    sid: Seq<char>,
    other: Seq<char>,
    a: u64,
    b: u64,
    zx: Seq<char>,
)
    ensures
        a != b ==> events_address(sid, a, zx) != events_address(sid, b, zx),
        sid != other ==> events_address(sid, a, zx) != events_address(other, a, zx),
        starts(events_address(sid, a, zx), CHAT_BASE@),
        starts(sid_address(zx), CHAT_BASE@),
        starts(register_address(), CHAT_BASE@),
{
    let head = CHAT_BASE@ + "/webchannel/events?VER=8&RID=rpc&SID="@;
    let tail = "&TYPE=xmlhttp&CI=0&t=1&zx="@ + zx;
    let to_aid = head + sid + "&AID="@;
    assert(events_address(sid, a, zx) =~= to_aid + decimal(a as nat) + tail);
    assert(events_address(sid, b, zx) =~= to_aid + decimal(b as nat) + tail);
    if events_address(sid, a, zx) == events_address(sid, b, zx) {
        lemma_same_middle(to_aid, decimal(a as nat), decimal(b as nat), tail);
        law_decimal_reads_back(a as nat);
        law_decimal_reads_back(b as nat);
    }
    let behind = "&AID="@ + decimal(a as nat) + tail;
    assert(events_address(sid, a, zx) =~= head + sid + behind);
    assert(events_address(other, a, zx) =~= head + other + behind);
    if events_address(sid, a, zx) == events_address(other, a, zx) {
        lemma_same_middle(head, sid, other, behind);
    }
    let n = CHAT_BASE@.len() as int;
    assert(events_address(sid, a, zx).subrange(0, n) =~= CHAT_BASE@);
    assert(sid_address(zx).subrange(0, n) =~= CHAT_BASE@);
    assert(register_address().subrange(0, n) =~= CHAT_BASE@);
}

/// Calls are told apart by what is called and by their number; one whose reply is to be in
/// the wire format says so at the end.
pub proof fn law_calls_tell_what_is_called(
    e: Seq<char>,
    f: Seq<char>,
    m: u32,
    n: u32,
    binary: bool,
)
    ensures
        e != f ==> api_address(e, m, binary) != api_address(f, m, binary),
        m != n ==> api_address(e, m, binary) != api_address(e, n, binary),
        api_address(e, m, true) == api_address(e, m, false) + "&rt=b"@,
        starts(api_address(e, m, binary), CHAT_BASE@ + "/api/"@ + e + "?c="@),
{
    let mark = if binary {
        "&rt=b"@
    } else {
        Seq::empty()
    };
    let head = CHAT_BASE@ + "/api/"@;
    let tail = "?c="@ + decimal(m as nat) + mark;
    assert(api_address(e, m, binary) =~= head + e + tail);
    assert(api_address(f, m, binary) =~= head + f + tail);
    if api_address(e, m, binary) == api_address(f, m, binary) {
        lemma_same_middle(head, e, f, tail);
    }
    let to_count = head + e + "?c="@;
    assert(api_address(e, m, binary) =~= to_count + decimal(m as nat) + mark);
    assert(api_address(e, n, binary) =~= to_count + decimal(n as nat) + mark);
    if api_address(e, m, binary) == api_address(e, n, binary) {
        lemma_same_middle(to_count, decimal(m as nat), decimal(n as nat), mark);
        law_decimal_reads_back(m as nat);
        law_decimal_reads_back(n as nat);
    }
    assert(api_address(e, m, binary).subrange(0, to_count.len() as int) =~= to_count);
}

// ───────────────────────── members of replies ─────────────────────────

/// Of two members with one name the first counts, and what has no member of a name has no
/// value for it.
pub proof fn law_the_first_member_counts(m: Seq<(Seq<char>, JsonV)>, key: Seq<char>, i: int)
    requires
        0 <= i <= m.len(),
        forall|j: int| 0 <= j < i ==> (#[trigger] m[j]).0 != key,
    ensures
        i < m.len() && m[i].0 == key ==> JsonV::Object(m).member(key) == Some(m[i].1),
        i == m.len() ==> JsonV::Object(m).member(key) is None,
    decreases m.len(),
{
    if m.len() > 0 && i > 0 {
        let rest = m.drop_first();
        assert(m[0].0 != key);
        assert forall|j: int| 0 <= j < i - 1 implies (#[trigger] rest[j]).0 != key by {
            assert(m[j + 1].0 != key);
        }
        law_the_first_member_counts(rest, key, i - 1);
    }
}

/// The number of the session stands at the second place of the array at the second place of
/// the first array of a reply, whatever else is there.
pub proof fn law_the_registered_number_is_read(
    x: JsonV,
    y: JsonV,
    sid: Seq<char>,
    inner: Seq<JsonV>,
    middle: Seq<JsonV>,
    outer: Seq<JsonV>,
)
    ensures
        ({
            let b = JsonV::Array(seq![y, JsonV::Text(sid)] + inner);
            let a = JsonV::Array(seq![x, b] + middle);
            sid_in_json(JsonV::Array(seq![a] + outer)) == Some(sid)
        }),
{
    let b = JsonV::Array(seq![y, JsonV::Text(sid)] + inner);
    let a = JsonV::Array(seq![x, b] + middle);
    let j = JsonV::Array(seq![a] + outer);
    assert(j.item(0) == Some(a));
    assert(a.item(1) == Some(b));
    assert(b.item(1) == Some(JsonV::Text(sid)));
}

/// A token is good for as long as its reply says, in a number or in a text; for an hour where
/// the reply does not say.
pub proof fn law_a_token_lasts_as_told(j: JsonV, n: u64)
    ensures
        j.member("expiresIn"@) == Some(JsonV::Pos(n)) ==> lifetime(j) == n,
        j.member("expiresIn"@) == Some(JsonV::Text(decimal(n as nat))) ==> lifetime(j) == n,
        j.member("expiresIn"@) is None ==> lifetime(j) == 3600,
{
    crate::cut::law_numbers_read_back(n as nat, u64::MAX as nat);
}

/// A user is taken for signed in by the one cookie on the service's own domain; other cookies
/// say nothing.
pub proof fn law_other_cookies_sign_nobody_in(a: Seq<BrowserCookie>, b: Seq<BrowserCookie>)
    ensures
        has_login(a + b) <==> has_login(a) || has_login(b),
        forall|c: BrowserCookie| #[trigger]
            has_login(seq![c]) <==> c.name@ == "SID"@ && holds(c.domain@, "google.com"@),
{
    if has_login(a) {
        let i = choose|i: int|
            0 <= i < a.len() && (#[trigger] a[i]).name@ == "SID"@ && holds(
                a[i].domain@,
                "google.com"@,
            );
        assert((a + b)[i] == a[i]);
    }
    if has_login(b) {
        let i = choose|i: int|
            0 <= i < b.len() && (#[trigger] b[i]).name@ == "SID"@ && holds(
                b[i].domain@,
                "google.com"@,
            );
        assert((a + b)[a.len() + i] == b[i]);
    }
    if has_login(a + b) {
        let i = choose|i: int|
            0 <= i < (a + b).len() && (#[trigger] (a + b)[i]).name@ == "SID"@ && holds(
                (a + b)[i].domain@,
                "google.com"@,
            );
        if i < a.len() {
            assert(a[i] == (a + b)[i]);
        } else {
            assert(b[i - a.len()] == (a + b)[i]);
        }
    }
    assert forall|c: BrowserCookie| #[trigger]
        has_login(seq![c]) <==> c.name@ == "SID"@ && holds(c.domain@, "google.com"@) by {
        assert(seq![c][0] == c);
    }
}

} // verus!
