//! The session that makes plain HTTP calls with a browser's cookies: what its requests
//! carry, and what its replies hold.
use vstd::prelude::*;
use vstd::utf8::encode_utf8;

use crate::error::{fetch_failed, field_missing, AuthError};
use crate::googlechat::cookies::{compute_sapisidhash, pairs, signature, ChatCookies};
use crate::googlechat::session::{
    extract_sid_from_stream, register_address, register_url, streamed_sid, CHAT_BASE,
};
use crate::json::{self, jsons, lemma_array_view, parsed, plain, printed, Json, JsonV};
use crate::percent::{escaped, url_encode};
use crate::text::{
    self, after, decimal, join2, join3, quoted, quoted_after, text_opt, trimmed, within,
    without_copies,
};
use crate::types::ids::{IdInterner, Pool};

verus! {

broadcast use {vstd::string::group_string_axioms, lemma_array_view};

/// The origin that calls are signed for.
pub const ORIGIN: &'static str = "https://chat.google.com";

/// The browser that the calls name.
pub const USER_AGENT: &'static str = "Mozilla/5.0 (Macintosh; Intel Mac OS X 10_15_7) AppleWebKit/537.36";

/// A session that makes plain HTTP calls.
pub struct DirectSession {
    pub cookies: ChatCookies,
    /// The token that the service wants to see with each call.
    pub xsrf_token: Option<String>,
    /// The token that the service wants to see with each search.
    pub at_token: Option<String>,
    /// The number of the event channel, once it is open.
    pub sid: Option<String>,
    pub interner: IdInterner,
    /// The number of the call made last.
    pub api_counter: u32,
}

/// A request to make.
#[derive(Debug)]
pub struct Request {
    pub url: String,
    pub headers: Vec<(String, String)>,
}

/// A header.
pub open spec fn header(name: Seq<char>, value: Seq<char>) -> Seq<(Seq<char>, Seq<char>)> {
    seq![(name, value)]
}

/// The header that a call made at the second `now` is signed with, if the cookie for it
/// is there.
pub open spec fn signed(sapisid: Option<Seq<char>>, now: u64) -> Seq<(Seq<char>, Seq<char>)> {
    match sapisid {
        Some(s) => header("Authorization"@, signature(s, ORIGIN@, now)),
        None => Seq::empty(),
    }
}

/// The headers of a call made at the second `now`.
pub open spec fn call_headers(s: DirectSession, now: u64) -> Seq<(Seq<char>, Seq<char>)> {
    header("Cookie"@, s.cookies.cookie_header@) + header("X-Goog-AuthUser"@, "0"@) + header(
        "User-Agent"@,
        USER_AGENT@,
    ) + (match s.xsrf_token {
        Some(t) => header("X-Framework-Xsrf-Token"@, t@),
        None => Seq::empty(),
    }) + signed(text_opt(s.cookies.sapisid), now)
}

/// The headers of a search made at the second `now`.
pub open spec fn search_headers(s: DirectSession, now: u64) -> Seq<(Seq<char>, Seq<char>)> {
    header("Content-Type"@, "application/x-www-form-urlencoded;charset=UTF-8"@) + header(
        "Origin"@,
        ORIGIN@,
    ) + header("Referer"@, ORIGIN@ + "/"@) + header("Cookie"@, s.cookies.cookie_header@) + header(
        "X-Goog-AuthUser"@,
        "0"@,
    ) + header("User-Agent"@, USER_AGENT@) + signed(text_opt(s.cookies.sapisid), now)
}

fn add_header(headers: &mut Vec<(String, String)>, name: &str, value: &str)
    ensures
        pairs(final(headers)@) == pairs(old(headers)@) + header(name@, value@),
{
    let ghost before = headers@;
    let p = (name.to_owned(), value.to_owned());
    headers.push(p);
    proof {
        assert(pairs(headers@) =~= pairs(before) + header(name@, value@));
    }
}

fn add_signature(headers: &mut Vec<(String, String)>, sapisid: &Option<String>, now: u64)
    ensures
        pairs(final(headers)@) == pairs(old(headers)@) + signed(text_opt(*sapisid), now),
{
    match sapisid {
        Some(s) => {
            let value = compute_sapisidhash(s.as_str(), ORIGIN, now);
            add_header(headers, "Authorization", value.as_str());
        },
        None => {
            proof {
                assert(pairs(headers@) =~= pairs(headers@) + Seq::empty());
            }
        },
    }
}

// ───────────────────────── tokens ─────────────────────────

/// The token that the chat page holds under `key`: what is quoted behind the key,
/// unless it is empty.
pub open spec fn page_token(html: Seq<char>, key: Seq<char>) -> Option<Seq<char>> {
    match quoted(html, "\""@ + key + "\":\""@) {
        Some(t) => if t.len() > 0 {
            Some(t)
        } else {
            None
        },
        None => None,
    }
}

/// The token that the chat page holds under `key`.
pub fn extract_wiz_token(html: &str, key: &str) -> (r: Option<String>)
    ensures
        text_opt(r) == page_token(html@, key@),
{
    let marker = join3("\"", key, "\":\"");
    match quoted_after(html, marker.as_str()) {
        Some(t) => if t.as_str().is_empty() {
            None
        } else {
            Some(t)
        },
        None => None,
    }
}

/// The token for calls in the chat page.
pub fn extract_xsrf_from_html(html: &str) -> (r: Option<String>)
    ensures
        text_opt(r) == page_token(html@, "SMqcke"@),
{
    extract_wiz_token(html, "SMqcke")
}

/// The token for searches in the chat page.
pub fn extract_at_token_from_html(html: &str) -> (r: Option<String>)
    ensures
        text_opt(r) == page_token(html@, "SNlM0e"@),
{
    extract_wiz_token(html, "SNlM0e")
}

impl DirectSession {
    /// A session with these cookies that has made no call.
    pub fn new(cookies: ChatCookies) -> (r: DirectSession)
        ensures
            r.cookies == cookies,
            r.xsrf_token is None,
            r.at_token is None,
            r.sid is None,
            r.interner@ == Pool::empty(),
            r.api_counter == 0,
    {
        DirectSession {
            cookies,
            xsrf_token: None,
            at_token: None,
            sid: None,
            interner: IdInterner::new(),
            api_counter: 0,
        }
    }

    /// The number of the next call: one more than that of the last.
    pub fn next_api_counter(&mut self) -> (r: u32)
        requires
            old(self).api_counter < u32::MAX,
        ensures
            r == old(self).api_counter + 1,
            *final(self) == (DirectSession { api_counter: r, ..*old(self) }),
    {
        self.api_counter = self.api_counter + 1;
        self.api_counter
    }

    /// The headers of a call made at the second `now`.
    pub fn headers(&self, now: u64) -> (r: Vec<(String, String)>)
        ensures
            pairs(r@) == call_headers(*self, now),
    {
        let mut h: Vec<(String, String)> = Vec::new();
        add_header(&mut h, "Cookie", self.cookies.cookie_header.as_str());
        add_header(&mut h, "X-Goog-AuthUser", "0");
        add_header(&mut h, "User-Agent", USER_AGENT);
        proof {
            assert(pairs(Seq::<(String, String)>::empty()) + header(
                "Cookie"@,
                self.cookies.cookie_header@,
            ) =~= header("Cookie"@, self.cookies.cookie_header@));
        }
        match &self.xsrf_token {
            Some(t) => add_header(&mut h, "X-Framework-Xsrf-Token", t.as_str()),
            None => {
                proof {
                    assert(pairs(h@) =~= pairs(h@) + Seq::empty());
                }
            },
        }
        add_signature(&mut h, &self.cookies.sapisid, now);
        h
    }

    /// Takes the tokens from the chat page. Without the token for calls there is no
    /// session, and nothing changes.
    pub fn fetch_xsrf_token(&mut self, page: &str) -> (r: Result<(), AuthError>)
        ensures
            match page_token(page@, "SMqcke"@) {
                Some(t) => {
                    &&& r is Ok
                    &&& text_opt(final(self).xsrf_token) == Some(t)
                    &&& text_opt(final(self).at_token) == page_token(page@, "SNlM0e"@)
                    &&& *final(self) == (DirectSession {
                        xsrf_token: final(self).xsrf_token,
                        at_token: final(self).at_token,
                        ..*old(self)
                    })
                },
                None => {
                    &&& fetch_failed(
                        r,
                        "Could not find XSRF token in page. Cookies may be expired."@,
                    )
                    &&& *final(self) == *old(self)
                },
            },
    {
        let at = extract_at_token_from_html(page);
        match extract_xsrf_from_html(page) {
            Some(t) => {
                self.xsrf_token = Some(t);
                self.at_token = at;
                Ok(())
            },
            None => Err(
                AuthError::SessionFetch(
                    "Could not find XSRF token in page. Cookies may be expired.".to_owned(),
                ),
            ),
        }
    }

    /// The request that registers the session, made at the second `now`.
    pub fn register(&self, now: u64) -> (r: Request)
        ensures
            r.url@ == register_address(),
            pairs(r.headers@) == call_headers(*self, now),
    {
        Request { url: register_url(), headers: self.headers(now) }
    }

    /// Takes the number of the event channel from the reply to the first poll.
    pub fn acquire_sid(&mut self, body: &str) -> (r: Result<(), AuthError>)
        ensures
            match streamed_sid(body@) {
                Some(s) => {
                    &&& r is Ok
                    &&& text_opt(final(self).sid) == Some(s)
                    &&& *final(self) == (DirectSession { sid: final(self).sid, ..*old(self) })
                },
                None => field_missing(r, "SID"@) && *final(self) == *old(self),
            },
    {
        match extract_sid_from_stream(body) {
            Some(s) => {
                self.sid = Some(s);
                Ok(())
            },
            None => Err(AuthError::MissingField("SID")),
        }
    }
}

// ───────────────────────── calls ─────────────────────────

/// The body of the reply to a call. Any status but 200 is a failure, shown
/// with the size of its body.
pub fn call_reply(status: u16, shown: &str, body: Vec<u8>) -> (r: Result<Vec<u8>, AuthError>)
    ensures
        if status == 200 {
            r == Ok::<Vec<u8>, AuthError>(body)
        } else {
            fetch_failed(r, "HTTP "@ + shown@ + ": "@ + decimal(body@.len()) + " bytes"@)
        },
{
    if status != 200 {
        let n: usize = body.len();
        let size = text::show(n as u64);
        let mut m = join3("HTTP ", shown, ": ");
        m.append(size.as_str());
        m.append(" bytes");
        return Err(AuthError::SessionFetch(m));
    }
    Ok(body)
}

// ───────────────────────── searches ─────────────────────────

/// The request of one remote procedure: its name, its argument and the word `generic`.
pub open spec fn envelope(rpc: Seq<char>, payload: Seq<char>) -> JsonV {
    JsonV::Array(
        seq![
            JsonV::Array(
                seq![
                    JsonV::Array(
                        seq![
                            JsonV::Text(rpc),
                            JsonV::Text(payload),
                            JsonV::Null,
                            JsonV::Text("generic"@),
                        ],
                    ),
                ],
            ),
        ],
    )
}

fn make_envelope(rpc: &str, payload: &str) -> (r: Json)
    ensures
        r@ == envelope(rpc@, payload@),
        plain(r@),
{
    let mut call: Vec<Json> = Vec::new();
    call.push(Json::Text(rpc.to_owned()));
    call.push(Json::Text(payload.to_owned()));
    call.push(Json::Null);
    call.push(Json::Text("generic".to_owned()));
    let ghost c = jsons(call@);
    proof {
        assert(c =~= seq![
            JsonV::Text(rpc@),
            JsonV::Text(payload@),
            JsonV::Null,
            JsonV::Text("generic"@),
        ]);
    }
    let mut calls: Vec<Json> = Vec::new();
    calls.push(Json::Array(call));
    proof {
        assert(jsons(calls@) =~= seq![JsonV::Array(c)]);
    }
    let ghost d = jsons(calls@);
    let mut outer: Vec<Json> = Vec::new();
    outer.push(Json::Array(calls));
    proof {
        assert(jsons(outer@) =~= seq![JsonV::Array(d)]);
        assert forall|i: int| 0 <= i < c.len() implies plain(#[trigger] c[i]) by {}
        assert(plain(JsonV::Array(c)));
        assert(plain(JsonV::Array(d)));
        assert(plain(JsonV::Array(jsons(outer@))));
    }
    Json::Array(outer)
}

/// The form that a search posts.
pub open spec fn search_form(rpc: Seq<char>, payload: Seq<char>, at: Seq<char>) -> Seq<char> {
    "f.req="@ + escaped(encode_utf8(printed(envelope(rpc, payload)))) + "&at="@ + escaped(
        encode_utf8(at),
    )
}

/// The address that a search is posted to in the millisecond `reqid`.
pub open spec fn search_address(rpc: Seq<char>, reqid: u128) -> Seq<char> {
    CHAT_BASE@ + "/_/DynamiteWebUi/data/batchexecute?rpcids="@ + rpc
        + "&source-path=%2F&f.sid=-1&bl=boq_dynamite-frontend&hl=en&_reqid="@ + decimal(
        reqid as nat,
    )
}

impl DirectSession {
    /// The request that posts a search, made at the second `now` in the millisecond
    /// `reqid`, and the form that it posts. The chat page must have been read before,
    /// for its token.
    pub fn batchexecute(&self, rpc_id: &str, payload_json: &str, now: u64, reqid: u128) -> (r: Result<
        (Request, String),
        AuthError,
    >)
        ensures
            match self.at_token {
                Some(at) => r matches Ok((q, form)) && q.url@ == search_address(rpc_id@, reqid)
                    && pairs(q.headers@) == search_headers(*self, now) && form@ == search_form(
                    rpc_id@,
                    payload_json@,
                    at@,
                ),
                None => fetch_failed(r, "no at token; call fetch_xsrf_token first"@),
            },
    {
        let at = match &self.at_token {
            Some(t) => t.as_str(),
            None => return Err(
                AuthError::SessionFetch("no at token; call fetch_xsrf_token first".to_owned()),
            ),
        };
        let envelope = make_envelope(rpc_id, payload_json);
        let f_req = json::print(&envelope);
        let mut form = join2("f.req=", url_encode(f_req.as_str()).as_str());
        form.append("&at=");
        form.append(url_encode(at).as_str());
        let mut url = join3(CHAT_BASE, "/_/DynamiteWebUi/data/batchexecute?rpcids=", rpc_id);
        url.append("&source-path=%2F&f.sid=-1&bl=boq_dynamite-frontend&hl=en&_reqid=");
        url.append(text::show_wide(reqid).as_str());
        let mut h: Vec<(String, String)> = Vec::new();
        let referer = join2(ORIGIN, "/");
        add_header(&mut h, "Content-Type", "application/x-www-form-urlencoded;charset=UTF-8");
        proof {
            assert(pairs(h@) =~= header(
                "Content-Type"@,
                "application/x-www-form-urlencoded;charset=UTF-8"@,
            ));
        }
        add_header(&mut h, "Origin", ORIGIN);
        add_header(&mut h, "Referer", referer.as_str());
        add_header(&mut h, "Cookie", self.cookies.cookie_header.as_str());
        add_header(&mut h, "X-Goog-AuthUser", "0");
        add_header(&mut h, "User-Agent", USER_AGENT);
        add_signature(&mut h, &self.cookies.sapisid, now);
        Ok((Request { url, headers: h }, form))
    }
}

/// The frame is the reply of the remote procedure `rpc`.
pub open spec fn answers(frame: JsonV, rpc: Seq<char>) -> bool {
    &&& frame.item(0) matches Some(a) && a.text() == Some("wrb.fr"@)
    &&& frame.item(1) matches Some(b) && b.text() == Some(rpc)
}

/// The text at the third place of the first frame that is the reply of `rpc`.
pub open spec fn frame_payload(frames: Seq<JsonV>, rpc: Seq<char>) -> Option<Seq<char>>
    decreases frames.len(),
{
    if frames.len() == 0 {
        None
    } else if answers(frames[0], rpc) {
        match frames[0].item(2) {
            Some(p) => p.text(),
            None => None,
        }
    } else {
        frame_payload(frames.drop_first(), rpc)
    }
}

/// The payload of the reply of `rpc` in a list of frames.
pub open spec fn reply_payload(outer: JsonV, rpc: Seq<char>) -> Option<Seq<char>> {
    match outer {
        JsonV::Array(frames) => frame_payload(frames, rpc),
        _ => None,
    }
}

fn text_at(j: &Json, i: usize) -> (r: Option<&str>)
    ensures
        match r {
            Some(s) => j@.item(i as int) matches Some(x) && x.text() == Some(s@),
            None => j@.item(i as int) is None || j@.item(i as int)->0.text() is None,
        },
{
    match j.item(i) {
        Some(x) => x.as_str(),
        None => None,
    }
}

/// The payload of the reply of `rpc` in a list of frames.
pub fn find_payload(outer: &Json, rpc: &str) -> (r: Option<String>)
    ensures
        text_opt(r) == reply_payload(outer@, rpc@),
{
    let frames = match outer {
        Json::Array(a) => a,
        _ => return None,
    };
    let ghost all = jsons(frames@);
    let mut i: usize = 0;
    proof {
        assert(after(all, 0) =~= all);
    }
    while i < frames.len()
        invariant
            i <= frames@.len(),
            all == jsons(frames@),
            outer@ == JsonV::Array(all),
            frame_payload(all, rpc@) == frame_payload(after(all, i as int), rpc@),
        decreases frames@.len() - i,
    {
        proof {
            assert(after(all, i as int)[0] == frames@[i as int]@);
            assert(after(all, i as int).drop_first() =~= after(all, i + 1));
        }
        let f = &frames[i];
        let framed = match text_at(f, 0) {
            Some(s) => text::same(s, "wrb.fr"),
            None => false,
        };
        let named = match text_at(f, 1) {
            Some(s) => text::same(s, rpc),
            None => false,
        };
        if framed && named {
            return match text_at(f, 2) {
                Some(s) => Some(s.to_owned()),
                None => None,
            };
        }
        i += 1;
    }
    None
}

/// The text of a reply without the marks `)]}'` before it and the white space around it.
pub open spec fn bare(reply: Seq<char>) -> Seq<char> {
    trimmed(without_copies(reply, ")]}'"@))
}

/// The list of frames in a reply, or the message of the error.
pub fn parse_outer(reply: &str) -> (r: Result<Json, AuthError>)
    ensures
        match parsed(bare(reply@)) {
            Ok(j) => r matches Ok(v) && v@ == j,
            Err(m) => fetch_failed(r, "parse outer: "@ + m),
        },
{
    let cut = text::trim_copies(reply, ")]}'");
    let inner = text::trim(cut.as_str());
    match json::parse(inner.as_str()) {
        Ok(j) => Ok(j),
        Err(m) => Err(AuthError::SessionFetch(join2("parse outer: ", m.as_str()))),
    }
}

/// The payload of the reply to a search. Any status but 200 is a failure, shown with the
/// first two hundred bytes of the reply.
pub fn batch_reply(rpc_id: &str, status: u16, shown: &str, reply: &str) -> (r: Result<
    String,
    AuthError,
>)
    ensures
        if status != 200 {
            fetch_failed(
                r,
                "batchexecute "@ + rpc_id@ + " HTTP "@ + shown@ + ": "@ + within(reply@, 200),
            )
        } else {
            match parsed(bare(reply@)) {
                Ok(j) => match reply_payload(j, rpc_id@) {
                    Some(p) => r matches Ok(t) && t@ == p,
                    None => fetch_failed(
                        r,
                        "batchexecute "@ + rpc_id@ + ": no wrb.fr frame in response"@,
                    ),
                },
                Err(m) => fetch_failed(r, "parse outer: "@ + m),
            }
        },
{
    if status != 200 {
        let mut m = join3("batchexecute ", rpc_id, " HTTP ");
        m.append(shown);
        m.append(": ");
        m.append(text::cut_bytes(reply, 200).as_str());
        return Err(AuthError::SessionFetch(m));
    }
    let outer = match parse_outer(reply) {
        Ok(j) => j,
        Err(e) => return Err(e),
    };
    match find_payload(&outer, rpc_id) {
        Some(p) => Ok(p),
        None => Err(
            AuthError::SessionFetch(
                join3("batchexecute ", rpc_id, ": no wrb.fr frame in response"),
            ),
        ),
    }
}

} // verus!
