//! The signed-in session: its counters, the addresses of its calls, and what its
//! replies hold.
//!
//! Who runs the session makes the calls; the addresses are built and the replies
//! are read here.
use vstd::prelude::*;
use vstd::utf8::{decode_utf8, valid_utf8};

use crate::error::{fetch_failed, field_missing, AuthError};
use crate::googlechat::pblite::{utf8_fault, utf8_text};
use crate::json::{self, lemma_array_view, parsed, Json, JsonV};
use crate::percent::{hex, law_hex_is_digits, law_hex_tells_apart, pow16, show_hex};
use crate::text::{
    self, after, decimal, find, join2, join3, natural, or_empty, quoted, quoted_after, text_opt,
    text_or_empty, trimmed,
};
use crate::types::ids::{IdInterner, Pool};

verus! {

broadcast use {vstd::string::group_string_axioms, lemma_array_view};

// ───────────────────────── addresses ─────────────────────────

/// The address that all calls begin with.
pub const CHAT_BASE: &'static str = "https://chat.google.com/u/0";

/// The address that registers a session.
pub open spec fn register_address() -> Seq<char> {
    CHAT_BASE@ + "/webchannel/register?ignore_compass_cookie=1"@
}

/// The address that registers a session.
pub fn register_url() -> (r: String)
    ensures
        r@ == register_address(),
{
    join2(CHAT_BASE, "/webchannel/register?ignore_compass_cookie=1")
}

/// The address of the first poll, which asks for the number of the session.
pub open spec fn sid_address(zx: Seq<char>) -> Seq<char> {
    CHAT_BASE@ + "/webchannel/events?VER=8&RID=1&CVER=22&zx="@ + zx
        + "&t=1&SID=null&%24req=count%3D1%26ofs%3D0%26req0_data%3D%255B%255D"@
}

/// The address of the first poll, which asks for the number of the session.
pub fn sid_url(zx: &str) -> (r: String)
    ensures
        r@ == sid_address(zx@),
{
    let head = join3(CHAT_BASE, "/webchannel/events?VER=8&RID=1&CVER=22&zx=", zx);
    join2(
        head.as_str(),
        "&t=1&SID=null&%24req=count%3D1%26ofs%3D0%26req0_data%3D%255B%255D",
    )
}

/// The address of a poll of the session `sid` that acknowledges the array `aid`.
pub open spec fn events_address(sid: Seq<char>, aid: u64, zx: Seq<char>) -> Seq<char> {
    CHAT_BASE@ + "/webchannel/events?VER=8&RID=rpc&SID="@ + sid + "&AID="@
        + decimal(aid as nat) + "&TYPE=xmlhttp&CI=0&t=1&zx="@ + zx
}

/// The address of a poll of the session `sid` that acknowledges the array `aid`.
pub fn events_url(sid: &str, aid: u64, zx: &str) -> (r: String)
    ensures
        r@ == events_address(sid@, aid, zx@),
{
    let mut out = join3(CHAT_BASE, "/webchannel/events?VER=8&RID=rpc&SID=", sid);
    out.append("&AID=");
    out.append(text::show(aid).as_str());
    out.append("&TYPE=xmlhttp&CI=0&t=1&zx=");
    out.append(zx);
    out
}

/// The address of the call number `counter`, with a reply in the wire format or in
/// pblite.
pub open spec fn api_address(endpoint: Seq<char>, counter: u32, binary: bool) -> Seq<char> {
    let head = CHAT_BASE@ + "/api/"@ + endpoint + "?c="@ + decimal(
        counter as nat,
    );
    if binary {
        head + "&rt=b"@
    } else {
        head
    }
}

/// The address of the call number `counter`, with a reply in the wire format or in
/// pblite.
pub fn api_url(endpoint: &str, counter: u32, binary: bool) -> (r: String)
    ensures
        r@ == api_address(endpoint@, counter, binary),
{
    let mut out = join3(CHAT_BASE, "/api/", endpoint);
    out.append("?c=");
    out.append(text::show(counter as u64).as_str());
    if binary {
        out.append("&rt=b");
    }
    out
}

// ───────────────────────── the session ─────────────────────────

/// The state of a signed-in session.
pub struct Session {
    /// The number of the event channel, once it is open.
    pub sid: Option<String>,
    /// The number of the last array taken from the event channel.
    pub aid: u64,
    /// The number of the request made last.
    pub rid_counter: u32,
    /// The number of the call made last.
    pub api_counter: u32,
    /// The token that the service wants to see with each call.
    pub xsrf_token: Option<String>,
    pub interner: IdInterner,
}

/// What opening the event channel gave back: the header that holds the number, or
/// the body where there is no such header.
#[derive(Debug)]
pub enum SidReply {
    Header(String),
    Body(Vec<u8>),
}

/// What a reader of the event channel needs.
#[derive(Debug)]
pub struct ReadConfig {
    pub sid: String,
    pub xsrf_token: String,
}

impl Session {
    /// A session with this token that has made no call.
    pub fn new(xsrf_token: Option<String>) -> (r: Session)
        ensures
            r.sid is None,
            r.aid == 0,
            r.rid_counter == 0,
            r.api_counter == 0,
            r.xsrf_token == xsrf_token,
            r.interner@ == Pool::empty(),
    {
        Session {
            sid: None,
            aid: 0,
            rid_counter: 0,
            api_counter: 0,
            xsrf_token,
            interner: IdInterner::new(),
        }
    }

    /// The number of the next request: one more than that of the last.
    pub fn next_rid(&mut self) -> (r: u32)
        requires
            old(self).rid_counter < u32::MAX,
        ensures
            r == old(self).rid_counter + 1,
            *final(self) == (Session { rid_counter: r, ..*old(self) }),
    {
        self.rid_counter = self.rid_counter + 1;
        self.rid_counter
    }

    /// The number of the next call: one more than that of the last.
    pub fn next_api_counter(&mut self) -> (r: u32)
        requires
            old(self).api_counter < u32::MAX,
        ensures
            r == old(self).api_counter + 1,
            *final(self) == (Session { api_counter: r, ..*old(self) }),
    {
        self.api_counter = self.api_counter + 1;
        self.api_counter
    }

    /// A text of twelve hexadecimal digits that keeps an address from being cached,
    /// from a number drawn at random.
    pub fn random_zx(drawn: u64) -> (r: String)
        ensures
            r@ == zx_text(drawn),
            r@.len() == 12,
    {
        proof {
            law_hex_is_digits((drawn % 0x1_0000_0000_0000) as nat, 12, false);
        }
        show_hex(drawn % 0x1_0000_0000_0000, 12, false)
    }

    /// Takes the number of the event channel from what opening it gave back.
    pub fn acquire_sid(&mut self, reply: SidReply) -> (r: Result<(), AuthError>)
        ensures
            match reply {
                SidReply::Header(h) => match sid_in_header(h@) {
                    SidFound::Sid(s) => r is Ok && text_opt(final(self).sid) == Some(s),
                    SidFound::NoArray => field_missing(r, "SID array"@) && final(self).sid == old(
                        self,
                    ).sid,
                    SidFound::NoJson(m) => fetch_failed(r, m) && final(self).sid == old(self).sid,
                    SidFound::NoSid => field_missing(r, "SID"@) && final(self).sid == old(self).sid,
                },
                SidReply::Body(b) => if !valid_utf8(b@) {
                    fetch_failed(r, "non-UTF8: "@ + utf8_fault(b@)) && final(self).sid == old(
                        self,
                    ).sid
                } else {
                    match streamed_sid(decode_utf8(b@)) {
                        Some(s) => r is Ok && text_opt(final(self).sid) == Some(s),
                        None => field_missing(r, "SID"@) && final(self).sid == old(self).sid,
                    }
                },
            },
            *final(self) == (Session { sid: final(self).sid, ..*old(self) }),
    {
        match reply {
            SidReply::Header(h) => match parse_sid_from_register(h.as_str()) {
                Ok(s) => {
                    self.sid = Some(s);
                    Ok(())
                },
                Err(e) => Err(e),
            },
            SidReply::Body(b) => {
                let body = match utf8_text(b.as_slice()) {
                    Ok(s) => s,
                    Err(e) => return Err(
                        AuthError::SessionFetch(join2("non-UTF8: ", e.as_str())),
                    ),
                };
                match extract_sid_from_stream(body.as_str()) {
                    Some(s) => {
                        self.sid = Some(s);
                        Ok(())
                    },
                    None => Err(AuthError::MissingField("SID")),
                }
            },
        }
    }

    /// Takes the token that stands in the chat page, where the session has none yet
    /// and the page has one.
    pub fn fetch_session_tokens(&mut self, in_page: &str) -> (r: Result<(), AuthError>)
        ensures
            r is Ok,
            text_opt(final(self).xsrf_token) == if old(self).xsrf_token is None && in_page@.len() > 0 {
                Some(in_page@)
            } else {
                text_opt(old(self).xsrf_token)
            },
            *final(self) == (Session { xsrf_token: final(self).xsrf_token, ..*old(self) }),
    {
        if self.xsrf_token.is_none() && !in_page.is_empty() {
            self.xsrf_token = Some(in_page.to_owned());
        }
        Ok(())
    }

    /// The session in the browser keeps itself signed in.
    pub fn ensure_fresh(&mut self) -> (r: Result<(), AuthError>)
        ensures
            r is Ok,
            *final(self) == *old(self),
    {
        Ok(())
    }

    /// What a reader of the event channel needs, empty where it is not known yet.
    pub fn read_config(&self) -> (r: ReadConfig)
        ensures
            r.sid@ == or_empty(text_opt(self.sid)),
            r.xsrf_token@ == or_empty(text_opt(self.xsrf_token)),
    {
        ReadConfig { sid: text_or_empty(&self.sid), xsrf_token: text_or_empty(&self.xsrf_token) }
    }
}

/// The twelve hexadecimal digits of the lowest 48 bits.
pub open spec fn zx_text(drawn: u64) -> Seq<char> {
    hex((drawn % 0x1_0000_0000_0000) as nat, 12, false)
}

/// Two draws that differ in their lowest 48 bits give different texts.
pub proof fn law_zx_differs(a: u64, b: u64)
    requires
        a % 0x1_0000_0000_0000 != b % 0x1_0000_0000_0000,
    ensures
        zx_text(a) != zx_text(b),
{
    assert(pow16(12) == 0x1_0000_0000_0000) by {
        reveal_with_fuel(pow16, 13);
    }
    if zx_text(a) == zx_text(b) {
        law_hex_tells_apart(
            (a % 0x1_0000_0000_0000) as nat,
            (b % 0x1_0000_0000_0000) as nat,
            12,
            false,
        );
    }
}

// ───────────────────────── numbers and tokens ─────────────────────────

/// The number of the session in a stream: what is quoted behind the first
/// `["c","`, unless it is empty.
pub open spec fn streamed_sid(body: Seq<char>) -> Option<Seq<char>> {
    match quoted(body, "[\"c\",\""@) {
        Some(s) => if s.len() > 0 {
            Some(s)
        } else {
            None
        },
        None => None,
    }
}

/// The number of the session in the body of a stream.
pub fn extract_sid_from_stream(body: &str) -> (r: Option<String>)
    ensures
        text_opt(r) == streamed_sid(body@),
{
    match quoted_after(body, "[\"c\",\"") {
        Some(s) => if s.as_str().is_empty() {
            None
        } else {
            Some(s)
        },
        None => None,
    }
}

/// What the reply to a registration holds.
pub ghost enum SidFound {
    Sid(Seq<char>),
    NoArray,
    NoJson(Seq<char>),
    NoSid,
}

/// The text at the second place of the array at the second place of the first array.
pub open spec fn sid_in_json(j: JsonV) -> Option<Seq<char>> {
    match j.item(0) {
        Some(a) => match a.item(1) {
            Some(b) => match b.item(1) {
                Some(c) => c.text(),
                None => None,
            },
            None => None,
        },
        None => None,
    }
}

/// What the reply to a registration holds, from its first bracket on.
pub open spec fn sid_in_header(body: Seq<char>) -> SidFound {
    match find(body, seq!['[']) {
        None => SidFound::NoArray,
        Some(i) => match parsed(after(body, i)) {
            Err(m) => SidFound::NoJson(m),
            Ok(j) => match sid_in_json(j) {
                Some(s) => SidFound::Sid(s),
                None => SidFound::NoSid,
            },
        },
    }
}

/// The number of the session in a JSON reply, if it stands where it should.
pub fn sid_of(j: &Json) -> (r: Option<String>)
    ensures
        text_opt(r) == sid_in_json(j@),
{
    let a = match j.item(0) {
        Some(a) => a,
        None => return None,
    };
    let b = match a.item(1) {
        Some(b) => b,
        None => return None,
    };
    let c = match b.item(1) {
        Some(c) => c,
        None => return None,
    };
    match c.as_str() {
        Some(s) => Some(s.to_owned()),
        None => None,
    }
}

/// The number of the session in the reply to a registration.
pub fn parse_sid_from_register(body: &str) -> (r: Result<String, AuthError>)
    ensures
        match sid_in_header(body@) {
            SidFound::Sid(s) => r matches Ok(t) && t@ == s,
            SidFound::NoArray => field_missing(r, "SID array"@),
            SidFound::NoJson(m) => fetch_failed(r, m),
            SidFound::NoSid => field_missing(r, "SID"@),
        },
{
    proof {
        reveal_strlit("[");
        assert("["@ =~= seq!['[']);
    }
    let v = text::chars_of(body);
    let n: usize = v.len();
    let start: usize = match text::find_str(body, "[") {
        Some(i) => i,
        None => return Err(AuthError::MissingField("SID array")),
    };
    let rest = text::string_of(&v, start, n);
    match json::parse(rest.as_str()) {
        Ok(j) => match sid_of(&j) {
            Some(s) => Ok(s),
            None => Err(AuthError::MissingField("SID")),
        },
        Err(m) => Err(AuthError::SessionFetch(m)),
    }
}

/// The token in the chat page: what is quoted behind the first `"SMqcke":"`.
pub fn parse_xsrf_token(body: &str) -> (r: Result<String, AuthError>)
    ensures
        match quoted(body@, "\"SMqcke\":\""@) {
            Some(s) => r matches Ok(t) && t@ == s,
            None => if find(body@, "\"SMqcke\":\""@) is None {
                field_missing(r, "SMqcke"@)
            } else {
                field_missing(r, "XSRF end"@)
            },
        },
{
    if text::find_str(body, "\"SMqcke\":\"").is_none() {
        return Err(AuthError::MissingField("SMqcke"));
    }
    match quoted_after(body, "\"SMqcke\":\"") {
        Some(s) => Ok(s),
        None => Err(AuthError::MissingField("XSRF end")),
    }
}

/// The fewest characters at the start of `s` that make up `units` UTF-16 code units,
/// or all of them.
pub open spec fn units_prefix(s: Seq<char>, units: nat) -> Seq<char>
    decreases s.len(),
{
    if s.len() == 0 || units == 0 {
        Seq::empty()
    } else {
        let w: nat = if s[0] as u32 >= 0x10000 {
            2
        } else {
            1
        };
        seq![s[0]] + units_prefix(
            s.drop_first(),
            if units < w {
                0
            } else {
                (units - w) as nat
            },
        )
    }
}

/// The content of the first frame of a body, as far as it has come in: the line
/// before it says how many UTF-16 code units it has.
pub open spec fn first_frame(body: Seq<char>) -> Option<Seq<char>> {
    match find(body, seq!['\n']) {
        Some(nl) => match natural(trimmed(body.take(nl)), usize::MAX as nat) {
            Some(units) => Some(units_prefix(after(body, nl + 1), units)),
            None => None,
        },
        None => None,
    }
}

/// The content of the first frame of a body, as far as it has come in.
pub fn extract_first_frame(body: &str) -> (r: Option<String>)
    ensures
        text_opt(r) == first_frame(body@),
{
    let v = text::chars_of(body);
    let n: usize = v.len();
    proof {
        reveal_strlit("\n");
        assert("\n"@ =~= seq!['\n']);
    }
    let newline: usize = match text::find_str(body, "\n") {
        Some(i) => i,
        None => return None,
    };
    let head = text::string_of(&v, 0, newline);
    proof {
        assert(head@ =~= body@.take(newline as int));
    }
    let length = text::trim(head.as_str());
    let mut left: usize = match text::parse_usize(length.as_str()) {
        Some(u) => u,
        None => return None,
    };
    let start: usize = newline + 1;
    let mut i: usize = start;
    let ghost all = units_prefix(after(body@, start as int), left as nat);
    proof {
        assert(all =~= body@.subrange(start as int, start as int) + all);
    }
    while i < n && left > 0
        invariant
            v@ == body@,
            n == v@.len(),
            start <= i <= n,
            all == body@.subrange(start as int, i as int) + units_prefix(
                after(body@, i as int),
                left as nat,
            ),
        decreases n - i,
    {
        let w: usize = if v[i] as u32 >= 0x10000 {
            2
        } else {
            1
        };
        let ghost rest = after(body@, i as int);
        proof {
            assert(rest.drop_first() =~= after(body@, i + 1));
            assert(body@.subrange(start as int, i + 1) =~= body@.subrange(
                start as int,
                i as int,
            ).push(body@[i as int]));
        }
        left = if left < w {
            0
        } else {
            left - w
        };
        i += 1;
        proof {
            assert(all =~= body@.subrange(start as int, i as int) + units_prefix(
                after(body@, i as int),
                left as nat,
            ));
        }
    }
    proof {
        assert(body@.subrange(start as int, i as int) + Seq::<char>::empty() =~= body@.subrange(
            start as int,
            i as int,
        ));
    }
    Some(text::string_of(&v, start, i))
}

} // verus!
