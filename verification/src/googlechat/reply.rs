//! What a browser tab gives back for a call that it made: a JSON text with the
//! status, the body in base64, or an error.
use vstd::prelude::*;
use vstd::slice::slice_to_vec;
use vstd::utf8::{decode_utf8, valid_utf8};

use crate::error::{fetch_failed, AuthError, Fault};
use crate::googlechat::laws::law_decoded_is_plain;
use crate::googlechat::pblite::{
    base64_bytes, decode_base64, decoded, message_bytes, pblite_to_wire, utf8_fault, utf8_text,
    wire_to_pblite_checked,
};
use crate::googlechat::schema::{ProtoSchema, Table};
use crate::googlechat::typed::{pblite_to_wire_typed, typed_message};
use crate::googlechat::wire::bytes_slice;
use crate::json::{
    self, copy_items, jsons, lemma_array_view, lemma_regular_member, parsed, printed, regular, Json,
    JsonV,
};
use crate::text::{self, after, decimal, find, join2, join3, or_empty, starts, trimmed, within};

verus! {

broadcast use {vstd::string::group_string_axioms, lemma_array_view};

// ───────────────────────── the tab's wrapping ─────────────────────────

/// The text of a member, if it has that member and it is a text.
pub open spec fn text_member(j: JsonV, key: Seq<char>) -> Option<Seq<char>> {
    match j.member(key) {
        Some(v) => v.text(),
        None => None,
    }
}

/// The unsigned integer of a member, or zero.
pub open spec fn count_member(j: JsonV, key: Seq<char>) -> u64 {
    match j.member(key) {
        Some(v) => match v.unsigned() {
            Some(n) => n,
            None => 0,
        },
        None => 0,
    }
}

/// A reply that is no JSON is shown by its first hundred bytes.
pub open spec fn bad_response(reply: Seq<char>) -> Seq<char> {
    "bad response: "@ + within(reply, 100)
}

/// The failure that the member `error` stands for: its JSON text between `before`
/// and `after`.
pub open spec fn told<T>(
    r: Result<T, AuthError>,
    before: Seq<char>,
    error: JsonV,
    after: Seq<char>,
) -> bool {
    r matches Err(AuthError::SessionFetch(m)) && m@ == before + printed(error) + after
}

/// The failure of a call with a body: the status and the first 150 bytes of the body.
pub open spec fn told_with_body<T>(r: Result<T, AuthError>, reply: JsonV) -> bool {
    told(
        r,
        "HTTP "@,
        reply.member("error"@)->0,
        ": "@ + within(or_empty(text_member(reply, "body"@)), 150),
    )
}

fn string_member<'a>(j: &'a Json, key: &str) -> (r: Option<&'a str>)
    ensures
        match r {
            Some(s) => text_member(j@, key@) == Some(s@),
            None => text_member(j@, key@) is None,
        },
{
    match j.member(key) {
        Some(v) => v.as_str(),
        None => None,
    }
}

fn error_with_body(reply: &Json, error: &Json) -> (r: AuthError)
    requires
        regular(reply@),
        reply@.member("error"@) == Some(error@),
    ensures
        told_with_body(Err::<(), AuthError>(r), reply@),
{
    let body = match string_member(reply, "body") {
        Some(s) => s,
        None => "",
    };
    proof {
        reveal_strlit("");
        assert(""@ =~= Seq::empty());
    }
    let shown = text::cut_bytes(body, 150);
    proof {
        lemma_regular_member(reply@, "error"@);
    }
    let e = json::print(error);
    let head = join3("HTTP ", e.as_str(), ": ");
    let m = join2(head.as_str(), shown.as_str());
    proof {
        assert(m@ =~= "HTTP "@ + e@ + (": "@ + shown@));
    }
    AuthError::SessionFetch(m)
}

/// The body of a reply whose member `data` holds it in base64, or the failure with
/// the words of the caller.
pub open spec fn body_of(r: Result<Vec<u8>, AuthError>, reply: JsonV, none: Seq<char>, bad: Seq<char>)
    -> bool {
    match text_member(reply, "data"@) {
        Some(d) => match base64_bytes(d) {
            Ok(b) => r matches Ok(v) && v@ == b,
            Err(m) => fetch_failed(r, bad + m),
        },
        None => fetch_failed(r, none),
    }
}

fn read_body(reply: &Json, none: &str, bad: &str) -> (r: Result<Vec<u8>, AuthError>)
    ensures
        body_of(r, reply@, none@, bad@),
{
    match string_member(reply, "data") {
        Some(d) => match decode_base64(d) {
            Ok(b) => Ok(b),
            Err(m) => Err(AuthError::SessionFetch(join2(bad, m.as_str()))),
        },
        None => Err(AuthError::SessionFetch(none.to_owned())),
    }
}

fn parse_reply(reply: &str) -> (r: Result<Json, AuthError>)
    ensures
        match parsed(reply@) {
            Ok(j) => r matches Ok(v) && v@ == j && regular(j),
            Err(_) => fetch_failed(r, bad_response(reply@)),
        },
{
    match json::parse(reply) {
        Ok(j) => Ok(j),
        Err(_) => {
            let shown = text::cut_bytes(reply, 100);
            Err(AuthError::SessionFetch(join2("bad response: ", shown.as_str())))
        },
    }
}

/// The body of the reply to a posted message.
pub fn post_reply(reply: &str) -> (r: Result<Vec<u8>, AuthError>)
    ensures
        match parsed(reply@) {
            Ok(j) => if j.member("error"@) is Some {
                told_with_body(r, j)
            } else {
                body_of(r, j, "no data field in response"@, "base64 decode: "@)
            },
            Err(_) => fetch_failed(r, bad_response(reply@)),
        },
{
    let resp = match parse_reply(reply) {
        Ok(j) => j,
        Err(e) => return Err(e),
    };
    match resp.member("error") {
        Some(error) => Err(error_with_body(&resp, error)),
        None => read_body(&resp, "no data field in response", "base64 decode: "),
    }
}

/// The body of the reply to a message posted by the tab kept for calls.
pub fn xhr_reply(reply: &str) -> (r: Result<Vec<u8>, AuthError>)
    ensures
        match parsed(reply@) {
            Ok(j) => if j.member("error"@) is Some {
                told_with_body(r, j)
            } else {
                body_of(r, j, "no data"@, "base64: "@)
            },
            Err(_) => fetch_failed(r, bad_response(reply@)),
        },
{
    let resp = match parse_reply(reply) {
        Ok(j) => j,
        Err(e) => return Err(e),
    };
    match resp.member("error") {
        Some(error) => Err(error_with_body(&resp, error)),
        None => read_body(&resp, "no data", "base64: "),
    }
}

/// The body of the reply to a request for a page.
pub fn get_reply(reply: &str) -> (r: Result<Vec<u8>, AuthError>)
    ensures
        match parsed(reply@) {
            Ok(j) => match j.member("error"@) {
                Some(e) => told(r, "fetch_get_binary: "@, e, Seq::empty()),
                None => if count_member(j, "status"@) != 200 {
                    fetch_failed(r, "HTTP "@ + decimal(count_member(j, "status"@) as nat))
                } else {
                    body_of(r, j, "no data field"@, "base64 decode: "@)
                },
            },
            Err(_) => fetch_failed(r, bad_response(reply@)),
        },
{
    let resp = match parse_reply(reply) {
        Ok(j) => j,
        Err(e) => return Err(e),
    };
    match resp.member("error") {
        Some(error) => {
            proof {
                lemma_regular_member(resp@, "error"@);
            }
            let e = json::print(error);
            let m = join2("fetch_get_binary: ", e.as_str());
            proof {
                assert("fetch_get_binary: "@ + e@ + Seq::<char>::empty() =~= m@);
            }
            return Err(AuthError::SessionFetch(m));
        },
        None => {},
    }
    let status: u64 = match resp.member("status") {
        Some(s) => match s.as_u64() {
            Some(n) => n,
            None => 0,
        },
        None => 0,
    };
    if status != 200 {
        return Err(AuthError::SessionFetch(join2("HTTP ", text::show(status).as_str())));
    }
    read_body(&resp, "no data field", "base64 decode: ")
}

/// The header `name` in the reply to a request for it.
pub fn header_reply(reply: &str, name: &str) -> (r: Result<String, AuthError>)
    ensures
        match parsed(reply@) {
            Ok(j) => match j.member("error"@) {
                Some(e) => told(r, "fetch_get_header: "@, e, Seq::empty()),
                None => match text_member(j, "header"@) {
                    Some(h) => r matches Ok(t) && t@ == h,
                    None => fetch_failed(r, "header "@ + name@ + " not present"@),
                },
            },
            Err(_) => fetch_failed(r, bad_response(reply@)),
        },
{
    let resp = match parse_reply(reply) {
        Ok(j) => j,
        Err(e) => return Err(e),
    };
    match resp.member("error") {
        Some(error) => {
            proof {
                lemma_regular_member(resp@, "error"@);
            }
            let e = json::print(error);
            let m = join2("fetch_get_header: ", e.as_str());
            proof {
                assert("fetch_get_header: "@ + e@ + Seq::<char>::empty() =~= m@);
            }
            return Err(AuthError::SessionFetch(m));
        },
        None => {},
    }
    match string_member(&resp, "header") {
        Some(h) => Ok(h.to_owned()),
        None => Err(AuthError::SessionFetch(join3("header ", name, " not present"))),
    }
}

// ───────────────────────── pblite calls ─────────────────────────

/// A message as the JSON text of its pblite form. None where a field has the number
/// zero.
pub fn pblite_request(body: &[u8]) -> (r: Option<Result<String, AuthError>>)
    ensures
        match decoded(body@) {
            Some(Ok(v)) => r matches Some(Ok(s)) && s@ == printed(v),
            Some(Err(f)) => r matches Some(x) && fetch_failed(x, "wire_to_pblite: "@ + f.text()),
            None => r is None,
        },
{
    match wire_to_pblite_checked(body) {
        Some(Ok(j)) => {
            proof {
                law_decoded_is_plain(body@);
            }
            Some(Ok(json::print(&j)))
        },
        Some(Err(e)) => {
            let m = e.message();
            Some(Err(AuthError::SessionFetch(join2("wire_to_pblite: ", m.as_str()))))
        },
        None => None,
    }
}

/// A reply without the line `)]}'` that guards it, and without white space around it.
pub open spec fn unguarded(s: Seq<char>) -> Seq<char> {
    if starts(s, ")]}'"@) {
        match find(s, seq!['\n']) {
            Some(i) => trimmed(after(s, i + 1)),
            None => trimmed(s),
        }
    } else {
        trimmed(s)
    }
}

/// A reply without the line `)]}'` that guards it, and without white space around it.
pub fn strip_guard(s: &str) -> (r: String)
    ensures
        r@ == unguarded(s@),
{
    if text::starts_with(s, ")]}'") {
        proof {
            reveal_strlit("\n");
            assert("\n"@ =~= seq!['\n']);
        }
        let v = text::chars_of(s);
        let n: usize = v.len();
        match text::find_str(s, "\n") {
            Some(i) => {
                let rest = text::string_of(&v, i + 1, n);
                text::trim(rest.as_str())
            },
            None => text::trim(s),
        }
    } else {
        text::trim(s)
    }
}

/// The fields of a pblite reply, which stand in the first array behind the name of
/// the method, if that is there.
pub open spec fn reply_fields(j: JsonV) -> Option<Seq<JsonV>> {
    match j.item(0) {
        Some(JsonV::Array(inner)) => if inner.len() > 0 && inner[0] is Text {
            Some(after(inner, 1))
        } else {
            Some(inner)
        },
        _ => None,
    }
}

proof fn lemma_fields_regular(j: JsonV)
    requires
        regular(j),
    ensures
        reply_fields(j) matches Some(fs) ==> regular(JsonV::Array(fs)),
{
    match j.item(0) {
        Some(JsonV::Array(inner)) => {
            assert(regular(j->Array_0[0]));
            let fs = reply_fields(j)->0;
            assert forall|i: int| 0 <= i < fs.len() implies regular(#[trigger] fs[i]) by {
                if inner.len() > 0 && inner[0] is Text {
                    assert(fs[i] == inner[i + 1]);
                }
            }
        },
        _ => {},
    }
}

/// The fields of a pblite reply, as an array.
pub fn unwrap_fields(j: &Json) -> (r: Option<Json>)
    ensures
        match reply_fields(j@) {
            Some(fs) => r matches Some(v) && v@ == JsonV::Array(fs),
            None => r is None,
        },
{
    let inner = match j.item(0) {
        Some(Json::Array(a)) => a,
        _ => return None,
    };
    let named = if inner.len() > 0 {
        proof {
            assert(jsons(inner@)[0] == inner@[0]@);
        }
        match &inner[0] {
            Json::Text(_) => true,
            _ => false,
        }
    } else {
        false
    };
    let from: usize = if named {
        1
    } else {
        0
    };
    let fields = copy_items(inner, from);
    proof {
        assert(jsons(inner@).subrange(0, inner@.len() as int) =~= jsons(inner@));
    }
    Some(Json::Array(fields))
}

/// The message type of the reply to a call, or nothing where the fields are taken by
/// their looks.
pub open spec fn reply_type(endpoint: Seq<char>) -> Option<Seq<char>> {
    if endpoint == "paginated_world"@ {
        Some("PaginatedWorldResponse"@)
    } else if endpoint == "catch_up_group"@ {
        Some("CatchUpResponse"@)
    } else if endpoint == "get_group"@ {
        Some("GetGroupResponse"@)
    } else if endpoint == "list_topics"@ {
        Some("ListTopicsResponse"@)
    } else if endpoint == "list_messages"@ {
        Some("ListMessagesResponse"@)
    } else if endpoint == "create_message"@ {
        Some("CreateMessageResponse"@)
    } else if endpoint == "edit_message"@ {
        Some("EditMessageResponse"@)
    } else if endpoint == "delete_message"@ {
        Some("DeleteMessageResponse"@)
    } else if endpoint == "set_typing_state"@ {
        Some("SetTypingStateResponse"@)
    } else if endpoint == "mark_group_readstate"@ {
        Some("MarkGroupReadstateResponse"@)
    } else if endpoint == "update_reaction"@ {
        Some("UpdateReactionResponse"@)
    } else {
        None
    }
}

/// The message type of the reply to a call.
pub fn response_message(endpoint: &str) -> (r: Option<&'static str>)
    ensures
        match reply_type(endpoint@) {
            Some(t) => r matches Some(s) && s@ == t,
            None => r is None,
        },
{
    if text::same(endpoint, "paginated_world") {
        Some("PaginatedWorldResponse")
    } else if text::same(endpoint, "catch_up_group") {
        Some("CatchUpResponse")
    } else if text::same(endpoint, "get_group") {
        Some("GetGroupResponse")
    } else if text::same(endpoint, "list_topics") {
        Some("ListTopicsResponse")
    } else if text::same(endpoint, "list_messages") {
        Some("ListMessagesResponse")
    } else if text::same(endpoint, "create_message") {
        Some("CreateMessageResponse")
    } else if text::same(endpoint, "edit_message") {
        Some("EditMessageResponse")
    } else if text::same(endpoint, "delete_message") {
        Some("DeleteMessageResponse")
    } else if text::same(endpoint, "set_typing_state") {
        Some("SetTypingStateResponse")
    } else if text::same(endpoint, "mark_group_readstate") {
        Some("MarkGroupReadstateResponse")
    } else if text::same(endpoint, "update_reaction") {
        Some("UpdateReactionResponse")
    } else {
        None
    }
}

/// The wire form of the fields of a reply to the call `endpoint`, by the field types
/// of `table` where the type of the reply is known.
pub open spec fn fields_bytes(table: Table, endpoint: Seq<char>, fields: JsonV) -> Result<
    Seq<u8>,
    Fault,
> {
    match reply_type(endpoint) {
        Some(t) => typed_message(table, t, fields),
        None => message_bytes(fields),
    }
}

/// The words before the error of the codec that a reply goes through.
pub open spec fn codec_words(endpoint: Seq<char>) -> Seq<char> {
    if reply_type(endpoint) is Some {
        "pblite_to_wire_typed: "@
    } else {
        "pblite_to_wire: "@
    }
}

/// The wire form of the fields of a reply.
pub fn wire_fields(endpoint: &str, fields: &Json, schema: &ProtoSchema) -> (r: Result<
    Vec<u8>,
    AuthError,
>)
    ensures
        match fields_bytes(schema@, endpoint@, fields@) {
            Ok(d) => r matches Ok(b) && b@ == d,
            Err(f) => fetch_failed(r, codec_words(endpoint@) + f.text()),
        },
{
    match response_message(endpoint) {
        Some(t) => match pblite_to_wire_typed(fields, schema, t) {
            Ok(w) => Ok(slice_to_vec(bytes_slice(&w))),
            Err(e) => {
                let m = e.message();
                Err(AuthError::SessionFetch(join2("pblite_to_wire_typed: ", m.as_str())))
            },
        },
        None => match pblite_to_wire(fields) {
            Ok(w) => Ok(slice_to_vec(bytes_slice(&w))),
            Err(e) => {
                let m = e.message();
                Err(AuthError::SessionFetch(join2("pblite_to_wire: ", m.as_str())))
            },
        },
    }
}

/// The wire form of a pblite reply to the call `endpoint`. An empty reply is an empty
/// message.
pub fn pblite_reply(endpoint: &str, reply: &[u8], schema: &ProtoSchema) -> (r: Result<
    Vec<u8>,
    AuthError,
>)
    ensures
        if !valid_utf8(reply@) {
            fetch_failed(r, "response not UTF-8: "@ + utf8_fault(reply@))
        } else {
            let s = decode_utf8(reply@);
            if s.len() == 0 || unguarded(s).len() == 0 {
                r matches Ok(b) && b@ == Seq::<u8>::empty()
            } else {
                match parsed(unguarded(s)) {
                    Err(m) => fetch_failed(r, "pblite parse: "@ + m),
                    Ok(j) => match reply_fields(j) {
                        None => fetch_failed(r, "empty pblite response"@),
                        Some(fs) => match fields_bytes(schema@, endpoint@, JsonV::Array(fs)) {
                            Ok(d) => r matches Ok(b) && b@ == d,
                            Err(f) => fetch_failed(r, codec_words(endpoint@) + f.text()),
                        },
                    },
                }
            }
        },
{
    let s = match utf8_text(reply) {
        Ok(s) => s,
        Err(e) => return Err(
            AuthError::SessionFetch(join2("response not UTF-8: ", e.as_str())),
        ),
    };
    if s.as_str().is_empty() {
        return Ok(Vec::new());
    }
    let inner = strip_guard(s.as_str());
    if inner.as_str().is_empty() {
        return Ok(Vec::new());
    }
    let j = match json::parse(inner.as_str()) {
        Ok(j) => j,
        Err(m) => return Err(AuthError::SessionFetch(join2("pblite parse: ", m.as_str()))),
    };
    match unwrap_fields(&j) {
        Some(fields) => wire_fields(endpoint, &fields, schema),
        None => Err(AuthError::SessionFetch("empty pblite response".to_owned())),
    }
}

/// The JSON text of the fields of a pblite reply, or the reply itself where it has
/// none.
pub fn pblite_reply_raw(reply: &[u8]) -> (r: Result<String, AuthError>)
    ensures
        if !valid_utf8(reply@) {
            fetch_failed(r, "response not UTF-8: "@ + utf8_fault(reply@))
        } else {
            let inner = unguarded(decode_utf8(reply@));
            match parsed(inner) {
                Ok(j) => match reply_fields(j) {
                    Some(fs) => r matches Ok(t) && t@ == printed(JsonV::Array(fs)),
                    None => r matches Ok(t) && t@ == inner,
                },
                Err(_) => r matches Ok(t) && t@ == inner,
            }
        },
{
    let s = match utf8_text(reply) {
        Ok(s) => s,
        Err(e) => return Err(
            AuthError::SessionFetch(join2("response not UTF-8: ", e.as_str())),
        ),
    };
    let inner = strip_guard(s.as_str());
    match json::parse(inner.as_str()) {
        Ok(j) => match unwrap_fields(&j) {
            Some(fields) => {
                proof {
                    lemma_fields_regular(j@);
                }
                Ok(json::print(&fields))
            },
            None => Ok(inner),
        },
        Err(_) => Ok(inner),
    }
}

} // verus!
