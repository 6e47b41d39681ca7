//! Scripts that run in a page of the chat service: each makes one request from there, where
//! the browser adds what shows that the user has signed in, and gives back a text of JSON.
use vstd::prelude::*;
use vstd::utf8::encode_utf8;

use crate::googlechat::pblite::{base64_text, encode_base64};
use crate::json;
use crate::json::{printed, Json, JsonV};
use crate::text::{decimal, show};

verus! {

broadcast use vstd::string::group_string_axioms;

pub const POST_A: &'static str = "(async () => {
    try {
        const bodyBytes = Uint8Array.from(atob(\"";

pub const POST_B: &'static str = "\"), c => c.charCodeAt(0));
        const resp = await fetch(\"";

pub const POST_C: &'static str = "\", {
            method: 'POST',
            credentials: 'include',
            headers: {
                'Content-Type': '";

pub const POST_D: &'static str = "',
                'X-Goog-AuthUser': '0',
                'X-Framework-Xsrf-Token': '";

pub const POST_E: &'static str = "'
            },
            body: bodyBytes
        });
        const status = resp.status;
        const contentType = resp.headers.get('content-type') || 'unknown';
        const buf = await resp.arrayBuffer();
        const bytes = new Uint8Array(buf);
        if (!resp.ok) {
            const text = new TextDecoder().decode(bytes);
            return JSON.stringify({error: status, body: text.substring(0, 200), ct: contentType});
        }
        let binary = '';
        for (let i = 0; i < bytes.length; i++) {
            binary += String.fromCharCode(bytes[i]);
        }
        return JSON.stringify({ok: true, status: status, ct: contentType, size: bytes.length, data: btoa(binary)});
    } catch(e) {
        return JSON.stringify({error: e.message});
    }
})()";

pub const POST_TEXT_A: &'static str = "(async () => {
    try {
        const bodyBytes = Uint8Array.from(atob(\"";

pub const POST_TEXT_B: &'static str = "\"), c => c.charCodeAt(0));
        const resp = await fetch(\"";

pub const POST_TEXT_C: &'static str = "\", {
            method: 'POST',
            credentials: 'include',
            headers: {
                'Content-Type': '";

pub const POST_TEXT_D: &'static str = "',
                'X-Goog-AuthUser': '0',
                'X-Framework-Xsrf-Token': '";

pub const POST_TEXT_E: &'static str = "'
            },
            body: bodyBytes
        });
        const text = await resp.text();
        return JSON.stringify({status: resp.status, body: text.substring(0, 2000)});
    } catch(e) {
        return JSON.stringify({error: e.message});
    }
})()";

pub const POST_STRING_A: &'static str = "(async () => {
    try {
        const bodyText = atob(\"";

pub const POST_STRING_B: &'static str = "\");
        const resp = await fetch(\"";

pub const POST_STRING_C: &'static str = "\", {
            method: 'POST',
            credentials: 'include',
            headers: {
                'Content-Type': '";

pub const POST_STRING_D: &'static str = "',
                'X-Goog-AuthUser': '0',
                'X-Framework-Xsrf-Token': '";

pub const POST_STRING_E: &'static str = "',
                'Accept-Language': 'en'
            },
            body: bodyText
        });
        const status = resp.status;
        const contentType = resp.headers.get('content-type') || 'unknown';
        const buf = await resp.arrayBuffer();
        const bytes = new Uint8Array(buf);
        if (!resp.ok) {
            const text = new TextDecoder().decode(bytes);
            return JSON.stringify({error: status, body: text.substring(0, 200), ct: contentType});
        }
        let binary = '';
        for (let i = 0; i < bytes.length; i++) {
            binary += String.fromCharCode(bytes[i]);
        }
        return JSON.stringify({ok: true, status: status, ct: contentType, size: bytes.length, data: btoa(binary)});
    } catch(e) {
        return JSON.stringify({error: e.message});
    }
})()";

pub const XHR_A: &'static str = "(new Promise((resolve) => {
    try {
        const bodyBytes = Uint8Array.from(atob(\"";

pub const XHR_B: &'static str = "\"), c => c.charCodeAt(0));
        const xhr = new XMLHttpRequest();
        xhr.open('POST', \"";

pub const XHR_C: &'static str = "\", true);
        xhr.responseType = 'arraybuffer';
        xhr.setRequestHeader('Content-Type', 'application/x-protobuf');
        xhr.setRequestHeader('X-Goog-AuthUser', '0');
        xhr.setRequestHeader('X-Framework-Xsrf-Token', '";

pub const XHR_D: &'static str = "');
        xhr.onload = function() {
            const status = xhr.status;
            const ct = xhr.getResponseHeader('content-type') || '?';
            const bytes = new Uint8Array(xhr.response || new ArrayBuffer(0));
            if (status < 200 || status >= 300) {
                const text = new TextDecoder().decode(bytes);
                resolve(JSON.stringify({error: status, body: text.substring(0, 200), ct: ct}));
            } else {
                let bin = '';
                for (let i = 0; i < bytes.length; i++) bin += String.fromCharCode(bytes[i]);
                resolve(JSON.stringify({ok: true, status: status, ct: ct, size: bytes.length, data: btoa(bin)}));
            }
        };
        xhr.onerror = function() {
            resolve(JSON.stringify({error: 'XHR network error', name: 'NetworkError'}));
        };
        xhr.send(bodyBytes);
    } catch(e) {
        resolve(JSON.stringify({error: e.message, name: e.name}));
    }
}))";

pub const GET_A: &'static str = "(async () => {
    try {
        const resp = await fetch(\"";

pub const GET_B: &'static str = "\", {
            credentials: 'include',
            headers: {
                'X-Goog-AuthUser': '0'
            }
        });
        if (!resp.ok) return JSON.stringify({error: resp.status});
        const text = await resp.text();
        return text;
    } catch(e) {
        return JSON.stringify({error: e.message});
    }
})()";

pub const GET_BINARY_A: &'static str = "(async () => {
    try {
        const ctrl = new AbortController();
        const timeoutId = setTimeout(() => ctrl.abort(), ";

pub const GET_BINARY_B: &'static str = ");
        let bytes = new Uint8Array(0);
        let status = 0;
        try {
            const resp = await fetch(\"";

pub const GET_BINARY_C: &'static str = "\", {
                credentials: 'include',
                headers: {
                    'X-Goog-AuthUser': '0'
                },
                signal: ctrl.signal
            });
            status = resp.status;

            const reader = resp.body.getReader();
            const chunks = [];
            let total = 0;
            let idleTimer = null;
            const idleMs = 2000;
            const done = new Promise((resolve) => {
                const resetIdle = () => {
                    if (idleTimer) clearTimeout(idleTimer);
                    idleTimer = setTimeout(() => {
                        try { reader.cancel(); } catch(e) {}
                        resolve();
                    }, idleMs);
                };
                resetIdle();
                (async () => {
                    try {
                        while (true) {
                            const {done, value} = await reader.read();
                            if (done) break;
                            chunks.push(value);
                            total += value.length;
                            resetIdle();
                        }
                    } catch(e) {}
                    resolve();
                })();
            });
            await done;
            clearTimeout(timeoutId);

            bytes = new Uint8Array(total);
            let off = 0;
            for (const c of chunks) {
                bytes.set(c, off);
                off += c.length;
            }
        } catch(e) {
            clearTimeout(timeoutId);
            if (bytes.length === 0) {
                return JSON.stringify({error: e.message, aborted: true});
            }
        }

        let bin = '';
        for (let i = 0; i < bytes.length; i++) {
            bin += String.fromCharCode(bytes[i]);
        }
        return JSON.stringify({status: status, size: bytes.length, data: btoa(bin)});
    } catch(e) {
        return JSON.stringify({error: e.message});
    }
})()";

pub const HEADER_A: &'static str = "(async () => {
    try {
        const ctrl = new AbortController();
        const timeoutId = setTimeout(() => ctrl.abort(), 10000);
        const resp = await fetch(\"";

pub const HEADER_B: &'static str = "\", {
            credentials: 'include',
            headers: { 'X-Goog-AuthUser': '0' },
            signal: ctrl.signal
        });
        const hdr = resp.headers.get(\"";

pub const HEADER_C: &'static str = "\");
        clearTimeout(timeoutId);
        try { ctrl.abort(); } catch(e) {}
        return JSON.stringify({status: resp.status, header: hdr});
    } catch(e) {
        return JSON.stringify({error: e.message});
    }
})()";

pub const SID_A: &'static str = "(async () => {
    try {
        const ctrl = new AbortController();
        setTimeout(() => ctrl.abort(), 10000);
        const resp = await fetch(\"";

pub const SID_B: &'static str = "\", {
            credentials: 'include',
            headers: { 'X-Goog-AuthUser': '0' },
            signal: ctrl.signal
        });
        const hdr = resp.headers.get('X-HTTP-Initial-Response');
        if (hdr) return JSON.stringify({sid_header: hdr});
        const text = await resp.text();
        return JSON.stringify({body: text.substring(0, 2000)});
    } catch(e) { return JSON.stringify({error: e.message}); }
})()";

pub const POLL_A: &'static str = "(async () => {
    try {
        const ctrl = new AbortController();
        const timeoutId = setTimeout(() => ctrl.abort(), 30000);
        let bytes = new Uint8Array(0);
        let status = 0;
        try {
            const resp = await fetch(\"";

pub const POLL_B: &'static str = "\", {
                credentials: 'include',
                headers: { 'X-Goog-AuthUser': '0' },
                signal: ctrl.signal
            });
            status = resp.status;
            const reader = resp.body.getReader();
            const chunks = [];
            let total = 0;
            let idleTimer = null;
            const done = new Promise((resolve) => {
                const resetIdle = () => {
                    if (idleTimer) clearTimeout(idleTimer);
                    idleTimer = setTimeout(() => {
                        try { reader.cancel(); } catch(e) {}
                        resolve();
                    }, 3000);
                };
                resetIdle();
                (async () => {
                    try {
                        while (true) {
                            const {done, value} = await reader.read();
                            if (done) break;
                            chunks.push(value);
                            total += value.length;
                            resetIdle();
                        }
                    } catch(e) {}
                    resolve();
                })();
            });
            await done;
            clearTimeout(timeoutId);
            bytes = new Uint8Array(total);
            let off = 0;
            for (const c of chunks) { bytes.set(c, off); off += c.length; }
        } catch(e) {
            clearTimeout(timeoutId);
        }
        let bin = '';
        for (let i = 0; i < bytes.length; i++) bin += String.fromCharCode(bytes[i]);
        return JSON.stringify({status: status, size: bytes.length, data: btoa(bin)});
    } catch(e) { return JSON.stringify({error: e.message}); }
})()";

pub const SEARCH_A: &'static str = "(async () => {
    try {
        const w = window.WIZ_global_data || {};
        const at = w['SNlM0e'] || '';
        if (!at) return JSON.stringify({error:'no at token'});
        const payload = ";

pub const SEARCH_B: &'static str = ";
        const fReq = JSON.stringify([[[\"SBNmJb\", payload, null, \"generic\"]]]);
        const body = 'f.req=' + encodeURIComponent(fReq) + '&at=' + encodeURIComponent(at);
        const resp = await fetch('/_/DynamiteWebUi/data/batchexecute?rpcids=SBNmJb&source-path=%2F&f.sid=-1&bl=boq_dynamite-frontend&hl=en&_reqid=' + Date.now(), {
            method: 'POST',
            body: body,
            headers: {'Content-Type':'application/x-www-form-urlencoded;charset=UTF-8'},
            credentials: 'include',
        });
        const text = await resp.text();
        return JSON.stringify({status: resp.status, body: text});
    } catch (e) { return JSON.stringify({error: e.message}); }
})()";

/// Sends bytes and gives back the bytes of the reply.
pub open spec fn post_js(
    url: Seq<char>,
    body: Seq<u8>,
    content_type: Seq<char>,
    xsrf: Seq<char>,
) -> Seq<char> {
    POST_A@ + base64_text(body) + POST_B@ + url + POST_C@ + content_type + POST_D@ + xsrf + POST_E@
}

/// Sends bytes and gives back the bytes of the reply.
pub fn post_script(url: &str, body: &[u8], content_type: &str, xsrf: &str) -> (r: String)
    ensures
        r@ == post_js(url@, body@, content_type@, xsrf@),
{
    let mut s = POST_A.to_owned();
    s.append(encode_base64(body).as_str());
    s.append(POST_B);
    s.append(url);
    s.append(POST_C);
    s.append(content_type);
    s.append(POST_D);
    s.append(xsrf);
    s.append(POST_E);
    s
}

/// Sends bytes and gives back the beginning of the reply as text.
pub open spec fn post_text_js(
    url: Seq<char>,
    body: Seq<u8>,
    content_type: Seq<char>,
    xsrf: Seq<char>,
) -> Seq<char> {
    POST_TEXT_A@ + base64_text(body) + POST_TEXT_B@ + url + POST_TEXT_C@ + content_type
        + POST_TEXT_D@ + xsrf + POST_TEXT_E@
}

/// Sends bytes and gives back the beginning of the reply as text.
pub fn post_text_script(url: &str, body: &[u8], content_type: &str, xsrf: &str) -> (r: String)
    ensures
        r@ == post_text_js(url@, body@, content_type@, xsrf@),
{
    let mut s = POST_TEXT_A.to_owned();
    s.append(encode_base64(body).as_str());
    s.append(POST_TEXT_B);
    s.append(url);
    s.append(POST_TEXT_C);
    s.append(content_type);
    s.append(POST_TEXT_D);
    s.append(xsrf);
    s.append(POST_TEXT_E);
    s
}

/// Sends a text and gives back the bytes of the reply.
pub open spec fn post_string_js(
    url: Seq<char>,
    body: Seq<char>,
    content_type: Seq<char>,
    xsrf: Seq<char>,
) -> Seq<char> {
    POST_STRING_A@ + base64_text(encode_utf8(body)) + POST_STRING_B@ + url + POST_STRING_C@
        + content_type + POST_STRING_D@ + xsrf + POST_STRING_E@
}

/// Sends a text and gives back the bytes of the reply.
pub fn post_string_script(url: &str, body: &str, content_type: &str, xsrf: &str) -> (r: String)
    ensures
        r@ == post_string_js(url@, body@, content_type@, xsrf@),
{
    let mut s = POST_STRING_A.to_owned();
    s.append(encode_base64(body.as_bytes()).as_str());
    s.append(POST_STRING_B);
    s.append(url);
    s.append(POST_STRING_C);
    s.append(content_type);
    s.append(POST_STRING_D);
    s.append(xsrf);
    s.append(POST_STRING_E);
    s
}

/// Sends bytes without the fetch function, which the page may have replaced, and gives back the
/// bytes of the reply.
pub open spec fn xhr_js(url: Seq<char>, body: Seq<u8>, xsrf: Seq<char>) -> Seq<char> {
    XHR_A@ + base64_text(body) + XHR_B@ + url + XHR_C@ + xsrf + XHR_D@
}

/// Sends bytes without the fetch function, which the page may have replaced, and gives back the
/// bytes of the reply.
pub fn xhr_script(url: &str, body: &[u8], xsrf: &str) -> (r: String)
    ensures
        r@ == xhr_js(url@, body@, xsrf@),
{
    let mut s = XHR_A.to_owned();
    s.append(encode_base64(body).as_str());
    s.append(XHR_B);
    s.append(url);
    s.append(XHR_C);
    s.append(xsrf);
    s.append(XHR_D);
    s
}

/// Asks for an address and gives back the text of the reply.
pub open spec fn get_js(url: Seq<char>) -> Seq<char> {
    GET_A@ + url + GET_B@
}

/// Asks for an address and gives back the text of the reply.
pub fn get_script(url: &str) -> (r: String)
    ensures
        r@ == get_js(url@),
{
    let mut s = GET_A.to_owned();
    s.append(url);
    s.append(GET_B);
    s
}

/// Asks for an address and gives back the bytes that come in before the time is up or nothing
/// more comes.
pub open spec fn get_binary_js(url: Seq<char>, timeout_ms: u32) -> Seq<char> {
    GET_BINARY_A@ + decimal(timeout_ms as nat) + GET_BINARY_B@ + url + GET_BINARY_C@
}

/// Asks for an address and gives back the bytes that come in before the time is up or nothing
/// more comes.
pub fn get_binary_script(url: &str, timeout_ms: u32) -> (r: String)
    ensures
        r@ == get_binary_js(url@, timeout_ms),
{
    let mut s = GET_BINARY_A.to_owned();
    s.append(show(timeout_ms as u64).as_str());
    s.append(GET_BINARY_B);
    s.append(url);
    s.append(GET_BINARY_C);
    s
}

/// Asks for an address and gives back one header of the reply.
pub open spec fn header_js(url: Seq<char>, name: Seq<char>) -> Seq<char> {
    HEADER_A@ + url + HEADER_B@ + name + HEADER_C@
}

/// Asks for an address and gives back one header of the reply.
pub fn header_script(url: &str, name: &str) -> (r: String)
    ensures
        r@ == header_js(url@, name@),
{
    let mut s = HEADER_A.to_owned();
    s.append(url);
    s.append(HEADER_B);
    s.append(name);
    s.append(HEADER_C);
    s
}

/// Opens the event channel and gives back the header or the text that names it.
pub open spec fn sid_js(url: Seq<char>) -> Seq<char> {
    SID_A@ + url + SID_B@
}

/// Opens the event channel and gives back the header or the text that names it.
pub fn sid_script(url: &str) -> (r: String)
    ensures
        r@ == sid_js(url@),
{
    let mut s = SID_A.to_owned();
    s.append(url);
    s.append(SID_B);
    s
}

/// Waits for events at an address and gives back the bytes that come in.
pub open spec fn poll_js(url: Seq<char>) -> Seq<char> {
    POLL_A@ + url + POLL_B@
}

/// Waits for events at an address and gives back the bytes that come in.
pub fn poll_script(url: &str) -> (r: String)
    ensures
        r@ == poll_js(url@),
{
    let mut s = POLL_A.to_owned();
    s.append(url);
    s.append(POLL_B);
    s
}

/// Sends the argument of a search and gives back the text of the reply.
pub open spec fn search_js(payload: Seq<char>) -> Seq<char> {
    SEARCH_A@ + printed(JsonV::Text(payload)) + SEARCH_B@
}

/// Sends the argument of a search and gives back the text of the reply.
pub fn search_script(payload: &str) -> (r: String)
    ensures
        r@ == search_js(payload@),
{
    let mut s = SEARCH_A.to_owned();
    s.append(json::print(&Json::Text(payload.to_owned())).as_str());
    s.append(SEARCH_B);
    s
}

/// The spaces that the page lists at its side.
pub const PAGE_SCRIPT: &'static str = "(() => {
    try {
        const spaces = [];

        const items = document.querySelectorAll('[data-group-id], [data-topic-id]');
        for (const item of items) {
            const id = item.getAttribute('data-group-id') || item.getAttribute('data-topic-id') || '';
            const nameEl = item.querySelector('[data-name]') || item;
            const name = nameEl.getAttribute('data-name') ||
                         nameEl.getAttribute('aria-label') ||
                         nameEl.textContent.trim().substring(0, 50);
            if (id || name) {
                spaces.push({id: id, name: name});
            }
        }

        if (spaces.length === 0) {
            const listItems = document.querySelectorAll('[role=\"listitem\"], [role=\"option\"], [role=\"treeitem\"]');
            for (const li of listItems) {
                const label = li.getAttribute('aria-label') || '';
                const text = li.textContent.trim().substring(0, 80);
                if (label && label.length > 1) {
                    spaces.push({id: '', name: label});
                } else if (text && text.length > 1 && text.length < 80) {
                    spaces.push({id: '', name: text});
                }
            }
        }

        if (spaces.length === 0) {
            const allElements = document.querySelectorAll('span, div');
            const seen = new Set();
            for (const el of allElements) {
                if (el.children.length > 0) continue;
                const text = el.textContent.trim();
                if (text.length >= 2 && text.length <= 50 && !seen.has(text)) {
                    const rect = el.getBoundingClientRect();
                    if (rect.left < 300 && rect.top > 50 && rect.width > 0) {
                        seen.add(text);
                        spaces.push({id: '', name: text});
                    }
                }
            }
        }

        return JSON.stringify({count: spaces.length, spaces: spaces.slice(0, 100)});
    } catch(e) {
        return JSON.stringify({error: e.message});
    }
})()";

/// Registers for the event channel.
pub const REGISTER_SCRIPT: &'static str = "(async () => {
    try {
        const resp = await fetch(\"https://chat.google.com/u/0/webchannel/register?ignore_compass_cookie=1\", {
            credentials: 'include',
            headers: { 'X-Goog-AuthUser': '0' }
        });
        const text = await resp.text();
        return JSON.stringify({status: resp.status, size: text.length});
    } catch(e) { return JSON.stringify({error: e.message}); }
})()";

/// The token that the page holds for calls, or an empty text.
pub const TOKEN_SCRIPT: &'static str = "(() => { try { return (window.WIZ_global_data && window.WIZ_global_data.SMqcke) || ''; } catch(e) { return ''; } })()";

/// Empties the page of the event channel.
pub const STRIP_SCRIPT: &'static str = "document.documentElement.innerHTML = '<body>tchat-bc</body>'; navigator.serviceWorker.getRegistrations().then(r => r.forEach(x => x.unregister()));";

/// Changes the title of the page now and then, which keeps the connection to the browser open.
pub const KEEPALIVE_SCRIPT: &'static str = "let _k=0; setInterval(() => { document.title = 'bc-' + (++_k); }, 15000);";

} // verus!
