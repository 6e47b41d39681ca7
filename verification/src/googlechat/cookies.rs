//! The cookies that calls without a browser are signed in with: which of a browser's
//! cookies are taken, how they are decrypted, and the header that is made of them.
use vstd::prelude::*;
use vstd::slice::slice_subrange;
use vstd::utf8::{decode_utf8, encode_utf8, valid_utf8};

use crate::error::{storage_failed, AuthError};
use crate::googlechat::auth::{first_present, first_set};
use crate::googlechat::pblite::{utf8_fault, utf8_text};
use crate::percent::{hex, show_hex};
use crate::text::{self, after, decimal, holds, join2, join3, joined, text_opt, texts};

verus! {

broadcast use vstd::string::group_string_axioms;

/// The cookies of a session.
#[derive(Debug)]
pub struct ChatCookies {
    /// The value of the `Cookie` header.
    pub cookie_header: String,
    /// The cookie that calls are signed with.
    pub sapisid: Option<String>,
    /// The names and values.
    pub cookies: Vec<(String, String)>,
}

/// The names and values of a list of cookies.
pub open spec fn pairs(v: Seq<(String, String)>) -> Seq<(Seq<char>, Seq<char>)> {
    v.map_values(|p: (String, String)| (p.0@, p.1@))
}

/// The value of the first cookie named `name`.
pub open spec fn first_value(v: Seq<(Seq<char>, Seq<char>)>, name: Seq<char>) -> Option<Seq<char>>
    decreases v.len(),
{
    if v.len() == 0 {
        None
    } else if v[0].0 == name {
        Some(v[0].1)
    } else {
        first_value(v.drop_first(), name)
    }
}

/// The value of the `Cookie` header: the cookies as `name=value`, with `; ` between.
pub open spec fn header_text(v: Seq<(Seq<char>, Seq<char>)>) -> Seq<char> {
    joined(v.map_values(|p: (Seq<char>, Seq<char>)| p.0 + "="@ + p.1), "; "@)
}

/// The cookies of a session, made of these names and values.
pub open spec fn made_of(c: ChatCookies, v: Seq<(Seq<char>, Seq<char>)>) -> bool {
    &&& pairs(c.cookies@) == v
    &&& c.cookie_header@ == header_text(v)
    &&& text_opt(c.sapisid) == first_value(v, "SAPISID"@)
}

/// The value of the first cookie named `name`.
pub fn find_cookie(cookies: &Vec<(String, String)>, name: &str) -> (r: Option<String>)
    ensures
        text_opt(r) == first_value(pairs(cookies@), name@),
{
    let ghost all = pairs(cookies@);
    let mut i: usize = 0;
    proof {
        assert(after(all, 0) =~= all);
    }
    while i < cookies.len()
        invariant
            i <= cookies@.len(),
            all == pairs(cookies@),
            first_value(all, name@) == first_value(after(all, i as int), name@),
        decreases cookies@.len() - i,
    {
        proof {
            assert(after(all, i as int).drop_first() =~= after(all, i + 1));
            assert(after(all, i as int)[0] == all[i as int]);
        }
        if text::same(cookies[i].0.as_str(), name) {
            return Some(cookies[i].1.clone());
        }
        i += 1;
    }
    None
}

/// The value of the `Cookie` header.
pub fn cookie_header(cookies: &Vec<(String, String)>) -> (r: String)
    ensures
        r@ == header_text(pairs(cookies@)),
{
    let ghost want = pairs(cookies@).map_values(
        |p: (Seq<char>, Seq<char>)| p.0 + "="@ + p.1,
    );
    let mut parts: Vec<String> = Vec::new();
    let mut i: usize = 0;
    while i < cookies.len()
        invariant
            i <= cookies@.len(),
            want == pairs(cookies@).map_values(|p: (Seq<char>, Seq<char>)| p.0 + "="@ + p.1),
            texts(parts@) == want.take(i as int),
        decreases cookies@.len() - i,
    {
        let ghost before = parts@;
        let part = join3(cookies[i].0.as_str(), "=", cookies[i].1.as_str());
        parts.push(part);
        proof {
            assert(texts(parts@) =~= texts(before).push(part@));
            assert(want.take(i + 1) =~= want.take(i as int).push(want[i as int]));
        }
        i += 1;
    }
    proof {
        assert(want.take(want.len() as int) =~= want);
        assert(texts(parts@).take(parts@.len() as int) =~= texts(parts@));
    }
    text::join(&parts, parts.len(), "; ")
}

impl ChatCookies {
    /// The cookies of a session, made of these names and values.
    pub fn from_pairs(cookies: Vec<(String, String)>) -> (r: ChatCookies)
        ensures
            made_of(r, pairs(cookies@)),
            r.cookies == cookies,
    {
        let sapisid = find_cookie(&cookies, "SAPISID");
        let header = cookie_header(&cookies);
        ChatCookies { cookie_header: header, sapisid, cookies }
    }
}

// ───────────────────────── what must be there ─────────────────────────

/// The first of the cookies without which there is no session that is not there.
pub open spec fn missing(v: Seq<(Seq<char>, Seq<char>)>) -> Option<Seq<char>> {
    if first_value(v, "SID"@) is None {
        Some("SID"@)
    } else if first_value(v, "HSID"@) is None {
        Some("HSID"@)
    } else if first_value(v, "SSID"@) is None {
        Some("SSID"@)
    } else {
        None
    }
}

/// The first of the cookies without which there is no session that is not there.
pub fn missing_cookie(cookies: &Vec<(String, String)>) -> (r: Option<&'static str>)
    ensures
        match missing(pairs(cookies@)) {
            Some(m) => r matches Some(s) && s@ == m,
            None => r is None,
        },
{
    if find_cookie(cookies, "SID").is_none() {
        Some("SID")
    } else if find_cookie(cookies, "HSID").is_none() {
        Some("HSID")
    } else if find_cookie(cookies, "SSID").is_none() {
        Some("SSID")
    } else {
        None
    }
}

// ───────────────────────── saved cookies ─────────────────────────

/// The names and values that a JSON text lists, or the message of the parser.
pub uninterp spec fn parsed_pairs(s: Seq<char>) -> Result<Seq<(Seq<char>, Seq<char>)>, Seq<char>>;

/// The JSON text of a list of names and values.
pub uninterp spec fn pairs_text(v: Seq<(Seq<char>, Seq<char>)>) -> Seq<char>;

/// `serde_json::from_str` into a list of pairs of strings.
#[verifier::external_body]
fn parse_pairs(s: &str) -> (r: Result<Vec<(String, String)>, String>)
    ensures
        match r {
            Ok(v) => parsed_pairs(s@) == Ok::<Seq<(Seq<char>, Seq<char>)>, Seq<char>>(pairs(v@)),
            Err(e) => parsed_pairs(s@) == Err::<Seq<(Seq<char>, Seq<char>)>, Seq<char>>(e@),
        },
{
    serde_json::from_str::<Vec<(String, String)>>(s).map_err(|e| e.to_string())
}

/// `serde_json::to_string` of a list of pairs of strings. A list of strings can always
/// be written, and reading the text gives back the list.
#[verifier::external_body]
fn print_pairs(v: &Vec<(String, String)>) -> (r: Result<String, String>)
    ensures
        r is Ok && r->Ok_0@ == pairs_text(pairs(v@)) && parsed_pairs(r->Ok_0@) is Ok && parsed_pairs(
            r->Ok_0@,
        )->Ok_0 == pairs(v@),
{
    serde_json::to_string(v).map_err(|e| e.to_string())
}

/// The text in which the cookies are saved, from which they are read back.
pub fn saved_text(cookies: &ChatCookies) -> (r: Result<String, AuthError>)
    ensures
        r matches Ok(s) && s@ == pairs_text(pairs(cookies.cookies@)) && parsed_pairs(s@) is Ok
            && parsed_pairs(s@)->Ok_0 == pairs(cookies.cookies@),
{
    match print_pairs(&cookies.cookies) {
        Ok(s) => Ok(s),
        Err(e) => Err(AuthError::CredentialStorage(join2("json: ", e.as_str()))),
    }
}

/// The cookies of a list read from where they were saved, if it holds those without
/// which there is no session.
pub fn saved_cookies(cookies: Vec<(String, String)>) -> (r: Result<ChatCookies, AuthError>)
    ensures
        match missing(pairs(cookies@)) {
            Some(m) => storage_failed(
                r,
                "Saved cookies missing "@ + m + ". Re-authenticate with Chrome."@,
            ),
            None => r matches Ok(c) && made_of(c, pairs(cookies@)),
        },
{
    match missing_cookie(&cookies) {
        Some(m) => Err(
            AuthError::CredentialStorage(
                join3("Saved cookies missing ", m, ". Re-authenticate with Chrome."),
            ),
        ),
        None => Ok(ChatCookies::from_pairs(cookies)),
    }
}

/// The cookies that a saved text holds.
pub fn read_saved(saved: &str) -> (r: Result<ChatCookies, AuthError>)
    ensures
        match parsed_pairs(saved@) {
            Ok(v) => match missing(v) {
                Some(m) => storage_failed(
                    r,
                    "Saved cookies missing "@ + m + ". Re-authenticate with Chrome."@,
                ),
                None => r matches Ok(c) && made_of(c, v),
            },
            Err(m) => storage_failed(r, "parse: "@ + m),
        },
{
    match parse_pairs(saved) {
        Ok(v) => saved_cookies(v),
        Err(m) => Err(AuthError::CredentialStorage(join2("parse: ", m.as_str()))),
    }
}

// ───────────────────────── where cookies are ─────────────────────────

/// The places that the browser's own cookies are looked for at, in this order.
pub open spec fn database_places(home: Seq<char>) -> Seq<Seq<char>> {
    seq![
        home + "/Library/Application Support/Google/Chrome/Default/Cookies"@,
        home + "/Library/Application Support/Google/Chrome/Profile 1/Cookies"@,
    ]
}

/// The places that the browser's own cookies are looked for at, in this order.
pub fn database_paths(home: &str) -> (r: Vec<String>)
    ensures
        texts(r@) == database_places(home@),
{
    let mut v: Vec<String> = Vec::new();
    v.push(text::join2(home, "/Library/Application Support/Google/Chrome/Default/Cookies"));
    v.push(text::join2(home, "/Library/Application Support/Google/Chrome/Profile 1/Cookies"));
    proof {
        assert(texts(v@) =~= database_places(home@));
    }
    v
}

/// The place of the cookies: that of the program's own browser where it has some, else the
/// first of the browser's own places at which there is something.
pub fn chrome_cookies_db_path(
    own: Option<String>,
    home: &Option<String>,
    present: &Vec<bool>,
) -> (r: Result<String, AuthError>)
    ensures
        match (own, *home) {
            (Some(p), _) => r matches Ok(s) && s@ == p@,
            (None, None) => storage_failed(r, "HOME not set"@),
            (None, Some(h)) => match first_set(present@, 0) {
                Some(i) => if i < 2 {
                    r matches Ok(s) && s@ == database_places(h@)[i]
                } else {
                    storage_failed(
                        r,
                        "No Chrome Cookies database found. Run tchat with Chrome first."@,
                    )
                },
                None => storage_failed(
                    r,
                    "No Chrome Cookies database found. Run tchat with Chrome first."@,
                ),
            },
        },
{
    match own {
        Some(p) => return Ok(p),
        None => {},
    }
    let h = match home {
        Some(h) => h,
        None => return Err(AuthError::CredentialStorage("HOME not set".to_owned())),
    };
    let paths = database_paths(h.as_str());
    proof {
        assert(texts(paths@).len() == paths@.len());
        assert forall|k: int| 0 <= k < paths@.len() implies (#[trigger] paths@[k])@
            == database_places(h@)[k] by {
            assert(texts(paths@)[k] == paths@[k]@);
        }
    }
    match first_present(present) {
        Some(i) => if i < paths.len() {
            return Ok(paths[i].clone());
        },
        None => {},
    }
    Err(
        AuthError::CredentialStorage(
            "No Chrome Cookies database found. Run tchat with Chrome first.".to_owned(),
        ),
    )
}

// ───────────────────────── cookies of a running browser ─────────────────────────

/// A cookie of a running browser.
#[derive(Debug)]
pub struct BrowserCookie {
    pub name: String,
    pub value: String,
    pub domain: String,
}

/// The domain is one of the service's.
pub open spec fn of_service(domain: Seq<char>) -> bool {
    holds(domain, "google.com"@) || holds(domain, "google.ca"@)
}

/// The names and values of the cookies of the service's domains.
pub open spec fn service_cookies(v: Seq<BrowserCookie>) -> Seq<(Seq<char>, Seq<char>)>
    decreases v.len(),
{
    if v.len() == 0 {
        Seq::empty()
    } else {
        let before = service_cookies(v.drop_last());
        if of_service(v.last().domain@) {
            before.push((v.last().name@, v.last().value@))
        } else {
            before
        }
    }
}

/// The cookies of a session, from those of a running browser.
pub fn extract_from_browser(all: &Vec<BrowserCookie>) -> (r: ChatCookies)
    ensures
        made_of(r, service_cookies(all@)),
{
    let mut out: Vec<(String, String)> = Vec::new();
    let mut i: usize = 0;
    proof {
        assert(pairs(out@) =~= Seq::empty());
    }
    while i < all.len()
        invariant
            i <= all@.len(),
            pairs(out@) == service_cookies(all@.take(i as int)),
        decreases all@.len() - i,
    {
        proof {
            assert(all@.take(i + 1).drop_last() =~= all@.take(i as int));
        }
        if text::contains(all[i].domain.as_str(), "google.com") || text::contains(
            all[i].domain.as_str(),
            "google.ca",
        ) {
            let ghost before = out@;
            let p = (all[i].name.clone(), all[i].value.clone());
            out.push(p);
            proof {
                assert(pairs(out@) =~= pairs(before).push((p.0@, p.1@)));
            }
        }
        i += 1;
    }
    proof {
        assert(all@.take(all@.len() as int) =~= all@);
    }
    ChatCookies::from_pairs(out)
}

// ───────────────────────── decryption ─────────────────────────

/// The key of sixteen bytes that PBKDF2 with HMAC-SHA1 makes of a password, a salt and
/// a number of rounds.
pub uninterp spec fn pbkdf2_sha1(password: Seq<u8>, salt: Seq<u8>, rounds: u32) -> Seq<u8>;

/// `pbkdf2::pbkdf2_hmac` with `sha1::Sha1`, filling sixteen bytes.
#[verifier::external_body]
fn pbkdf2_key(password: &[u8], salt: &[u8], rounds: u32) -> (r: [u8; 16])
    ensures
        r@ == pbkdf2_sha1(password@, salt@, rounds),
{
    let mut key = [0u8; 16];
    pbkdf2::pbkdf2_hmac::<sha1::Sha1>(password, salt, rounds, &mut key);
    key
}

/// The key that a browser's password stands for.
pub open spec fn cookie_key(password: Seq<u8>) -> Seq<u8> {
    pbkdf2_sha1(password, encode_utf8("saltysalt"@), 1003)
}

/// The key that a browser's password stands for.
pub fn derive_aes_key(password: &[u8]) -> (r: [u8; 16])
    ensures
        r@ == cookie_key(password@),
{
    pbkdf2_key(password, "saltysalt".as_bytes(), 1003)
}

/// What AES-128 in CBC mode with PKCS #7 padding makes of the data, or the message of
/// the error.
pub uninterp spec fn aes_plain(data: Seq<u8>, key: Seq<u8>, iv: Seq<u8>) -> Result<
    Seq<u8>,
    Seq<char>,
>;

/// `decrypt_padded_mut` of `cbc::Decryptor` over `aes::Aes128`, with `Pkcs7`.
#[verifier::external_body]
fn aes_decrypt(data: &[u8], key: &[u8; 16], iv: &[u8; 16]) -> (r: Result<Vec<u8>, String>)
    ensures
        match r {
            Ok(d) => aes_plain(data@, key@, iv@) == Ok::<Seq<u8>, Seq<char>>(d@),
            Err(e) => aes_plain(data@, key@, iv@) == Err::<Seq<u8>, Seq<char>>(e@),
        },
{
    let mut buf = data.to_vec();
    let cipher: cbc::Decryptor<aes::Aes128> = aes::cipher::KeyIvInit::new(key.into(), iv.into());
    aes::cipher::BlockDecryptMut::decrypt_padded_mut::<aes::cipher::block_padding::Pkcs7>(
        cipher,
        &mut buf,
    ).map(|d| d.to_vec()).map_err(|e| e.to_string())
}

/// The part of the decrypted bytes that holds the value: what follows the first 32 of
/// them where that is text, all of them where they are text, and else what follows the
/// first sixteen. All of them where there are no more than 32.
pub open spec fn value_part(d: Seq<u8>) -> Seq<u8> {
    if d.len() > 32 {
        if valid_utf8(after(d, 32)) {
            after(d, 32)
        } else if valid_utf8(d) {
            d
        } else {
            after(d, 16)
        }
    } else {
        d
    }
}

/// The value in the decrypted bytes, or the message of the error.
pub open spec fn value_in(d: Seq<u8>) -> Result<Seq<char>, Seq<char>> {
    if valid_utf8(value_part(d)) {
        Ok(decode_utf8(value_part(d)))
    } else {
        Err("cookie not UTF-8: "@ + utf8_fault(value_part(d)))
    }
}

/// The value in the decrypted bytes.
pub fn cookie_text(d: &Vec<u8>) -> (r: Result<String, AuthError>)
    ensures
        match value_in(d@) {
            Ok(v) => r matches Ok(s) && s@ == v,
            Err(m) => storage_failed(r, m),
        },
{
    let all = d.as_slice();
    let n: usize = d.len();
    let part = if n > 32 {
        let skipped = slice_subrange(all, 32, n);
        if utf8_text(skipped).is_ok() {
            skipped
        } else if utf8_text(all).is_ok() {
            all
        } else {
            slice_subrange(all, 16, n)
        }
    } else {
        all
    };
    proof {
        assert(part@ =~= value_part(d@));
    }
    match utf8_text(part) {
        Ok(s) => Ok(s),
        Err(e) => Err(AuthError::CredentialStorage(join2("cookie not UTF-8: ", e.as_str()))),
    }
}

/// The first block that the decryption of a cookie is chained to: sixteen spaces.
pub open spec fn spaces() -> Seq<u8> {
    Seq::new(16, |i: int| 0x20u8)
}

/// The value of an encrypted cookie, or the message of the error.
pub open spec fn decrypted(data: Seq<u8>, key: Seq<u8>) -> Result<Seq<char>, Seq<char>> {
    match aes_plain(data, key, spaces()) {
        Ok(d) => value_in(d),
        Err(m) => Err("AES decrypt: "@ + m),
    }
}

/// The value of an encrypted cookie.
pub fn decrypt_cookie_value(encrypted: &[u8], key: &[u8; 16]) -> (r: Result<String, AuthError>)
    ensures
        match decrypted(encrypted@, key@) {
            Ok(v) => r matches Ok(s) && s@ == v,
            Err(m) => storage_failed(r, m),
        },
{
    let iv: [u8; 16] = [0x20u8; 16];
    proof {
        assert(iv@ =~= spaces());
    }
    match aes_decrypt(encrypted, key, &iv) {
        Ok(d) => cookie_text(&d),
        Err(e) => Err(AuthError::CredentialStorage(join2("AES decrypt: ", e.as_str()))),
    }
}

// ───────────────────────── cookies of a browser's database ─────────────────────────

/// A row of a browser's table of cookies.
#[derive(Debug)]
pub struct CookieRow {
    pub name: String,
    pub encrypted: Vec<u8>,
    /// The value, where it is not encrypted.
    pub plain: String,
}

/// The cookies that are taken.
pub open spec fn desired(name: Seq<char>) -> bool {
    ||| name == "SID"@
    ||| name == "HSID"@
    ||| name == "SSID"@
    ||| name == "OSID"@
    ||| name == "SAPISID"@
    ||| name == "APISID"@
    ||| name == "SIDCC"@
    ||| name == "__Secure-1PSIDCC"@
    ||| name == "__Secure-3PSIDCC"@
    ||| name == "__Secure-1PSID"@
    ||| name == "__Secure-3PSID"@
    ||| name == "__Secure-1PSIDTS"@
    ||| name == "__Secure-3PSIDTS"@
    ||| name == "__Secure-1PAPISID"@
    ||| name == "__Secure-3PAPISID"@
    ||| name == "__Secure-OSID"@
    ||| name == "COMPASS"@
    ||| name == "OGPC"@
    ||| name == "NID"@
    ||| name == "LSID"@
}

/// True of the cookies that are taken.
pub fn is_desired(name: &str) -> (r: bool)
    ensures
        r == desired(name@),
{
    text::same(name, "SID") || text::same(name, "HSID") || text::same(name, "SSID") || text::same(
        name,
        "OSID",
    ) || text::same(name, "SAPISID") || text::same(name, "APISID") || text::same(name, "SIDCC")
        || text::same(name, "__Secure-1PSIDCC") || text::same(name, "__Secure-3PSIDCC")
        || text::same(name, "__Secure-1PSID") || text::same(name, "__Secure-3PSID") || text::same(
        name,
        "__Secure-1PSIDTS",
    ) || text::same(name, "__Secure-3PSIDTS") || text::same(name, "__Secure-1PAPISID")
        || text::same(name, "__Secure-3PAPISID") || text::same(name, "__Secure-OSID")
        || text::same(name, "COMPASS") || text::same(name, "OGPC") || text::same(name, "NID")
        || text::same(name, "LSID")
}

/// The value begins with one of the marks of an encrypted one, `v10` or `v11`, and has
/// something behind it.
pub open spec fn marked(e: Seq<u8>) -> bool {
    e.len() >= 4 && e[0] == 118 && e[1] == 49 && (e[2] == 48 || e[2] == 49)
}

/// The value of a row, if it has one that can be read.
pub open spec fn row_value(row: CookieRow, key: Seq<u8>) -> Option<Seq<char>> {
    if row.plain@.len() > 0 {
        Some(row.plain@)
    } else if marked(row.encrypted@) {
        match decrypted(after(row.encrypted@, 3), key) {
            Ok(v) => Some(v),
            Err(_) => None,
        }
    } else {
        None
    }
}

/// The cookies that are taken from the rows: of each name that is desired the first
/// that can be read.
pub open spec fn collected(rows: Seq<CookieRow>, key: Seq<u8>) -> Seq<(Seq<char>, Seq<char>)>
    decreases rows.len(),
{
    if rows.len() == 0 {
        Seq::empty()
    } else {
        let before = collected(rows.drop_last(), key);
        let row = rows.last();
        if desired(row.name@) && first_value(before, row.name@) is None {
            match row_value(row, key) {
                Some(v) => before.push((row.name@, v)),
                None => before,
            }
        } else {
            before
        }
    }
}

/// The value of a row, if it has one that can be read.
pub fn value_of_row(row: &CookieRow, key: &[u8; 16]) -> (r: Option<String>)
    ensures
        text_opt(r) == row_value(*row, key@),
{
    if !row.plain.as_str().is_empty() {
        return Some(row.plain.clone());
    }
    let n: usize = row.encrypted.len();
    if n < 4 {
        return None;
    }
    if row.encrypted[0] == 118 && row.encrypted[1] == 49 && (row.encrypted[2] == 48
        || row.encrypted[2] == 49) {
        let data = slice_subrange(row.encrypted.as_slice(), 3, n);
        proof {
            assert(data@ =~= after(row.encrypted@, 3));
        }
        match decrypt_cookie_value(data, key) {
            Ok(v) => Some(v),
            Err(_) => None,
        }
    } else {
        None
    }
}

/// The cookies that are taken from the rows. A row that cannot be read from the
/// database ends the reading with its message.
pub fn read_and_decrypt_cookies(rows: &Vec<Result<CookieRow, String>>, key: &[u8; 16]) -> (r: Result<
    Vec<(String, String)>,
    AuthError,
>)
    ensures
        match first_failure(rows@) {
            Some(m) => storage_failed(r, "row read: "@ + m),
            None => r matches Ok(v) && pairs(v@) == collected(read_rows(rows@), key@),
        },
{
    let mut out: Vec<(String, String)> = Vec::new();
    let mut i: usize = 0;
    proof {
        assert(pairs(out@) =~= Seq::empty());
        assert(read_rows(rows@.take(0)) =~= Seq::empty());
        assert(after(rows@, 0) =~= rows@);
    }
    while i < rows.len()
        invariant
            i <= rows@.len(),
            first_failure(rows@) == first_failure(after(rows@, i as int)),
            pairs(out@) == collected(read_rows(rows@.take(i as int)), key@),
        decreases rows@.len() - i,
    {
        let ghost next = read_rows(rows@.take(i + 1));
        proof {
            assert(after(rows@, i as int)[0] == rows@[i as int]);
            assert(after(rows@, i as int).drop_first() =~= after(rows@, i + 1));
        }
        let row = match &rows[i] {
            Ok(row) => row,
            Err(e) => return Err(
                AuthError::CredentialStorage(join2("row read: ", e.as_str())),
            ),
        };
        proof {
            assert(next.drop_last() =~= read_rows(rows@.take(i as int)));
            assert(next.last() == *row);
        }
        if is_desired(row.name.as_str()) && find_cookie(&out, row.name.as_str()).is_none() {
            match value_of_row(row, key) {
                Some(v) => {
                    let ghost before = out@;
                    let p = (row.name.clone(), v);
                    out.push(p);
                    proof {
                        assert(pairs(out@) =~= pairs(before).push((p.0@, p.1@)));
                    }
                },
                None => {},
            }
        }
        i += 1;
    }
    proof {
        assert(rows@.take(rows@.len() as int) =~= rows@);
    }
    Ok(out)
}

/// The message of the first row that could not be read from the database.
pub open spec fn first_failure(rows: Seq<Result<CookieRow, String>>) -> Option<Seq<char>>
    decreases rows.len(),
{
    if rows.len() == 0 {
        None
    } else {
        match rows[0] {
            Ok(_) => first_failure(rows.drop_first()),
            Err(m) => Some(m@),
        }
    }
}

/// The rows, where all could be read from the database.
pub open spec fn read_rows(rows: Seq<Result<CookieRow, String>>) -> Seq<CookieRow> {
    rows.map_values(|r: Result<CookieRow, String>| r->Ok_0)
}

/// The cookies of a session, from the rows of a browser's database and the password
/// that they are encrypted with.
pub fn extract_chrome_cookies(rows: &Vec<Result<CookieRow, String>>, password: &[u8]) -> (r: Result<
    ChatCookies,
    AuthError,
>)
    ensures
        match first_failure(rows@) {
            Some(m) => storage_failed(r, "row read: "@ + m),
            None => {
                let found = collected(read_rows(rows@), cookie_key(password@));
                match missing(found) {
                    Some(m) => storage_failed(
                        r,
                        "Missing required cookie: "@ + m
                            + ". Please log into Google Chat in Chrome first."@,
                    ),
                    None => r matches Ok(c) && made_of(c, found),
                }
            },
        },
{
    let key = derive_aes_key(password);
    let cookies = match read_and_decrypt_cookies(rows, &key) {
        Ok(v) => v,
        Err(e) => return Err(e),
    };
    match missing_cookie(&cookies) {
        Some(m) => Err(
            AuthError::CredentialStorage(
                join3(
                    "Missing required cookie: ",
                    m,
                    ". Please log into Google Chat in Chrome first.",
                ),
            ),
        ),
        None => Ok(ChatCookies::from_pairs(cookies)),
    }
}

proof fn lemma_first_value(v: Seq<(Seq<char>, Seq<char>)>, name: Seq<char>)
    ensures
        first_value(v, name) is None <==> (forall|i: int|
            0 <= i < v.len() ==> (#[trigger] v[i]).0 != name),
    decreases v.len(),
{
    if v.len() > 0 && v[0].0 != name {
        lemma_first_value(v.drop_first(), name);
        let rest = v.drop_first();
        if first_value(rest, name) is None {
            assert forall|i: int| 0 <= i < v.len() implies (#[trigger] v[i]).0 != name by {
                if i > 0 {
                    assert(rest[i - 1] == v[i]);
                }
            }
        } else {
            let j = choose|j: int| 0 <= j < rest.len() && (#[trigger] rest[j]).0 == name;
            assert(v[j + 1] == rest[j]);
        }
    }
}

/// No cookie is taken twice, and none is taken that is not desired.
pub proof fn law_each_cookie_once(rows: Seq<CookieRow>, key: Seq<u8>)
    ensures
        forall|i: int|
            0 <= i < collected(rows, key).len() ==> desired((#[trigger] collected(rows, key)[i]).0),
        forall|i: int, j: int|
            0 <= i < j < collected(rows, key).len() ==> (#[trigger] collected(rows, key)[i]).0 != (
            #[trigger] collected(rows, key)[j]).0,
    decreases rows.len(),
{
    if rows.len() > 0 {
        law_each_cookie_once(rows.drop_last(), key);
        lemma_first_value(collected(rows.drop_last(), key), rows.last().name@);
    }
}

/// A cookie that is taken stays: further rows add cookies behind those taken and change
/// none of them. So the first row of a name that can be read wins.
pub proof fn law_first_cookie_stays(rows: Seq<CookieRow>, row: CookieRow, key: Seq<u8>)
    ensures
        collected(rows, key).is_prefix_of(collected(rows.push(row), key)),
{
    assert(rows.push(row).drop_last() =~= rows);
}

// ───────────────────────── signing ─────────────────────────

/// The SHA-1 digest of the data.
pub uninterp spec fn sha1_digest(data: Seq<u8>) -> Seq<u8>;

/// `Digest::digest` of `sha1::Sha1`, which has twenty bytes.
#[verifier::external_body]
fn sha1_bytes(data: &[u8]) -> (r: Vec<u8>)
    ensures
        r@ == sha1_digest(data@) && r@.len() == 20,
{
    <sha1::Sha1 as sha1::Digest>::digest(data).to_vec()
}

/// The bytes in hexadecimal, two digits each.
pub open spec fn hex_bytes(data: Seq<u8>) -> Seq<char>
    decreases data.len(),
{
    if data.len() == 0 {
        Seq::empty()
    } else {
        hex_bytes(data.drop_last()) + hex(data.last() as nat, 2, false)
    }
}

/// The bytes in hexadecimal, two digits each.
pub fn show_bytes(data: &Vec<u8>) -> (r: String)
    ensures
        r@ == hex_bytes(data@),
{
    let mut out = String::new();
    let mut i: usize = 0;
    while i < data.len()
        invariant
            i <= data@.len(),
            out@ == hex_bytes(data@.take(i as int)),
        decreases data@.len() - i,
    {
        proof {
            assert(data@.take(i + 1).drop_last() =~= data@.take(i as int));
        }
        out.append(show_hex(data[i] as u64, 2, false).as_str());
        i += 1;
    }
    proof {
        assert(data@.take(data@.len() as int) =~= data@);
    }
    out
}

/// The value of the header that a call made at the second `now` is signed with.
pub open spec fn signature(sapisid: Seq<char>, origin: Seq<char>, now: u64) -> Seq<char> {
    "SAPISIDHASH "@ + decimal(now as nat) + "_"@ + hex_bytes(
        sha1_digest(encode_utf8(decimal(now as nat) + " "@ + sapisid + " "@ + origin)),
    )
}

/// The value of the header that a call made at the second `now` is signed with.
pub fn compute_sapisidhash(sapisid: &str, origin: &str, now: u64) -> (r: String)
    ensures
        r@ == signature(sapisid@, origin@, now),
{
    let second = text::show(now);
    let mut input = join3(second.as_str(), " ", sapisid);
    input.append(" ");
    input.append(origin);
    let digest = sha1_bytes(input.as_str().as_bytes());
    let mut out = join3("SAPISIDHASH ", second.as_str(), "_");
    out.append(show_bytes(&digest).as_str());
    out
}

} // verus!
