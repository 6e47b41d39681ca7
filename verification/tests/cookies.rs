use aes::cipher::block_padding::Pkcs7;
use aes::cipher::{BlockEncryptMut, KeyIvInit};

use tchat::error::AuthError;
use tchat::googlechat::auth::{
    chat_tab, chrome_paths, exchange_dynamite_token, find_chrome, first_present, is_on_chat,
    parse_access_token, parse_dynamite_response, LoginStep, LoginWait,
};
use tchat::googlechat::cookies::{
    chrome_cookies_db_path, compute_sapisidhash, cookie_header, cookie_text, database_paths,
    decrypt_cookie_value, derive_aes_key, extract_chrome_cookies, extract_from_browser,
    find_cookie, is_desired, missing_cookie, read_and_decrypt_cookies, read_saved, saved_cookies,
    saved_text, show_bytes, value_of_row, BrowserCookie, ChatCookies, CookieRow,
};
use tchat::json::parse;

fn pairs(v: &[(&str, &str)]) -> Vec<(String, String)> {
    v.iter().map(|(a, b)| ((*a).to_owned(), (*b).to_owned())).collect()
}

fn encrypted(value: &[u8], key: &[u8; 16]) -> Vec<u8> {
    cbc::Encryptor::<aes::Aes128>::new(key.into(), &[0x20u8; 16].into())
        .encrypt_padded_vec_mut::<Pkcs7>(value)
}

fn row(name: &str, encrypted: Vec<u8>, plain: &str) -> Result<CookieRow, String> {
    Ok(CookieRow { name: name.to_owned(), encrypted, plain: plain.to_owned() })
}

fn storage(e: AuthError) -> String {
    match e {
        AuthError::CredentialStorage(m) => m,
        other => panic!("unexpected: {other:?}"),
    }
}

// ── cookies ──

#[test]
fn cookies_are_found_and_written() {
    let c = pairs(&[("A", "1"), ("B", "2"), ("A", "3")]);
    assert_eq!(find_cookie(&c, "A"), Some("1".to_owned()));
    assert_eq!(find_cookie(&c, "C"), None);
    assert_eq!(cookie_header(&c), "A=1; B=2; A=3");
    assert_eq!(cookie_header(&vec![]), "");
    let s = ChatCookies::from_pairs(pairs(&[("SID", "s"), ("SAPISID", "p")]));
    assert_eq!(s.cookie_header, "SID=s; SAPISID=p");
    assert_eq!(s.sapisid, Some("p".to_owned()));
}

#[test]
fn three_cookies_make_a_session() {
    assert_eq!(missing_cookie(&vec![]), Some("SID"));
    assert_eq!(missing_cookie(&pairs(&[("SID", "a")])), Some("HSID"));
    assert_eq!(missing_cookie(&pairs(&[("SID", "a"), ("HSID", "b")])), Some("SSID"));
    assert_eq!(missing_cookie(&pairs(&[("SSID", "c"), ("SID", "a"), ("HSID", "b")])), None);
}

#[test]
fn saved_cookies_are_read_back() {
    let c = ChatCookies::from_pairs(pairs(&[("SID", "a\"b"), ("HSID", "b"), ("SSID", "c")]));
    let text = saved_text(&c).unwrap();
    assert_eq!(text, r#"[["SID","a\"b"],["HSID","b"],["SSID","c"]]"#);
    let back = read_saved(&text).unwrap();
    assert_eq!(back.cookies, c.cookies);
    assert_eq!(back.cookie_header, c.cookie_header);
}

#[test]
fn saved_cookies_that_are_no_session() {
    assert_eq!(
        storage(read_saved(r#"[["SID","a"]]"#).unwrap_err()),
        "Saved cookies missing HSID. Re-authenticate with Chrome."
    );
    assert!(storage(read_saved("{").unwrap_err()).starts_with("parse: "));
    assert_eq!(
        storage(saved_cookies(vec![]).unwrap_err()),
        "Saved cookies missing SID. Re-authenticate with Chrome."
    );
}

#[test]
fn chrome_db_path_exists_or_not() {
    // Just verify the function doesn't panic
    let _ = chrome_cookies_db_path(None, &Some("/nowhere".to_owned()), &vec![false, false]);
}

#[test]
fn places_of_the_cookie_database() {
    let home = Some("/home/me".to_owned());
    assert_eq!(
        database_paths("/home/me"),
        vec![
            "/home/me/Library/Application Support/Google/Chrome/Default/Cookies",
            "/home/me/Library/Application Support/Google/Chrome/Profile 1/Cookies",
        ]
    );
    assert_eq!(
        chrome_cookies_db_path(Some("/own".to_owned()), &home, &vec![]).unwrap(),
        "/own"
    );
    assert_eq!(
        chrome_cookies_db_path(None, &home, &vec![false, true]).unwrap(),
        "/home/me/Library/Application Support/Google/Chrome/Profile 1/Cookies"
    );
    assert_eq!(
        storage(chrome_cookies_db_path(None, &home, &vec![false, false]).unwrap_err()),
        "No Chrome Cookies database found. Run tchat with Chrome first."
    );
    assert_eq!(
        storage(chrome_cookies_db_path(None, &None, &vec![true]).unwrap_err()),
        "HOME not set"
    );
}

#[test]
fn cookies_of_a_running_browser() {
    let c = |name: &str, domain: &str| BrowserCookie {
        name: name.to_owned(),
        value: format!("{name}-value"),
        domain: domain.to_owned(),
    };
    let all = vec![c("SID", ".google.com"), c("X", "example.org"), c("NID", ".google.ca")];
    let s = extract_from_browser(&all);
    assert_eq!(s.cookie_header, "SID=SID-value; NID=NID-value");
    assert_eq!(s.sapisid, None);
}

// ── decryption ──

#[test]
fn keys_of_passwords() {
    assert_eq!(
        derive_aes_key(b"peanuts"),
        [217, 160, 157, 73, 155, 78, 27, 116, 97, 242, 142, 103, 151, 44, 109, 189]
    );
}

#[test]
fn a_cookie_is_decrypted() {
    let key = derive_aes_key(b"peanuts");
    let data = encrypted(b"hello", &key);
    assert_ne!(data, b"hello");
    assert_eq!(decrypt_cookie_value(&data, &key).unwrap(), "hello");
}

#[test]
fn a_hash_before_the_value_is_skipped() {
    let key = derive_aes_key(b"peanuts");
    let mut plain = vec![0xffu8; 32];
    plain.extend_from_slice(b"the value");
    assert_eq!(decrypt_cookie_value(&encrypted(&plain, &key), &key).unwrap(), "the value");
}

#[test]
fn the_value_in_decrypted_bytes() {
    // Thirty-two bytes and no more are the value itself.
    assert_eq!(cookie_text(&vec![b'a'; 32]).unwrap(), "a".repeat(32));
    // More than that: what follows the first thirty-two.
    assert_eq!(cookie_text(&vec![b'a'; 33]).unwrap(), "a");
    // What follows is no text, and all of it is none: what follows the first sixteen.
    let mut d = vec![0xffu8; 16];
    d.extend_from_slice(&vec![b'b'; 15]);
    d.extend_from_slice("é".as_bytes());
    assert_eq!(cookie_text(&d).unwrap(), format!("{}é", "b".repeat(15)));
    // What follows begins inside of a character, but all of it is text.
    let mut e = vec![b'c'; 31];
    e.extend_from_slice("é!".as_bytes());
    assert_eq!(cookie_text(&e).unwrap(), format!("{}é!", "c".repeat(31)));
    assert!(storage(cookie_text(&vec![0xff]).unwrap_err()).starts_with("cookie not UTF-8: "));
}

#[test]
fn what_cannot_be_decrypted() {
    let key = derive_aes_key(b"peanuts");
    assert!(storage(decrypt_cookie_value(b"short", &key).unwrap_err()).starts_with("AES decrypt: "));
}

#[test]
fn rows_of_the_database() {
    let key = derive_aes_key(b"peanuts");
    let mut v10 = b"v10".to_vec();
    v10.extend_from_slice(&encrypted(b"one", &key));
    let mut v11 = b"v11".to_vec();
    v11.extend_from_slice(&encrypted(b"two", &key));
    let mut v12 = b"v12".to_vec();
    v12.extend_from_slice(&encrypted(b"three", &key));
    let value = |e: Vec<u8>, p: &str| value_of_row(&row("SID", e, p).unwrap(), &key);
    assert_eq!(value(v10.clone(), ""), Some("one".to_owned()));
    assert_eq!(value(v11.clone(), ""), Some("two".to_owned()));
    assert_eq!(value(v12, ""), None);
    assert_eq!(value(b"v10".to_vec(), ""), None);
    assert_eq!(value(b"v10x".to_vec(), ""), None);
    assert_eq!(value(v10.clone(), "plain"), Some("plain".to_owned()));

    let rows = vec![
        row("SID", b"v10x".to_vec(), ""),
        row("SID", v10.clone(), ""),
        row("SID", v11.clone(), ""),
        row("OTHER", v11.clone(), ""),
        row("HSID", vec![], "h"),
    ];
    assert_eq!(
        read_and_decrypt_cookies(&rows, &key).unwrap(),
        pairs(&[("SID", "one"), ("HSID", "h")])
    );
}

#[test]
fn cookies_of_the_database() {
    let key = derive_aes_key(b"secret");
    let mut sid = b"v10".to_vec();
    sid.extend_from_slice(&encrypted(b"s", &key));
    let rows = vec![row("SID", sid, ""), row("HSID", vec![], "h"), row("SSID", vec![], "ss")];
    let c = extract_chrome_cookies(&rows, b"secret").unwrap();
    assert_eq!(c.cookie_header, "SID=s; HSID=h; SSID=ss");
    let few = vec![row("SID", vec![], "s")];
    assert!(extract_chrome_cookies(&few, b"secret").is_err());
    let broken = vec![row("SID", vec![], "s"), Err("locked".to_owned())];
    assert_eq!(
        storage(read_and_decrypt_cookies(&broken, &key).unwrap_err()),
        "row read: locked"
    );
}

#[test]
fn names_of_cookies_that_are_taken() {
    for n in ["SID", "__Secure-3PSIDTS", "COMPASS", "LSID"] {
        assert!(is_desired(n));
    }
    for n in ["sid", "", "GAPS"] {
        assert!(!is_desired(n));
    }
}

#[test]
fn a_signature() {
    assert_eq!(
        compute_sapisidhash("abc", "https://chat.google.com", 1_700_000_000),
        "SAPISIDHASH 1700000000_c37cbcfc4f485638947ca5e102cc6ae5eb0710df"
    );
    assert_eq!(show_bytes(&vec![0, 15, 255]), "000fff");
}

// ── signing in ──

#[test]
fn tokens_in_replies() {
    assert_eq!(
        parse_access_token(&parse(r#"{"access_token":"t"}"#).unwrap()).unwrap(),
        "t"
    );
    assert!(matches!(
        parse_access_token(&parse(r#"{"access_token":1}"#).unwrap()),
        Err(AuthError::MissingField("access_token"))
    ));
    let life = |s: &str| parse_dynamite_response(&parse(s).unwrap()).unwrap().1;
    assert_eq!(life(r#"{"token":"t","expiresIn":60}"#), 60);
    assert_eq!(life(r#"{"token":"t","expiresIn":"x"}"#), 3600);
    assert_eq!(life(r#"{"token":"t"}"#), 3600);
    assert!(matches!(
        exchange_dynamite_token("t"),
        Err(AuthError::DynamiteExchange(m)) if m == "not used in browser mode"
    ));
}

#[test]
fn the_tab_for_calls() {
    let urls = |v: &[&str]| v.iter().map(|s| (*s).to_owned()).collect::<Vec<String>>();
    assert!(is_on_chat("https://chat.google.com/u/0"));
    assert!(!is_on_chat("https://accounts.google.com"));
    assert_eq!(chat_tab(&urls(&["about:blank", "https://chat.google.com/u/0"])), Some(1));
    assert_eq!(chat_tab(&urls(&["about:blank", "x"])), Some(0));
    assert_eq!(chat_tab(&vec![]), None);
}

#[test]
fn waiting_for_the_user() {
    let login = vec![BrowserCookie {
        name: "SID".to_owned(),
        value: "x".to_owned(),
        domain: ".google.com".to_owned(),
    }];
    let chat = "https://chat.google.com/u/0";
    let mut w = LoginWait::new(true);
    assert_eq!(w.patience(), 20);
    assert_eq!(w.timed_out(), LoginStep::Reopen);
    assert_eq!(w.look("https://accounts.google.com", Some(&login)), LoginStep::Again);
    assert_eq!(w.look(chat, None), LoginStep::Again);
    assert_eq!(w.timed_out(), LoginStep::TimedOut);
    assert_eq!(w.look("https://accounts.google.com", Some(&login)), LoginStep::Done);

    let mut again = LoginWait::reopened();
    assert_eq!(again.patience(), 300);
    assert_eq!(again.look(chat, Some(&vec![])), LoginStep::Again);
    assert_eq!(again.look("https://accounts.google.com", Some(&login)), LoginStep::Again);
    assert_eq!(again.look(chat, Some(&login)), LoginStep::Done);
    assert_eq!(LoginWait::new(false).timed_out(), LoginStep::TimedOut);
}

#[test]
fn find_chrome_runs() {
    // On machines with Chrome, this should find it.
    let _ = find_chrome(&vec![false; 6]);
}

#[test]
fn the_place_of_the_browser() {
    assert_eq!(chrome_paths().len(), 6);
    assert_eq!(first_present(&vec![false, true, true]), Some(1));
    assert_eq!(first_present(&vec![false]), None);
    assert_eq!(
        find_chrome(&vec![false, false, false, false, true]).unwrap(),
        "/usr/bin/chromium"
    );
    assert!(find_chrome(&vec![false; 6]).is_err());
}
