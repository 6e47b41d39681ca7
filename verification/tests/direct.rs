use tchat::error::AuthError;
use tchat::googlechat::cookies::ChatCookies;
use tchat::googlechat::direct::{
    batch_reply, call_reply, extract_at_token_from_html, extract_wiz_token, find_payload,
    parse_outer, DirectSession,
};
use tchat::googlechat::io::{channel_sid, stuck_tab};
use tchat::googlechat::reply::{
    get_reply, header_reply, pblite_reply, pblite_reply_raw, pblite_request, post_reply,
    response_message, strip_guard, unwrap_fields, wire_fields, xhr_reply,
};
use tchat::googlechat::schema::load_schema;
use tchat::googlechat::search::{search_messages, search_messages_in_space};
use tchat::googlechat::session::{
    api_url, events_url, extract_first_frame, extract_sid_from_stream, parse_sid_from_register,
    register_url, sid_of, sid_url, Session, SidReply,
};
use tchat::json::{parse, print};
use tchat::percent::url_decode;

fn session() -> DirectSession {
    DirectSession::new(ChatCookies::from_pairs(vec![
        ("SID".to_owned(), "s".to_owned()),
        ("SAPISID".to_owned(), "abc".to_owned()),
    ]))
}

fn failed(r: Result<Vec<u8>, AuthError>) -> String {
    match r {
        Err(AuthError::SessionFetch(m)) => m,
        other => panic!("unexpected: {other:?}"),
    }
}

const SIGNATURE: &str = "SAPISIDHASH 1700000000_c37cbcfc4f485638947ca5e102cc6ae5eb0710df";

// ── addresses ──

#[test]
fn addresses() {
    assert_eq!(
        register_url(),
        "https://chat.google.com/u/0/webchannel/register?ignore_compass_cookie=1"
    );
    assert_eq!(
        sid_url("z1"),
        "https://chat.google.com/u/0/webchannel/events?VER=8&RID=1&CVER=22&zx=z1&t=1&SID=null&%24req=count%3D1%26ofs%3D0%26req0_data%3D%255B%255D"
    );
    assert_eq!(
        events_url("S", 7, "z2"),
        "https://chat.google.com/u/0/webchannel/events?VER=8&RID=rpc&SID=S&AID=7&TYPE=xmlhttp&CI=0&t=1&zx=z2"
    );
    assert_eq!(
        api_url("list_topics", 3, true),
        "https://chat.google.com/u/0/api/list_topics?c=3&rt=b"
    );
    assert_eq!(
        api_url("list_topics", 3, false),
        "https://chat.google.com/u/0/api/list_topics?c=3"
    );
}

// ── sessions ──

#[test]
fn the_session_takes_its_number_from_a_header() {
    let mut s = Session::new(None);
    s.acquire_sid(SidReply::Header(r#"x[[0,["c","SID-1","",8]]]"#.to_owned())).unwrap();
    assert_eq!(s.sid, Some("SID-1".to_owned()));
    let mut t = Session::new(None);
    assert!(matches!(
        t.acquire_sid(SidReply::Header("none".to_owned())),
        Err(AuthError::MissingField("SID array"))
    ));
    assert!(matches!(
        t.acquire_sid(SidReply::Header("[[0]]".to_owned())),
        Err(AuthError::MissingField("SID"))
    ));
    assert!(matches!(
        t.acquire_sid(SidReply::Header("[[0".to_owned())),
        Err(AuthError::SessionFetch(_))
    ));
    assert_eq!(t.sid, None);
}

#[test]
fn the_session_takes_its_number_from_a_body() {
    let mut s = Session::new(None);
    s.acquire_sid(SidReply::Body(br#"51\n[[0,["c","SID-2","",8]]]"#.to_vec())).unwrap();
    assert_eq!(s.sid, Some("SID-2".to_owned()));
    let mut t = Session::new(None);
    assert!(matches!(
        t.acquire_sid(SidReply::Body(b"[]".to_vec())),
        Err(AuthError::MissingField("SID"))
    ));
    assert!(matches!(
        t.acquire_sid(SidReply::Body(vec![0xff])),
        Err(AuthError::SessionFetch(m)) if m.starts_with("non-UTF8: ")
    ));
}

#[test]
fn the_session_keeps_its_token() {
    let mut s = Session::new(None);
    s.fetch_session_tokens("").unwrap();
    assert_eq!(s.read_config().xsrf_token, "");
    s.fetch_session_tokens("t1").unwrap();
    s.fetch_session_tokens("t2").unwrap();
    s.ensure_fresh().unwrap();
    assert_eq!(s.read_config().xsrf_token, "t1");
    assert_eq!(s.read_config().sid, "");
    assert_eq!((s.next_rid(), s.next_rid()), (1, 2));
    assert_eq!((s.next_api_counter(), s.next_api_counter()), (1, 2));
}

#[test]
fn draws_that_differ_give_different_texts() {
    assert_eq!(Session::random_zx(0xabc), "000000000abc");
    assert_eq!(Session::random_zx(0xffff_1234_5678_9abc), "123456789abc");
    assert_ne!(Session::random_zx(1), Session::random_zx(2));
}

#[test]
fn numbers_in_streams() {
    assert_eq!(extract_sid_from_stream(r#"[[0,["c","A","",8]]]"#), Some("A".to_owned()));
    assert_eq!(extract_sid_from_stream(r#"[[0,["c",""]]]"#), None);
    assert_eq!(extract_sid_from_stream("x"), None);
    assert_eq!(sid_of(&parse(r#"[[0,["c","B"]]]"#).unwrap()), Some("B".to_owned()));
    assert_eq!(sid_of(&parse(r#"[[0,["c",1]]]"#).unwrap()), None);
    assert_eq!(parse_sid_from_register(r#"[[0,["c","C"]]]"#).unwrap(), "C");
}

#[test]
fn the_first_frame_of_a_body() {
    assert_eq!(extract_first_frame("5\n[1,2]3\n[4]"), Some("[1,2]".to_owned()));
    assert_eq!(extract_first_frame("no frame"), None);
}

#[test]
fn the_number_that_a_tab_gives_back() {
    assert_eq!(
        channel_sid(r#"{"sid_header":"[[0,[\"c\",\"H\",\"\",8]]]"}"#).unwrap(),
        "H"
    );
    assert_eq!(channel_sid(r#"{"body":"[[0,[\"c\",\"B\"]]]"}"#).unwrap(), "B");
    assert!(matches!(
        channel_sid(r#"{"body":""}"#),
        Err(AuthError::MissingField("SID in body"))
    ));
    assert!(matches!(
        channel_sid(r#"{"error":"x"}"#),
        Err(AuthError::SessionFetch(m)) if m == "SID fetch failed: x"
    ));
    assert!(matches!(
        channel_sid("{}"),
        Err(AuthError::SessionFetch(m)) if m == "SID fetch failed: unknown"
    ));
    assert!(matches!(
        channel_sid("{"),
        Err(AuthError::SessionFetch(m)) if m.starts_with("SID parse: ")
    ));
    assert!(matches!(
        stuck_tab(&"a".repeat(80)),
        AuthError::SessionFetch(m) if m == format!("BC tab stuck on SSO: {}", "a".repeat(60))
    ));
}

// ── calls without a browser ──

#[test]
fn tokens_in_the_page() {
    let html = r#"x {"SMqcke":"xs","SNlM0e":"at","empty":""} y"#;
    assert_eq!(extract_wiz_token(html, "SMqcke"), Some("xs".to_owned()));
    assert_eq!(extract_wiz_token(html, "empty"), None);
    assert_eq!(extract_at_token_from_html(html), Some("at".to_owned()));
    let mut s = session();
    assert!(matches!(
        s.fetch_xsrf_token("nothing"),
        Err(AuthError::SessionFetch(m)) if m == "Could not find XSRF token in page. Cookies may be expired."
    ));
    assert_eq!(s.xsrf_token, None);
    s.fetch_xsrf_token(html).unwrap();
    assert_eq!(s.xsrf_token, Some("xs".to_owned()));
    assert_eq!(s.at_token, Some("at".to_owned()));
}

#[test]
fn headers_of_a_call() {
    let mut s = session();
    s.xsrf_token = Some("xs".to_owned());
    let q = s.register(1_700_000_000);
    assert_eq!(q.url, register_url());
    let h = &q.headers;
    assert_eq!(h[0], ("Cookie".to_owned(), "SID=s; SAPISID=abc".to_owned()));
    assert_eq!(h[1], ("X-Goog-AuthUser".to_owned(), "0".to_owned()));
    assert_eq!(h[2].0, "User-Agent");
    assert_eq!(h[3], ("X-Framework-Xsrf-Token".to_owned(), "xs".to_owned()));
    assert_eq!(h[4], ("Authorization".to_owned(), SIGNATURE.to_owned()));
    assert_eq!(h.len(), 5);
    let bare = DirectSession::new(ChatCookies::from_pairs(vec![]));
    assert_eq!(bare.headers(0).len(), 3);
    assert_eq!((s.next_api_counter(), s.next_api_counter()), (1, 2));
}

#[test]
fn the_direct_session_takes_its_number() {
    let mut s = session();
    assert!(matches!(s.acquire_sid("x"), Err(AuthError::MissingField("SID"))));
    s.acquire_sid(r#"[[0,["c","D"]]]"#).unwrap();
    assert_eq!(s.sid, Some("D".to_owned()));
}

#[test]
fn replies_to_calls() {
    assert_eq!(call_reply(200, "200 OK", vec![1, 2]).unwrap(), vec![1, 2]);
    assert_eq!(
        failed(call_reply(404, "404 Not Found", vec![1, 2])),
        "HTTP 404 Not Found: 2 bytes"
    );
}

#[test]
fn a_search_is_posted() {
    let mut s = session();
    assert!(matches!(
        search_messages(&s, "q", "u", 0, 0),
        Err(AuthError::SessionFetch(m)) if m == "no at token; call fetch_xsrf_token first"
    ));
    s.at_token = Some("a:t".to_owned());
    let (q, form) = s.batchexecute("rpc", "[1]", 1_700_000_000, 12).unwrap();
    assert_eq!(
        q.url,
        "https://chat.google.com/u/0/_/DynamiteWebUi/data/batchexecute?rpcids=rpc&source-path=%2F&f.sid=-1&bl=boq_dynamite-frontend&hl=en&_reqid=12"
    );
    assert_eq!(q.headers.last().unwrap().1, SIGNATURE);
    assert_eq!(q.headers[0].1, "application/x-www-form-urlencoded;charset=UTF-8");
    assert_eq!(q.headers[2], ("Referer".to_owned(), "https://chat.google.com/".to_owned()));
    assert!(form.ends_with("&at=a%3At"));
    let req = form.strip_prefix("f.req=").unwrap().strip_suffix("&at=a%3At").unwrap();
    assert_eq!(url_decode(req), r#"[[["rpc","[1]",null,"generic"]]]"#);

    let (_, all) = search_messages(&s, "needle", "u-1", 0, 0).unwrap();
    assert!(url_decode(&all).contains("needle") && url_decode(&all).contains("u-1"));
    let (_, one) = search_messages_in_space(&s, "SPACE", 2, "needle", "u-2", 0, 0).unwrap();
    assert!(url_decode(&one).contains("SPACE") && url_decode(&one).contains("u-2"));
}

#[test]
fn replies_to_searches() {
    let reply = ")]}'\n\n[[\"wrb.fr\",\"other\",\"no\"],[\"wrb.fr\",\"rpc\",\"[1]\"]]";
    assert_eq!(batch_reply("rpc", 200, "200", reply).unwrap(), "[1]");
    assert!(matches!(
        batch_reply("rpc2", 200, "200", reply),
        Err(AuthError::SessionFetch(m)) if m == "batchexecute rpc2: no wrb.fr frame in response"
    ));
    assert!(matches!(
        batch_reply("rpc", 500, "500 Oops", &"é".repeat(150)),
        Err(AuthError::SessionFetch(m)) if m == format!("batchexecute rpc HTTP 500 Oops: {}", "é".repeat(100))
    ));
    assert!(matches!(
        parse_outer("nope"),
        Err(AuthError::SessionFetch(m)) if m.starts_with("parse outer: ")
    ));
    assert_eq!(find_payload(&parse(r#"[["wrb.fr","a",null]]"#).unwrap(), "a"), None);
}

// ── replies of the browser's page ──

#[test]
fn replies_with_bytes() {
    assert_eq!(post_reply(r#"{"data":"AQI="}"#).unwrap(), vec![1, 2]);
    assert_eq!(xhr_reply(r#"{"data":"/w=="}"#).unwrap(), vec![255]);
    assert_eq!(get_reply(r#"{"status":200,"data":"AQI="}"#).unwrap(), vec![1, 2]);
}

#[test]
fn replies_that_fail() {
    assert_eq!(failed(post_reply(r#"{"error":403,"body":"no"}"#)), "HTTP 403: no");
    assert_eq!(failed(xhr_reply(r#"{"error":"x"}"#)), "HTTP \"x\": ");
    assert_eq!(
        failed(post_reply(r#"{"error":{"code":1.5,"why":null},"body":"no"}"#)),
        r#"HTTP {"code":1.5,"why":null}: no"#
    );
    assert_eq!(failed(get_reply(r#"{"error":[-2.25,{}]}"#)), "fetch_get_binary: [-2.25,{}]");
    assert_eq!(failed(post_reply("{}")), "no data field in response");
    assert_eq!(failed(xhr_reply("{}")), "no data");
    assert!(failed(post_reply(r#"{"data":"*"}"#)).starts_with("base64 decode: "));
    assert!(failed(xhr_reply(r#"{"data":"*"}"#)).starts_with("base64: "));
    assert_eq!(failed(post_reply("oops")), "bad response: oops");
    assert_eq!(failed(get_reply(r#"{"error":"gone"}"#)), "fetch_get_binary: \"gone\"");
    assert_eq!(failed(get_reply(r#"{"status":500}"#)), "HTTP 500");
    assert_eq!(failed(get_reply(r#"{"status":200}"#)), "no data field");
}

#[test]
fn headers_of_replies() {
    assert_eq!(header_reply(r#"{"header":"h"}"#, "X").unwrap(), "h");
    assert!(matches!(
        header_reply("{}", "X"),
        Err(AuthError::SessionFetch(m)) if m == "header X not present"
    ));
    assert!(matches!(
        header_reply(r#"{"error":"e"}"#, "X"),
        Err(AuthError::SessionFetch(m)) if m == "fetch_get_header: \"e\""
    ));
}

#[test]
fn a_request_as_pblite() {
    // Field 1 is the text "ab", field 3 the number 5.
    let wire = [0x0a, 2, b'a', b'b', 0x18, 5];
    assert_eq!(pblite_request(&wire).unwrap().unwrap(), r#"["ab",null,5]"#);
    assert!(matches!(
        pblite_request(&[0x0a, 9]),
        Some(Err(AuthError::SessionFetch(m))) if m.starts_with("wire_to_pblite: ")
    ));
    assert!(pblite_request(&[0x00, 1]).is_none());
}

#[test]
fn guards_of_replies() {
    assert_eq!(strip_guard(")]}'\n [1] "), "[1]");
    assert_eq!(strip_guard(" [1]\n"), "[1]");
    assert_eq!(strip_guard(")]}'"), ")]}'");
}

#[test]
fn fields_of_replies() {
    let fields = |s: &str| unwrap_fields(&parse(s).unwrap()).map(|j| print(&j));
    assert_eq!(fields(r#"[["dfe.x.y",1,"a"]]"#), Some(r#"[1,"a"]"#.to_owned()));
    assert_eq!(fields(r#"[[1,"a"]]"#), Some(r#"[1,"a"]"#.to_owned()));
    assert_eq!(fields("[1]"), None);
    assert_eq!(response_message("nothing_of_the_sort"), None);
}

#[test]
fn replies_in_pblite() {
    let schema = load_schema("");
    assert_eq!(pblite_reply("x", b"", &schema).unwrap(), Vec::<u8>::new());
    assert_eq!(
        pblite_reply("x", b")]}'\n[[\"dfe.x\",\"ab\",null,5]]", &schema).unwrap(),
        vec![0x0a, 2, b'a', b'b', 0x18, 5]
    );
    assert!(pblite_reply("x", &[0xff], &schema).is_err());
    assert!(pblite_reply("x", b"[[", &schema).is_err());
    assert_eq!(pblite_reply_raw(b")]}'\n[[\"dfe.x\",\"ab\",5]]").unwrap(), r#"["ab",5]"#);
    assert_eq!(
        pblite_reply_raw(b"[[\"dfe.x\",1.5,{\"3\":[-1,null],\"4\":{}}]]").unwrap(),
        r#"[1.5,{"3":[-1,null],"4":{}}]"#
    );
    assert_eq!(
        wire_fields("x", &parse("[7]").unwrap(), &schema).unwrap(),
        vec![0x08, 7]
    );
}
