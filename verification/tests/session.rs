use tchat::googlechat::auth::parse_dynamite_response;
use tchat::googlechat::chunk::{utf16_units_to_utf8_bytes, ChunkParser};
use tchat::googlechat::cookies::{compute_sapisidhash, derive_aes_key};
use tchat::googlechat::direct::extract_xsrf_from_html;
use tchat::googlechat::search::{
    build_search_in_space_payload, build_search_payload, generate_uuid, group_into_threads,
    parse_message_hit, parse_search_response, MessageHit, SearchResults, ThreadHit,
};
use tchat::googlechat::session::{parse_sid_from_register, parse_xsrf_token, Session};
use tchat::googlechat::world::clean_space_name;
use tchat::json::{parse, print};

#[test]
fn parse_dynamite_response_extracts() {
    let body = parse(r#"{ "token": "t", "expiresIn": "3600" }"#).unwrap();
    let (tok, exp) = parse_dynamite_response(&body).unwrap();
    assert_eq!(tok, "t");
    assert_eq!(exp, 3600);
}

#[test]
fn parse_dynamite_response_missing_token() {
    assert!(parse_dynamite_response(&parse("{}").unwrap()).is_err());
}

#[test]
fn parse_single_complete_frame() {
    let mut parser = ChunkParser::new();
    // ["hello world"] = 15 UTF-16 code units (all ASCII)
    let content = r#"["hello world"]"#;
    let utf16_len = content.encode_utf16().count();
    let data = format!("{utf16_len}\n{content}");
    parser.feed(data.as_bytes());
    let chunk = parser.next_chunk().unwrap();
    assert_eq!(chunk.as_ref(), content.as_bytes());
    assert!(parser.next_chunk().is_none());
}

#[test]
fn parse_frame_split_across_feeds() {
    let mut parser = ChunkParser::new();
    // "5\nhello" split into two parts
    parser.feed(b"5\nhel");
    assert!(parser.next_chunk().is_none());
    parser.feed(b"lo");
    let chunk = parser.next_chunk().unwrap();
    assert_eq!(chunk.as_ref(), b"hello");
}

#[test]
fn parse_multiple_frames_in_one_feed() {
    let mut parser = ChunkParser::new();
    parser.feed(b"2\nab3\nxyz");

    let first = parser.next_chunk().unwrap();
    assert_eq!(first.as_ref(), b"ab");

    let second = parser.next_chunk().unwrap();
    assert_eq!(second.as_ref(), b"xyz");

    assert!(parser.next_chunk().is_none());
}

#[test]
fn parse_frame_with_multibyte_utf8() {
    let mut parser = ChunkParser::new();
    // "é" is U+00E9: 2 bytes in UTF-8, 1 UTF-16 code unit
    // "aé" = 1 + 1 = 2 UTF-16 code units, 3 UTF-8 bytes
    let content = "aé";
    let utf16_len = content.encode_utf16().count();
    assert_eq!(utf16_len, 2);

    let frame = format!("{}\n{}", utf16_len, content);
    parser.feed(frame.as_bytes());

    let chunk = parser.next_chunk().unwrap();
    assert_eq!(std::str::from_utf8(&chunk).unwrap(), content);
}

#[test]
fn parse_frame_with_surrogate_pairs() {
    let mut parser = ChunkParser::new();
    // "😀" is U+1F600: 4 bytes in UTF-8, 2 UTF-16 code units (surrogate pair)
    // "a😀b" = 1 + 2 + 1 = 4 UTF-16 code units
    let content = "a😀b";
    let utf16_len = content.encode_utf16().count();
    assert_eq!(utf16_len, 4);

    let frame = format!("{}\n{}", utf16_len, content);
    parser.feed(frame.as_bytes());

    let chunk = parser.next_chunk().unwrap();
    assert_eq!(std::str::from_utf8(&chunk).unwrap(), content);
}

#[test]
fn incomplete_frame_returns_none() {
    let mut parser = ChunkParser::new();
    // Declare 10 UTF-16 units but only provide 3 bytes of content
    let data = b"10\nabc";
    parser.feed(data);
    assert!(parser.next_chunk().is_none());
    assert_eq!(parser.buffered(), data.len()); // all data preserved
}

#[test]
fn incomplete_length_line_returns_none() {
    let mut parser = ChunkParser::new();
    parser.feed(b"123"); // No newline yet
    assert!(parser.next_chunk().is_none());
}

#[test]
fn empty_feed_returns_none() {
    let mut parser = ChunkParser::new();
    parser.feed(b"");
    assert!(parser.next_chunk().is_none());
}

#[test]
fn parse_preserves_remaining_bytes() {
    let mut parser = ChunkParser::new();
    // Two frames, second incomplete
    parser.feed(b"2\nok5\nhe");

    let first = parser.next_chunk().unwrap();
    assert_eq!(first.as_ref(), b"ok");

    // Second frame incomplete
    assert!(parser.next_chunk().is_none());

    // Complete the second frame
    parser.feed(b"llo");
    let second = parser.next_chunk().unwrap();
    assert_eq!(second.as_ref(), b"hello");
}

#[test]
fn utf16_units_to_utf8_bytes_ascii() {
    let data = b"hello";
    assert_eq!(utf16_units_to_utf8_bytes(data, 5), Some(5));
}

#[test]
fn utf16_units_to_utf8_bytes_bmp() {
    // "café" = c(1) a(1) f(1) é(1) = 4 UTF-16 units, but 5 UTF-8 bytes
    let data = "café".as_bytes();
    assert_eq!(utf16_units_to_utf8_bytes(data, 4), Some(5));
}

#[test]
fn utf16_units_to_utf8_bytes_supplementary() {
    // "😀" = 2 UTF-16 units, 4 UTF-8 bytes
    let data = "😀".as_bytes();
    assert_eq!(utf16_units_to_utf8_bytes(data, 2), Some(4));
}

#[test]
fn utf16_units_to_utf8_bytes_insufficient_data() {
    let data = b"ab";
    assert_eq!(utf16_units_to_utf8_bytes(data, 5), None);
}

#[test]
fn derive_aes_key_produces_16_bytes() {
    let key = derive_aes_key(b"test_password");
    assert_eq!(key.len(), 16);
}

#[test]
fn derive_aes_key_matches_python() {
    // Verified against Python: hashlib.pbkdf2_hmac('sha1', b'svT3SvCAAiRbU7nlqBCGUg==', b'saltysalt', 1003, 16)
    let key = derive_aes_key(b"svT3SvCAAiRbU7nlqBCGUg==");
    assert_eq!(
        key.iter().map(|b| format!("{b:02x}")).collect::<String>(),
        "3497a799e94fdfb956fbade452f7c8f2"
    );
}

#[test]
fn sapisidhash_format() {
    let hash = compute_sapisidhash("abc123", "https://chat.google.com", 1_700_000_000);
    assert!(hash.starts_with("SAPISIDHASH "));
    let parts: Vec<&str> = hash.split(' ').collect();
    assert_eq!(parts.len(), 2);
    assert!(parts[1].contains('_'));
}


#[test]
fn extract_xsrf_from_html_works() {
    let html = r#"window.WIZ_global_data={"SMqcke":"ALOzU4Rxyz123:1234567890","other":"x"}"#;
    let token = extract_xsrf_from_html(html);
    assert_eq!(token, Some("ALOzU4Rxyz123:1234567890".to_string()));
}

#[test]
fn extract_xsrf_empty_returns_none() {
    let html = r#"{"SMqcke":"","other":"x"}"#;
    assert!(extract_xsrf_from_html(html).is_none());
}

#[test]
fn clean_strips_unread_prefix() {
    assert_eq!(
        clean_space_name("Unread BI Layer Internal Team"),
        "BI Layer Internal Team"
    );
}

#[test]
fn clean_strips_pinned_suffix() {
    assert_eq!(
        clean_space_name("Unread Datahub Infrastructure Space Pinned conversations"),
        "Datahub Infrastructure Space"
    );
}

#[test]
fn clean_preserves_plain_name() {
    assert_eq!(clean_space_name("general"), "general");
}

#[test]
fn clean_handles_empty() {
    assert_eq!(clean_space_name(""), "");
}

#[test]
fn parse_sid_from_register_valid() {
    let body = r#"57
[[0,["c","SESSION_ID_ABC","",8,12,0,null,null,null,null,null,2]]]"#;
    let sid = parse_sid_from_register(body).unwrap();
    assert_eq!(sid, "SESSION_ID_ABC");
}

#[test]
fn parse_sid_from_register_missing() {
    assert!(parse_sid_from_register("invalid").is_err());
}

#[test]
fn parse_xsrf_token_from_html() {
    let body = r#"{"SMqcke":"xsrf_12345","other":"x"}"#;
    assert_eq!(parse_xsrf_token(body).unwrap(), "xsrf_12345");
}

#[test]
fn parse_xsrf_token_missing() {
    assert!(parse_xsrf_token("no token").is_err());
}

#[test]
fn random_zx_is_12_hex() {
    let zx = Session::random_zx(0x1234_5678_9abc_def0);
    assert_eq!(zx.len(), 12);
    assert!(zx.chars().all(|c| c.is_ascii_hexdigit()));
}

#[test]
fn random_zx_is_unique() {
    let a = Session::random_zx(1);
    let b = Session::random_zx(2);
    assert_ne!(a, b);
}

#[test]
fn parse_sid_from_register_with_prefix_bytes() {
    // Real responses often have a byte count prefix before the JSON
    let body = "123\n[[0,[\"c\",\"REAL_SID_123\",\"\",8]]]";
    let sid = parse_sid_from_register(body).unwrap();
    assert_eq!(sid, "REAL_SID_123");
}

#[test]
fn parse_sid_from_register_empty_json_fails() {
    assert!(parse_sid_from_register("[]").is_err());
}

#[test]
fn parse_sid_from_register_null_sid_fails() {
    let body = "[[0,[\"c\",null]]]";
    assert!(parse_sid_from_register(body).is_err());
}

#[test]
fn parse_xsrf_token_extracts_from_middle() {
    let body = r#"some stuff before "SMqcke":"LONG_TOKEN_VALUE_HERE" and after"#;
    assert_eq!(parse_xsrf_token(body).unwrap(), "LONG_TOKEN_VALUE_HERE");
}

#[test]
fn session_new_initializes_counters() {
    let xsrf_token: Option<String> = Some("test_xsrf".into());
    let mut session = Session::new(xsrf_token);
    assert!(session.sid.is_none());
    assert_eq!(session.aid, 0);
    assert_eq!(session.xsrf_token, Some("test_xsrf".into()));
    assert_eq!(session.next_rid(), 1);
    assert_eq!(session.next_rid(), 2);
    assert_eq!(session.next_api_counter(), 1);
    assert_eq!(session.next_api_counter(), 2);
}

#[test]
fn session_ensure_fresh_is_ok() {
    let xsrf_token: Option<String> = None;
    let mut session = Session::new(xsrf_token);
    assert!(session.ensure_fresh().is_ok());
}

#[test]
fn session_read_config_without_sid() {
    let xsrf_token: Option<String> = Some("xsrf_abc".into());
    let session = Session::new(xsrf_token);
    let config = session.read_config();
    assert!(config.sid.is_empty());
    assert_eq!(config.xsrf_token, "xsrf_abc");
}

#[test]
fn uuid_shape_is_8_4_4_4_12_hex() {
    let id = generate_uuid(1_700_000_000_123_456_789, 1);
    let parts: Vec<&str> = id.split('-').collect();
    assert_eq!(parts.len(), 5);
    assert_eq!(parts[0].len(), 8);
    assert_eq!(parts[1].len(), 4);
    assert_eq!(parts[2].len(), 4);
    assert_eq!(parts[3].len(), 4);
    assert_eq!(parts[4].len(), 12);
    assert!(id.chars().all(|c| c == '-' || c.is_ascii_hexdigit()));
}

#[test]
fn uuid_is_unique_across_calls() {
    let a = generate_uuid(1_700_000_000_123_456_789, 1);
    let b = generate_uuid(1_700_000_000_123_456_789, 2);
    assert_ne!(a, b);
}

#[test]
fn parse_search_response_extracts_hits() {
    // Synthetic minimal SBNmJb payload — captured shape with two hits.
    let payload = r#"["TOKEN",20,null,"REQ-UUID",[
        [["space/AAAAPptFat4","AAAAPptFat4",2],null,"BI Layer Internal Team"],
        [["space/AAAA2kPVvto","AAAA2kPVvto",2],null,"D&A Community"],
        [["space/AAQAF0fV-io","AAQAF0fV-io",1],null,""]
    ]]"#;
    let r = parse_search_response(payload).expect("parse ok");
    assert_eq!(r.hits.len(), 3);
    assert_eq!(r.hits[0].space_id, "AAAAPptFat4");
    assert_eq!(r.hits[0].name, "BI Layer Internal Team");
    assert_eq!(r.hits[0].kind, 2);
    assert_eq!(r.hits[2].kind, 1);
    assert_eq!(r.continuation.as_deref(), Some("TOKEN"));
}

#[test]
fn parse_search_response_handles_empty_hits() {
    let payload = r#"[null,20,null,"REQ-UUID",[]]"#;
    let r = parse_search_response(payload).expect("parse ok");
    assert!(r.hits.is_empty());
    assert!(r.continuation.is_none());
}

#[test]
fn parse_search_response_skips_malformed_hits() {
    let payload = r#"[null,20,null,"REQ-UUID",[
        [["space/OK","OK",2],null,"Good"],
        "garbage",
        null,
        [["space/OK2","OK2",2],null,"Good2"]
    ]]"#;
    let r = parse_search_response(payload).expect("parse ok");
    assert_eq!(r.hits.len(), 2);
    assert_eq!(r.hits[0].space_id, "OK");
    assert_eq!(r.hits[1].space_id, "OK2");
}

#[test]
fn parse_search_response_rejects_non_array() {
    assert!(parse_search_response("\"not an array\"").is_err());
}

#[test]
fn build_search_in_space_payload_embeds_space_id_in_both_slots() {
    let p = build_search_in_space_payload("hello", "AAAA2kPVvto", 2, "uuid");
    let s = print(&p);
    // The space ID must appear in:
    //   - the path-prefixed group triple at field 6[0][1]
    //   - the bare-id filter array at field 6[7]
    assert!(s.contains("\"space/AAAA2kPVvto\""));
    assert!(s.contains("\"AAAA2kPVvto\""));
    // The page-size marker for in-space search.
    assert!(s.ends_with(",[3],[257]]"));
    // And the global empty-filter slot must NOT remain.
    assert!(!s.contains("[[],null,null,null"));
}

#[test]
fn parse_message_hit_extracts_topic_text_author_timestamp() {
    // Structure: outer = [hit_data, kind]; hit_data has positional fields.
    let hit_json = parse(r#"[
        [
            null,
            "",
            ["space/X", "X", 2],
            null,
            [
                "AUTHOR_ID",
                "",
                "",
                "",
                null,
                null,
                null,
                1,
                null,
                ["AUTHOR_ID", "human/AUTHOR_ID", 0]
            ],
            "the message body",
            null,
            null,
            [], 
            [], 
            null,
            "1770071003269941", 
            null,
            null,
            null,
            true,
            1770071003269,
            ["TOPIC_ABC", null, ["TOPIC_ABC", null, []]]
        ],
        2
    ]"#).unwrap();
    let hit = parse_message_hit(&hit_json).expect("parse");
    assert_eq!(hit.topic_id, "TOPIC_ABC");
    assert_eq!(hit.author_id, "AUTHOR_ID");
    assert_eq!(hit.text, "the message body");
    assert_eq!(hit.timestamp_usec, 1770071003269941);
}

#[test]
fn group_into_threads_preserves_server_ranking_and_deduplicates() {
    let mk = |topic: &str, text: &str, ts: u64| MessageHit {
        topic_id: topic.into(),
        author_id: "A".into(),
        text: text.into(),
        timestamp_usec: ts,
    };
    let msgs = vec![
        mk("T1", "first hit", 10),
        mk("T2", "second", 20),
        mk("T1", "another in T1", 30),
        mk("T3", "third topic", 40),
        mk("T2", "more T2", 50),
    ];
    let threads = group_into_threads(msgs);
    assert_eq!(threads.len(), 3);
    assert_eq!(threads[0].topic_id, "T1");
    assert_eq!(threads[0].messages.len(), 2);
    assert_eq!(threads[1].topic_id, "T2");
    assert_eq!(threads[1].messages.len(), 2);
    assert_eq!(threads[2].topic_id, "T3");
    assert_eq!(threads[2].messages.len(), 1);
}

#[test]
fn top_threads_clamps_to_available() {
    let r = SearchResults {
        hits: vec![],
        threads: vec![
            ThreadHit {
                topic_id: "A".into(),
                messages: vec![],
            },
            ThreadHit {
                topic_id: "B".into(),
                messages: vec![],
            },
        ],
        continuation: None,
    };
    assert_eq!(r.top_threads(0).len(), 0);
    assert_eq!(r.top_threads(1).len(), 1);
    assert_eq!(r.top_threads(2).len(), 2);
    assert_eq!(r.top_threads(99).len(), 2); // clamped
}

#[test]
fn build_search_payload_uses_global_filter_slot() {
    let p = build_search_payload("hello", "uuid");
    let s = print(&p);
    assert!(s.contains("[[],null,null,null"));
    assert!(s.ends_with(",[3],[97]]"));
}
