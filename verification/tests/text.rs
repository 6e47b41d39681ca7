use tchat::config::{credential_name, Config, PlatformKind};
use tchat::json::{copy_items, parse, parse_list, print, Json};
use tchat::percent::{hex_val, show_hex, url_decode, url_encode};
use tchat::platform::dispatch_command;
use tchat::text::{
    chars_of, copy_opt, cut, cut_bytes, find_str, is_white, join, join2, join3, occurs, parse_i64,
    parse_natural, parse_u32, parse_usize, position, quoted_after, show, show_wide, size_of,
    split_lines, split_once, split_whitespace, string_of, strip_prefix, strip_suffix,
    text_or_empty, trim, trim_chars, trim_copies, trim_end_matches, trim_start_matches, width_of,
};
use tchat::types::ids::PlatformId;
use tchat::types::timestamp::Timestamp;

// ── text ──

#[test]
fn white_characters() {
    for c in [' ', '\t', '\n', '\r', '\u{b}', '\u{c}', '\u{85}', '\u{a0}', '\u{2003}', '\u{3000}'] {
        assert!(is_white(c));
        assert_eq!(is_white(c), c.is_whitespace());
    }
    for c in ['a', '0', '_', '\u{200b}', '\u{feff}'] {
        assert!(!is_white(c));
        assert_eq!(is_white(c), c.is_whitespace());
    }
}

#[test]
fn characters_and_back() {
    let v = chars_of("naïve");
    assert_eq!(v, vec!['n', 'a', 'ï', 'v', 'e']);
    assert_eq!(string_of(&v, 1, 4), "aïv");
    assert_eq!(cut("naïve", 2, 3), "ï");
}

#[test]
fn joining() {
    assert_eq!(join2("a", "b"), "ab");
    assert_eq!(join3("a", "", "c"), "ac");
    let pieces = vec!["x".to_owned(), "y".to_owned(), "z".to_owned()];
    assert_eq!(join(&pieces, 3, ", "), "x, y, z");
    assert_eq!(join(&pieces, 1, ", "), "x");
    assert_eq!(join(&pieces, 0, ", "), "");
}

#[test]
fn finding() {
    let s = chars_of("abcabc");
    let p = chars_of("bc");
    assert!(occurs(&s, &p, 1));
    assert!(!occurs(&s, &p, 0));
    assert_eq!(position(&s, &p, 2), Some(4));
    assert_eq!(position(&s, &p, 5), None);
    assert_eq!(find_str("höhe he", "he"), Some(2));
    assert_eq!(find_str("abc", ""), Some(0));
    assert_eq!(find_str("abc", "d"), None);
}

#[test]
fn optional_texts() {
    assert_eq!(copy_opt(&Some("a".to_owned())), Some("a".to_owned()));
    assert_eq!(copy_opt(&None), None);
    assert_eq!(text_or_empty(&None), "");
    assert_eq!(text_or_empty(&Some("a".to_owned())), "a");
}

#[test]
fn prefixes_and_suffixes() {
    assert_eq!(strip_prefix("space/abc", "space/"), Some("abc".to_owned()));
    assert_eq!(strip_prefix("abc", "space/"), None);
    assert_eq!(strip_suffix("abc;", ";"), Some("abc".to_owned()));
    assert_eq!(strip_suffix("abc", ";"), None);
    assert_eq!(trim_copies("dm/dm/x", "dm/"), "x");
    assert_eq!(trim_end_matches("a;;", ';'), "a");
    assert_eq!(trim_start_matches("{{a", '{'), "a");
}

#[test]
fn widths_in_bytes() {
    assert_eq!(width_of('a'), 1);
    assert_eq!(width_of('é'), 2);
    assert_eq!(width_of('€'), 3);
    assert_eq!(width_of('😀'), 4);
    assert_eq!(size_of("aé€😀"), 10);
    assert_eq!(cut_bytes("aé€😀", 10), "aé€😀");
    assert_eq!(cut_bytes("aé€😀", 9), "aé€");
    assert_eq!(cut_bytes("aé€😀", 2), "a");
    assert_eq!(cut_bytes("aé€😀", 0), "");
}

#[test]
fn trimming() {
    assert_eq!(trim(" \t a b\u{a0}\n"), "a b");
    assert_eq!(trim("   "), "");
    assert_eq!(trim_chars(&chars_of("  x ")), (2, 3));
}

#[test]
fn splitting() {
    assert_eq!(split_once("a:b:c", ':'), Some(("a".to_owned(), "b:c".to_owned())));
    assert_eq!(split_once("abc", ':'), None);
    assert_eq!(split_whitespace(" a  b\nc "), vec!["a", "b", "c"]);
    assert_eq!(split_lines("a\r\nb\n\nc"), vec!["a", "b", "", "c"]);
    assert_eq!(split_lines("a\n"), vec!["a"]);
    assert!(split_lines("").is_empty());
}

#[test]
fn quoted_texts() {
    assert_eq!(quoted_after(r#"x "k":"v" y"#, r#""k":""#), Some("v".to_owned()));
    assert_eq!(quoted_after(r#"x "k":"v"#, r#""k":""#), None);
    assert_eq!(quoted_after("x", r#""k":""#), None);
}

#[test]
fn numbers() {
    assert_eq!(show(0), "0");
    assert_eq!(show(u64::MAX), "18446744073709551615");
    assert_eq!(show_wide(u128::MAX), "340282366920938463463374607431768211455");
    assert_eq!(parse_natural("+12", 12), Some(12));
    assert_eq!(parse_natural("13", 12), None);
    assert_eq!(parse_natural("", 12), None);
    assert_eq!(parse_u32("4294967295"), Some(u32::MAX));
    assert_eq!(parse_u32("4294967296"), None);
    assert_eq!(parse_u32("-1"), None);
    assert_eq!(parse_usize("007"), Some(7));
    assert_eq!(parse_usize("7a"), None);
    assert_eq!(parse_i64("-9223372036854775808"), Some(i64::MIN));
    assert_eq!(parse_i64("9223372036854775808"), None);
    assert_eq!(parse_i64("-"), None);
}

#[test]
fn a_shown_number_is_read_again() {
    for n in [0u64, 9, 10, 4294967296, u64::MAX] {
        assert_eq!(parse_natural(&show(n), u64::MAX), Some(n));
    }
}

// ── percent encoding ──

#[test]
fn hexadecimal_digits() {
    assert_eq!(show_hex(0xab, 2, true), "AB");
    assert_eq!(show_hex(0xab, 4, false), "00ab");
    assert_eq!(show_hex(0x1234, 2, false), "34");
    assert_eq!(hex_val(b'a'), Some(10));
    assert_eq!(hex_val(b'F'), Some(15));
    assert_eq!(hex_val(b'9'), Some(9));
    assert_eq!(hex_val(b'g'), None);
}

#[test]
fn an_encoded_text_is_read_again() {
    for s in ["", "abc", "a b&c=d", "100%", "~-_.", "a+b"] {
        let e = url_encode(s);
        assert!(!e.contains('&') && !e.contains(' ') && !e.contains('='));
        assert_eq!(url_decode(&e), s);
    }
}

// ── JSON ──

#[test]
fn values_are_parsed() {
    let j = parse(r#"{"a":[1,-2,true,null,"x"],"b":1.5}"#).unwrap();
    let a = j.member("a").unwrap();
    assert!(a.is_array());
    assert_eq!(a.item(0), Some(&Json::Pos(1)));
    assert_eq!(a.item(1), Some(&Json::Neg(-2)));
    assert_eq!(a.item(2), Some(&Json::Bool(true)));
    assert!(a.item(3).unwrap().is_null());
    assert_eq!(a.item(4).unwrap().as_str(), Some("x"));
    assert_eq!(a.item(5), None);
    assert_eq!(j.member("c"), None);
    assert!(matches!(j.member("b"), Some(Json::Float(_))));
    assert!(parse("[1").is_err());
}

#[test]
fn integers_are_read() {
    assert_eq!(Json::Pos(5).as_i64(), Some(5));
    assert_eq!(Json::Pos(u64::MAX).as_i64(), None);
    assert_eq!(Json::Neg(-5).as_i64(), Some(-5));
    assert_eq!(Json::Neg(-5).as_u64(), None);
    assert_eq!(Json::Text("5".to_owned()).as_i64(), None);
}

#[test]
fn lists_are_parsed_from_bytes() {
    let v = parse_list(br#"[[1],"a"]"#).unwrap();
    assert_eq!(v, vec![Json::Array(vec![Json::Pos(1)]), Json::Text("a".to_owned())]);
    assert!(parse_list(br#"{"a":1}"#).is_err());
    assert!(parse_list(&[0xff]).is_err());
}

#[test]
fn values_are_printed() {
    let j = Json::Array(vec![
        Json::Null,
        Json::Bool(false),
        Json::Pos(7),
        Json::Neg(-7),
        Json::Text("a\"b\n".to_owned()),
        Json::Array(vec![]),
    ]);
    assert_eq!(print(&j), r#"[null,false,7,-7,"a\"b\n",[]]"#);
    assert_eq!(parse(&print(&j)).unwrap(), j);
    assert_eq!(j.copy(), j);
}

#[test]
fn items_are_copied_from_a_place_on() {
    let v = vec![Json::Pos(1), Json::Pos(2), Json::Pos(3)];
    assert_eq!(copy_items(&v, 1), vec![Json::Pos(2), Json::Pos(3)]);
    assert!(copy_items(&v, 3).is_empty());
}

// ── configuration ──

#[test]
fn the_configuration_without_a_file() {
    let c = Config::default_config();
    assert_eq!(c.general.tick_rate_ms, 100);
    assert_eq!(c.general.default_layout, "standard");
    assert_eq!(c.general.log_level, "info");
    assert!(c.platforms.is_empty());
    assert!(c.theme.active_space_fg.is_none());
    assert_eq!(PlatformKind::Slack.id(), PlatformId::Slack);
    assert_eq!(PlatformKind::GoogleChat.id(), PlatformId::GoogleChat);
}

#[test]
fn names_of_credential_files() {
    assert_eq!(credential_name("google/chat:me@x.org"), "google_chat_me_x_org");
    assert_eq!(credential_name("a-b_c9"), "a-b_c9");
    assert_eq!(credential_name("../é"), "___é");
}

#[test]
fn a_command_goes_to_the_first_connection_of_its_service() {
    let channels = vec![PlatformId::Slack, PlatformId::GoogleChat, PlatformId::GoogleChat];
    assert_eq!(dispatch_command(&channels, PlatformId::GoogleChat), Some(1));
    assert_eq!(dispatch_command(&vec![PlatformId::Slack], PlatformId::GoogleChat), None);
}

#[test]
fn the_last_point_in_time() {
    assert_eq!(Timestamp::from_secs(u64::MAX), Timestamp::latest());
    assert_eq!(Timestamp::latest().as_millis(), u64::MAX / 1000);
}
