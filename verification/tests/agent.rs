use std::sync::mpsc::{channel, Receiver, RecvTimeoutError};
use std::time::{Duration, Instant};

use tchat::agent::cli::parse_flags;
use tchat::agent::client::{checked_event, split_sse_frame, Client, ClientError};
use tchat::agent::events::{sse_keepalive, sse_step, sse_wait, EventFilter, Heard, SseStep};
use tchat::agent::json::{EventEnvelope, EventKind};
use tchat::agent::server::parse_query;
use tchat::percent::{url_decode, url_encode};

#[test]
fn parse_flags_handles_value_with_separate_arg() {
    let args: Vec<String> = vec!["--space".into(), "AAQA".into(), "hello".into()];
    let p = parse_flags(&args);
    assert_eq!(p.flags.get("space").map(String::as_str), Some("AAQA"));
    assert_eq!(p.positional, vec!["hello".to_string()]);
}

#[test]
fn parse_flags_handles_equals_form() {
    let args: Vec<String> = vec!["--top=3".into(), "query".into()];
    let p = parse_flags(&args);
    assert_eq!(p.flags.get("top").map(String::as_str), Some("3"));
    assert_eq!(p.positional, vec!["query".to_string()]);
}

#[test]
fn parse_flags_handles_boolean_flag_at_end() {
    let args: Vec<String> = vec!["--json".into()];
    let p = parse_flags(&args);
    assert!(p.flags.contains_key("json"));
    assert_eq!(p.flags.get("json").map(String::as_str), Some(""));
}

#[test]
fn parse_flags_collects_positional_after_flags() {
    let args: Vec<String> = vec![
        "--space".into(),
        "S".into(),
        "--top".into(),
        "5".into(),
        "the".into(),
        "query".into(),
        "text".into(),
    ];
    let p = parse_flags(&args);
    assert_eq!(p.positional, vec!["the", "query", "text"]);
}

#[test]
fn url_encode_preserves_unreserved() {
    assert_eq!(url_encode("hello"), "hello");
    assert_eq!(url_encode("a-b_c.d~e"), "a-b_c.d~e");
}

#[test]
fn url_encode_escapes_special() {
    assert_eq!(url_encode("hello world"), "hello%20world");
    assert_eq!(url_encode("a+b"), "a%2Bb");
}

/// The envelope that a frame of the stream holds, read as the program around the library
/// reads it.
fn parse_sse_frame(frame: &str) -> Option<Result<EventEnvelope, ClientError>> {
    let parts = split_sse_frame(frame)?;
    let value: serde_json::Value = match serde_json::from_str(&parts.data) {
        Ok(v) => v,
        Err(e) => return Some(Err(ClientError::EventStream(e.to_string()))),
    };
    let text = |name: &str| value.get(name).and_then(|v| v.as_str()).map(str::to_owned);
    let envelope = EventEnvelope {
        kind: EventKind::from_str(&text("kind").expect("kind")).expect("known kind"),
        space_id: text("space_id").expect("space"),
        topic_id: text("topic_id"),
        message_id: text("message_id"),
        author_id: text("author_id"),
        text: text("text"),
        timestamp_usec: value.get("timestamp_usec").and_then(|v| v.as_u64()),
    };
    Some(checked_event(&parts.event, envelope))
}

#[test]
fn client_strips_trailing_slash() {
    assert_eq!(Client::new("http://x:7/").base, "http://x:7");
    assert_eq!(Client::new("http://x:7").base, "http://x:7");
}

#[test]
fn parse_sse_frame_returns_envelope() {
    let frame = "event: message_posted\n\
                 data: {\"kind\":\"message_posted\",\"space_id\":\"S\",\"topic_id\":\"T\"}";
    let parsed = parse_sse_frame(frame).expect("frame").expect("ok");
    assert_eq!(parsed.kind, EventKind::MessagePosted);
    assert_eq!(parsed.space_id, "S");
    assert_eq!(parsed.topic_id.as_deref(), Some("T"));
}

#[test]
fn parse_sse_frame_skips_keepalive() {
    let frame = ": keepalive";
    assert!(parse_sse_frame(frame).is_none());
}

#[test]
fn parse_sse_frame_returns_err_on_bad_json() {
    let frame = "event: message_posted\ndata: not-json";
    let r = parse_sse_frame(frame).expect("frame");
    assert!(matches!(r, Err(ClientError::EventStream(_))));
}

#[test]
fn parse_sse_frame_detects_kind_mismatch() {
    let frame = "event: message_posted\n\
                 data: {\"kind\":\"message_edited\",\"space_id\":\"S\"}";
    let r = parse_sse_frame(frame).expect("frame");
    assert!(matches!(r, Err(ClientError::EventStream(_))));
}

#[test]
fn url_encode_matches_server_side() {
    assert_eq!(url_encode("hello world"), "hello%20world");
    assert_eq!(url_encode("HTTP_PROXY"), "HTTP_PROXY");
    assert_eq!(url_encode("a&b=c"), "a%26b%3Dc");
}

fn env_msg(space: &str, topic: &str) -> EventEnvelope {
    EventEnvelope {
        kind: EventKind::MessagePosted,
        space_id: space.into(),
        topic_id: Some(topic.into()),
        message_id: Some("M".into()),
        author_id: Some("U".into()),
        text: Some("body".into()),
        timestamp_usec: Some(1),
    }
}

#[test]
fn filter_matches_when_empty() {
    let f = EventFilter::default();
    assert!(f.matches(&env_msg("S", "T")));
}

#[test]
fn filter_rejects_wrong_space() {
    let f = EventFilter {
        space_id: Some("OTHER".into()),
        ..EventFilter::default()
    };
    assert!(!f.matches(&env_msg("S", "T")));
}

#[test]
fn filter_rejects_wrong_topic() {
    let f = EventFilter {
        topic_id: Some("OTHER".into()),
        ..EventFilter::default()
    };
    assert!(!f.matches(&env_msg("S", "T")));
}

#[test]
fn filter_kinds_includes() {
    let f = EventFilter {
        kinds: vec![EventKind::MessagePosted],
        ..EventFilter::default()
    };
    assert!(f.matches(&env_msg("S", "T")));
    let f2 = EventFilter {
        kinds: vec![EventKind::MessageEdited],
        ..EventFilter::default()
    };
    assert!(!f2.matches(&env_msg("S", "T")));
}

/// What a listener with a filter is sent of the events that wait for it.
fn drive_sse(rx: Receiver<EventEnvelope>, filter: EventFilter, deadline: Instant) -> String {
    let mut out = String::new();
    loop {
        let left = deadline.saturating_duration_since(Instant::now());
        let Some(wait) = sse_wait(Some(left.as_nanos() as u64)) else {
            return out;
        };
        let heard = match rx.recv_timeout(Duration::from_nanos(wait)) {
            Ok(envelope) => Heard::Event {
                json: format!("{{\"kind\":\"{}\"}}", envelope.kind.as_str()),
                envelope,
            },
            Err(RecvTimeoutError::Timeout) => Heard::Silence,
            Err(RecvTimeoutError::Disconnected) => Heard::Gone,
        };
        match sse_step(&filter, &heard) {
            SseStep::Write(text) => out.push_str(&text),
            SseStep::Pass => {}
            SseStep::Stop => return out,
        }
    }
}

#[test]
fn drive_sse_writes_event_then_keepalive() {
    let (bus, rx) = channel();
    bus.send(env_msg("S", "T")).unwrap();
    let deadline = Instant::now() + Duration::from_millis(50);
    // Drop the sender so that the listener ends when all is read.
    drop(bus);
    let s = drive_sse(rx, EventFilter::default(), deadline);
    assert!(s.contains("event: message_posted"));
    assert!(s.contains("\"kind\":\"message_posted\""));
}

#[test]
fn drive_sse_filter_excludes_mismatched() {
    let (bus, rx) = channel();
    bus.send(env_msg("OTHER", "T")).unwrap();
    let f = EventFilter {
        space_id: Some("S".into()),
        ..Default::default()
    };
    let deadline = Instant::now() + Duration::from_millis(20);
    drop(bus);
    let s = drive_sse(rx, f, deadline);
    assert!(!s.contains("event: message_posted"));
}

#[test]
fn a_silent_stream_is_kept_open() {
    let (bus, rx) = channel::<EventEnvelope>();
    let deadline = Instant::now() + Duration::from_millis(20);
    let s = drive_sse(rx, EventFilter::default(), deadline);
    assert!(s.starts_with(&sse_keepalive()));
    drop(bus);
}

#[test]
fn event_kind_as_str_round_trips_via_from_str() {
    for k in [
        EventKind::MessagePosted,
        EventKind::MessageEdited,
        EventKind::MessageDeleted,
        EventKind::ReactionUpdated,
        EventKind::TypingStarted,
        EventKind::TypingStopped,
        EventKind::SpaceUpdated,
        EventKind::PresenceChanged,
        EventKind::MembershipChanged,
        EventKind::ReadStateUpdated,
    ] {
        assert_eq!(EventKind::from_str(k.as_str()), Some(k));
    }
    assert_eq!(EventKind::from_str("nonexistent"), None);
}

#[test]
fn parse_query_extracts_pairs() {
    let q = parse_query("q=hello&top=2");
    assert_eq!(q.get("q").map(String::as_str), Some("hello"));
    assert_eq!(q.get("top").map(String::as_str), Some("2"));
}

#[test]
fn parse_query_url_decodes() {
    let q = parse_query("q=hello%20world&kinds=message_posted%2Cmessage_edited");
    assert_eq!(q.get("q").map(String::as_str), Some("hello world"));
    assert_eq!(
        q.get("kinds").map(String::as_str),
        Some("message_posted,message_edited")
    );
}

#[test]
fn parse_query_handles_plus_as_space() {
    let q = parse_query("q=hi+there");
    assert_eq!(q.get("q").map(String::as_str), Some("hi there"));
}

#[test]
fn parse_query_handles_empty_value() {
    let q = parse_query("flag=&q=ok");
    assert_eq!(q.get("flag").map(String::as_str), Some(""));
    assert_eq!(q.get("q").map(String::as_str), Some("ok"));
}

#[test]
fn parse_query_handles_no_value() {
    let q = parse_query("flag&q=ok");
    assert_eq!(q.get("flag").map(String::as_str), Some(""));
    assert_eq!(q.get("q").map(String::as_str), Some("ok"));
}

#[test]
fn parse_query_empty_returns_empty_map() {
    let q = parse_query("");
    assert!(q.is_empty());
}

#[test]
fn url_decode_handles_malformed_percent() {
    assert_eq!(url_decode("a%2"), "a%2");
    assert_eq!(url_decode("%XX"), "%XX");
}
