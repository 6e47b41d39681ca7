use tchat::agent::api::{
    answer_reply, answer_request, group_id_for, health, list_spaces, question_reply,
    question_request, search_reply, search_text, self_user_id, tell_results,
};
use tchat::agent::cli::{
    ask_endpoint, call_error, cli_err, daemon_url, dispatch, parse_flags, reply_endpoint,
    reply_error, require_flag, search_endpoint, Command,
};
use tchat::agent::client::{Client, ClientError, EventStream};
use tchat::agent::events::{
    envelope_from_inbound, sse_event, sse_keepalive, sse_step, sse_wait, EventFilter, Heard,
    SseStep, HEARTBEAT,
};
use tchat::agent::json::{EventEnvelope, EventKind, SpaceKind};
use tchat::agent::server::{
    ask_key, bad_request, error_reply, event_filter, not_found, reply_fault, reply_key, route,
    search_params, top_of, Answers, Route,
};
use tchat::error::{ApiError, AppError, AuthError, ConfigError};
use tchat::event::InboundEvent;
use tchat::googlechat::proto;
use tchat::googlechat::search::{MessageHit, SearchResults, ThreadHit};
use tchat::json::{parse, print};
use tchat::types::{
    IdInterner, Message, MessageId, MessageType, PlatformId, SpaceId, Timestamp, UserId,
};

fn words(v: &[&str]) -> Vec<String> {
    v.iter().map(|s| (*s).to_owned()).collect()
}

fn shown(e: AppError) -> String {
    match e {
        AppError::Auth(AuthError::Http(m)) => m,
        other => panic!("unexpected: {other:?}"),
    }
}

// ── command lines ──

#[test]
fn command_lines() {
    assert!(matches!(dispatch(&[]), Ok(Command::Tui)));
    assert!(matches!(dispatch(&words(&["--verbose"])), Ok(Command::Tui)));
    assert!(matches!(dispatch(&words(&["-h"])), Ok(Command::Help)));
    assert!(matches!(dispatch(&words(&["spaces"])), Ok(Command::Spaces)));
    assert!(matches!(dispatch(&words(&["health"])), Ok(Command::Health)));
    assert!(matches!(
        dispatch(&words(&["serve"])),
        Ok(Command::Serve { addr }) if addr == "127.0.0.1:7800"
    ));
    assert!(matches!(
        dispatch(&words(&["serve", "--port", "99999", "--bind", "::1"])),
        Ok(Command::Serve { addr }) if addr == "::1:7800"
    ));
    assert!(matches!(
        dispatch(&words(&["serve", "--port=80"])),
        Ok(Command::Serve { addr }) if addr == "127.0.0.1:80"
    ));
}

#[test]
fn questions_on_the_command_line() {
    match dispatch(&words(&["ask", "--space", "S", "--json=1", "how", "come?"])) {
        Ok(Command::Ask { space, text, key, json }) => {
            assert_eq!((space.as_str(), text.as_str()), ("S", "how come?"));
            assert_eq!((key, json), (None, true));
        }
        other => panic!("unexpected: {other:?}"),
    }
    assert_eq!(
        shown(dispatch(&words(&["ask", "x"])).unwrap_err()),
        "missing required flag --space"
    );
    assert_eq!(
        shown(dispatch(&words(&["ask", "--space", "S"])).unwrap_err()),
        "missing question text (positional argument)"
    );
    assert!(matches!(
        dispatch(&words(&["search", "--space", "S", "--top", "5", "q"])),
        Ok(Command::Search { top: 5, .. })
    ));
    assert_eq!(
        shown(dispatch(&words(&["search", "--space", "S"])).unwrap_err()),
        "missing query text (positional argument)"
    );
    assert_eq!(
        shown(dispatch(&words(&["reply", "--space", "S", "x"])).unwrap_err()),
        "missing required flag --topic"
    );
    assert!(matches!(
        dispatch(&words(&["reply", "--space", "S", "--topic", "T", "--idempotency-key", "k", "x"])),
        Ok(Command::Reply { key: Some(k), json: false, .. }) if k == "k"
    ));
}

#[test]
fn flags_that_must_be_there() {
    let parsed = parse_flags(&words(&["--space", "S", "--empty="]));
    assert_eq!(require_flag(&parsed, "space").unwrap(), "S");
    assert_eq!(shown(require_flag(&parsed, "empty").unwrap_err()), "missing required flag --empty");
    assert_eq!(shown(cli_err("m")), "m");
    assert_eq!(shown(call_error("GET", "/v1/x", "down")), "HTTP GET /v1/x: down");
    assert_eq!(
        shown(reply_error(&"a".repeat(300), "bad")),
        format!("parse JSON ({}…): bad", "a".repeat(200))
    );
}

// ── addresses and routes ──

#[test]
fn addresses_of_the_daemon() {
    assert_eq!(daemon_url("/v1/health"), "http://127.0.0.1:7800/v1/health");
    assert_eq!(ask_endpoint("S"), "/v1/spaces/S/questions");
    assert_eq!(search_endpoint("S", "a b", 3), "/v1/spaces/S/threads/search?q=a%20b&top=3");
    assert_eq!(reply_endpoint("T"), "/v1/threads/T/reply");
    let c = Client::new("http://h:1/");
    assert_eq!(c.health(), "http://h:1/v1/health");
    assert_eq!(c.list_spaces(), "http://h:1/v1/spaces");
    let (url, body) = c.ask("S", "why?", &Some("k".to_owned()));
    assert_eq!(url, "http://h:1/v1/spaces/S/questions");
    assert_eq!((body.text.as_str(), body.idempotency_key.as_deref()), ("why?", Some("k")));
    let (url, body) = c.reply("S", "T", "so", &None);
    assert_eq!(url, "http://h:1/v1/threads/T/reply");
    assert_eq!((body.space_id.as_str(), body.text.as_str()), ("S", "so"));
    assert_eq!(c.search("S", "a&b", 2), "http://h:1/v1/spaces/S/threads/search?q=a%26b&top=2");
}

#[test]
fn routes() {
    assert!(matches!(route("GET", "/v1/health"), Route::Health));
    assert!(matches!(route("GET", "//v1/spaces?x=1"), Route::Spaces));
    assert!(matches!(
        route("POST", &ask_endpoint("S")),
        Route::Ask { space_id } if space_id == "S"
    ));
    assert!(matches!(
        route("POST", &reply_endpoint("T")),
        Route::Reply { topic_id } if topic_id == "T"
    ));
    assert!(matches!(
        route("GET", "/v1/events?kinds=x"),
        Route::Events { query } if query == "kinds=x"
    ));
    assert!(matches!(
        route("DELETE", "/v1/health"),
        Route::NotFound { detail } if detail == "no route for DELETE /v1/health"
    ));
}

#[test]
fn a_search_is_understood() {
    match route("GET", &search_endpoint("S", "a&b=c d", 7)) {
        Route::Search { space_id, query } => {
            assert_eq!(space_id, "S");
            assert_eq!(search_params(&query).unwrap(), ("a&b=c d".to_owned(), 7));
        }
        other => panic!("unexpected: {other:?}"),
    }
    assert_eq!(search_params("top=3").unwrap_err(), "missing required query param `q`");
    assert_eq!(search_params("q=x").unwrap(), ("x".to_owned(), 2));
    assert_eq!(top_of(Some("x".to_owned())), 2);
}

#[test]
fn a_filter_is_understood() {
    let filter = EventFilter {
        space_id: Some("S 1".to_owned()),
        topic_id: None,
        kinds: vec![EventKind::MessagePosted, EventKind::MessageEdited],
    };
    let url = Client::new("").events(&filter);
    let query = url.split_once('?').unwrap().1;
    let back = event_filter(query);
    assert_eq!(back.space_id, filter.space_id);
    assert_eq!(back.topic_id, None);
    assert_eq!(back.kinds, filter.kinds);
    assert!(event_filter("kinds=nothing,such").kinds.is_empty());
}

// ── answers ──

#[test]
fn errors_are_answered() {
    let status = |e: AppError| {
        let (code, body) = error_reply(&e);
        assert_eq!(body.detail, Some(e.message()));
        (code, body.error)
    };
    let fetch = |m: &str| AppError::Auth(AuthError::SessionFetch(m.to_owned()));
    assert_eq!(status(fetch("HTTP 401")), (503, "auth_expired".to_owned()));
    assert_eq!(status(fetch("Cookies may be expired")), (503, "auth_expired".to_owned()));
    assert_eq!(status(fetch("x")), (503, "auth_error".to_owned()));
    assert_eq!(
        status(AppError::Auth(AuthError::MissingField("SID"))),
        (503, "auth_error".to_owned())
    );
    assert_eq!(status(AppError::Api(ApiError::AuthExpired)), (502, "upstream_error".to_owned()));
    assert_eq!(
        status(AppError::Config(ConfigError::MissingField { field: "x" })),
        (500, "config_error".to_owned())
    );
    assert_eq!(status(AppError::Terminal("x".to_owned())), (500, "io_error".to_owned()));
    assert_eq!(status(AppError::AllDisconnected), (503, "disconnected".to_owned()));
    assert_eq!(bad_request("d".to_owned()).error, "bad_request");
    assert_eq!(not_found("d".to_owned()).detail, Some("d".to_owned()));
}

#[test]
fn a_request_with_a_key_is_carried_out_once() {
    let mut kept = Answers::new();
    let name = Some(ask_key("S", "k"));
    assert_eq!(ask_key("S", "k"), "ask:S:k");
    assert_eq!(reply_key("S", "k"), "reply:S:k");
    assert_eq!(kept.again(&name), None);
    kept.done(name.clone(), &"first".to_owned());
    assert_eq!(kept.again(&name), Some((201, "first".to_owned())));
    kept.done(Some(reply_key("S", "k")), &"other".to_owned());
    assert_eq!(kept.again(&name), Some((201, "first".to_owned())));
    kept.done(None, &"unkept".to_owned());
    assert_eq!(kept.again(&None), None);
    kept.keep("x".to_owned(), 200, "y".to_owned());
    assert_eq!(kept.find("x"), Some((200, "y".to_owned())));
}

// ── what the daemon does ──

#[test]
fn spaces_are_told_of() {
    let item = |g: proto::GroupId, name: Option<&str>| proto::WorldItemLite {
        group_id: Some(g),
        room_name: name.map(|s| s.to_owned()),
        sort_timestamp: None,
    };
    let resp = proto::PaginatedWorldResponse {
        world_section_responses: vec![],
        world_items: vec![
            item(group_id_for("A"), Some("Room")),
            item(group_id_for("dm/B"), None),
            item(group_id_for(""), None),
        ],
    };
    let spaces = list_spaces(&resp);
    let told: Vec<_> =
        spaces.iter().map(|s| (s.id.as_str(), s.name.as_str(), s.kind)).collect();
    assert_eq!(
        told,
        vec![("A", "Room", SpaceKind::Room), ("B", "B", SpaceKind::DirectMessage)]
    );
}

#[test]
fn messages_are_posted() {
    let q = question_request("dm/B", "why?", &Some("k".to_owned()), 1, 2);
    assert_eq!(q.text_body, Some("why?".to_owned()));
    assert!(q.local_id.as_ref().unwrap().ends_with('k'));
    let topic = q.parent_id.unwrap().topic_id.unwrap();
    assert_eq!(topic.topic_id, None);
    assert_eq!(topic.group_id.unwrap().dm_id.unwrap().dm_id, Some("B".to_owned()));
    let a = answer_request("S", "T", "so", &None, 12, 34);
    assert!(a.local_id.as_ref().unwrap().ends_with("12-34"));
    assert_eq!(a.parent_id.unwrap().topic_id.unwrap().topic_id, Some("T".to_owned()));
}

#[test]
fn posted_messages_are_told_of() {
    let resp = |topic: Option<&str>| proto::CreateMessageResponse {
        message: Some(proto::Message {
            id: Some(proto::MessageId {
                parent_id: topic.map(|t| proto::MessageParentId {
                    topic_id: Some(proto::TopicId {
                        group_id: None,
                        topic_id: Some(t.to_owned()),
                    }),
                }),
                message_id: Some("M".to_owned()),
            }),
            ..Default::default()
        }),
    };
    let r = question_reply(&resp(Some("T")), "S").unwrap();
    assert_eq!((r.topic_id.as_str(), r.message_id.as_str(), r.space_id.as_str()), ("T", "M", "S"));
    assert_eq!(question_reply(&resp(None), "S").unwrap().topic_id, "M");
    assert!(question_reply(&proto::CreateMessageResponse::default(), "S").is_err());
    assert_eq!(answer_reply(&resp(None)).message_id, "M");
    assert_eq!(answer_reply(&proto::CreateMessageResponse::default()).message_id, "");
}

#[test]
fn the_daemon_tells_of_itself() {
    let resp = proto::GetSelfUserStatusResponse {
        user_status: Some(proto::UserStatus {
            user_id: Some(proto::UserId { id: Some("me".to_owned()) }),
            dnd_settings: None,
        }),
    };
    assert_eq!(self_user_id(&resp), Some("me".to_owned()));
    let h = health(Some("me".to_owned()), 9);
    assert_eq!((h.status.as_str(), h.uptime_secs), ("ok", 9));
    assert_eq!(h.self_user_id, Some("me".to_owned()));
}

#[test]
fn searches_are_told_of() {
    let text = parse(&search_text("needle", "space/S", "U")).unwrap();
    assert!(print(&text).contains("needle"));
    let hit = |t: &str| ThreadHit {
        topic_id: t.to_owned(),
        messages: vec![MessageHit {
            topic_id: t.to_owned(),
            author_id: "a".to_owned(),
            text: "x".to_owned(),
            timestamp_usec: 5,
        }],
    };
    let results = SearchResults {
        hits: vec![],
        threads: vec![hit("T1"), hit("T2")],
        continuation: Some("more".to_owned()),
    };
    let told = tell_results(results, "q", 1);
    assert_eq!((told.query.as_str(), told.threads.len()), ("q", 1));
    assert_eq!(told.threads[0].topic_id, "T1");
    assert_eq!(told.threads[0].messages[0].timestamp_usec, 5);
    assert_eq!(told.continuation, Some("more".to_owned()));
}

#[test]
fn replies_to_searches_are_read() {
    let message = |r: Result<_, AppError>| match r {
        Err(AppError::Api(ApiError::Http(m))) => m,
        Err(AppError::Auth(AuthError::SessionFetch(m))) => m,
        Err(other) => panic!("unexpected: {other:?}"),
        Ok(_) => panic!("not refused"),
    };
    assert!(message(search_reply("x", "q", 1)).starts_with("parse outer: "));
    assert_eq!(message(search_reply(r#"{"error":"gone"}"#, "q", 1)), "gone");
    assert_eq!(message(search_reply(r#"{"status":500}"#, "q", 1)), "batchexecute HTTP 500");
    let raw = r#"{"status":200,"body":")]}'\n[[\"wrb.fr\",\"SBNmJb\",\"[\\\"more\\\"]\"]]"}"#;
    let r = search_reply(raw, "q", 1).unwrap();
    assert_eq!(r.continuation, Some("more".to_owned()));
    assert!(r.threads.is_empty());
    let raw = r#"{"status":200,"body":")]}'\n[[\"wrb.fr\",\"SBNmJb\",\"7\"]]"}"#;
    assert_eq!(message(search_reply(raw, "q", 1)), "SBNmJb payload not array");
}

// ── the stream of events ──

#[test]
fn events_are_written_and_read() {
    assert_eq!(sse_keepalive(), ": keepalive\n\n");
    let written = sse_event(EventKind::MessagePosted, r#"{"a":1}"#);
    assert_eq!(
        written,
        format!("event: {}\ndata: {{\"a\":1}}\n\n", EventKind::MessagePosted.as_str())
    );
    let mut stream = EventStream::new();
    stream.feed(&sse_keepalive());
    stream.feed(&written[..9]);
    assert!(stream.next().is_none());
    stream.feed(&written[9..]);
    let frame = stream.next().unwrap();
    assert_eq!(frame.event.as_deref(), Some(EventKind::MessagePosted.as_str()));
    assert_eq!(frame.data, r#"{"a":1}"#);
    assert!(stream.next().is_none());
}

#[test]
fn a_listener_is_told_what_passes() {
    assert_eq!(sse_wait(None), Some(HEARTBEAT));
    assert_eq!(sse_wait(Some(u64::MAX)), Some(15_000_000_000));
    assert_eq!(sse_wait(Some(5)), Some(5));
    assert_eq!(sse_wait(Some(0)), None);
    let heard = Heard::Event {
        envelope: EventEnvelope {
            kind: EventKind::MessagePosted,
            space_id: "S".to_owned(),
            topic_id: None,
            message_id: None,
            author_id: None,
            text: None,
            timestamp_usec: None,
        },
        json: "{}".to_owned(),
    };
    let all = EventFilter::default();
    assert!(matches!(
        sse_step(&all, &heard),
        SseStep::Write(t) if t == sse_event(EventKind::MessagePosted, "{}")
    ));
    let other = EventFilter { space_id: Some("T".to_owned()), ..EventFilter::default() };
    assert!(matches!(sse_step(&other, &heard), SseStep::Pass));
    assert!(matches!(sse_step(&all, &Heard::Silence), SseStep::Write(t) if t == sse_keepalive()));
    assert!(matches!(sse_step(&all, &Heard::Gone), SseStep::Stop));
}

#[test]
fn a_reply_names_its_space() {
    assert_eq!(reply_fault("").as_deref(), Some("missing `space_id`"));
    assert_eq!(reply_fault("S"), None);
}

#[test]
fn messages_become_events_of_the_stream() {
    let mut pool = IdInterner::new();
    let message = Message {
        id: MessageId(pool.intern("M")),
        space_id: SpaceId { platform: PlatformId::GoogleChat, id: pool.intern("S") },
        sender: UserId { platform: PlatformId::GoogleChat, id: pool.intern("u") },
        timestamp: Timestamp(5),
        edit_timestamp: None,
        text: "hi".to_owned(),
        annotations: vec![],
        reactions: vec![],
        thread_id: None,
        message_type: MessageType::User,
        platform: PlatformId::GoogleChat,
    };
    let e = envelope_from_inbound(&InboundEvent::MessageEdited {
        message,
        space_id_raw: "S".to_owned(),
        topic_id_raw: Some("T".to_owned()),
        message_id_raw: "M".to_owned(),
    })
    .unwrap();
    assert_eq!(e.kind, EventKind::MessageEdited);
    assert_eq!((e.space_id.as_str(), e.topic_id.as_deref()), ("S", Some("T")));
    assert_eq!((e.text.as_deref(), e.timestamp_usec), (Some("hi"), Some(5)));
    let connected = InboundEvent::Connected { platform: PlatformId::GoogleChat };
    assert!(envelope_from_inbound(&connected).is_none());
}

#[test]
fn replies_of_the_daemon() {
    assert_eq!(Client::checked(201, "x".to_owned()).unwrap(), "x");
    match Client::checked(404, "no".to_owned()) {
        Err(e @ ClientError::Status { status: 404, .. }) => {
            assert_eq!(e.message(), "HTTP 404: no");
        }
        other => panic!("unexpected: {other:?}"),
    }
    assert_eq!(ClientError::Http("x".to_owned()).message(), "HTTP transport error: x");
}
