use tchat::event::{InboundEvent, OutboundCommand};
use tchat::googlechat::api::ApiRequest;
use tchat::googlechat::channel::{event_payload, process_chunk};
use tchat::googlechat::commands::{command_to_api_request, make_group_id, tests_make_header};
use tchat::googlechat::convert::{
    group_id_to_space_id, history_response_to_event, proto_message_to_message,
    world_response_to_event,
};
use tchat::googlechat::dispatch::{dispatch_body, uncovered_event_types, Uncovered};
use tchat::googlechat::proto;
use tchat::googlechat::schema::load_schema;
use tchat::googlechat::session::Session;
use tchat::json::{parse, Json};
use tchat::types::{Emoji, IdInterner, MessageId, PlatformId, SpaceId, Timestamp};

/// The payload that an array of the event channel carries.
fn parse_browserchannel_event(data: &Json) -> Option<Vec<u8>> {
    event_payload(data, &load_schema("")).map(|b| b.to_vec())
}

#[test]
fn parse_noop_event() {
    let data = parse(r#"["noop"]"#).unwrap();
    let result = parse_browserchannel_event(&data);
    assert!(result.is_none());
}

#[test]
fn parse_empty_array_event() {
    let data = parse(r#"[]"#).unwrap();
    let result = parse_browserchannel_event(&data);
    assert!(result.is_none());
}

#[test]
fn parse_null_event() {
    let result = parse_browserchannel_event(&Json::Null);
    assert!(result.is_none());
}

#[test]
fn process_chunk_extracts_array_ids() {
    let chunk =
        br#"[[1, ["noop"]], [2, ["noop"]]]"#.to_vec();

    let mut last_aid = 0u64;
    process_chunk(&chunk, &mut last_aid).unwrap();
    assert_eq!(last_aid, 2);
}

#[test]
fn process_chunk_malformed_returns_error() {
    let chunk = b"not json";
    let mut last_aid = 0u64;
    assert!(process_chunk(chunk, &mut last_aid).is_err());
}

#[test]
fn process_chunk_skips_short_arrays() {
    let chunk = br#"[[1], [2, ["noop"]]]"#.to_vec();

    let mut last_aid = 0u64;
    process_chunk(&chunk, &mut last_aid).unwrap();
    assert_eq!(last_aid, 2);
}

#[test]
fn process_chunk_updates_aid_monotonically() {
    let chunk = br#"[ [5, ["noop"]], [10, ["noop"]], [15, ["noop"]]]"#.to_vec();

    let mut last_aid = 0u64;
    process_chunk(&chunk, &mut last_aid).unwrap();
    assert_eq!(last_aid, 15);
}

#[test]
fn process_chunk_empty_array_is_ok() {
    let chunk = br#"[]"#.to_vec();
    let mut last_aid = 0u64;
    process_chunk(&chunk, &mut last_aid).unwrap();
    assert_eq!(last_aid, 0);
}

#[test]
fn parse_string_event_returns_none() {
    let data = parse(r#""just a string""#).unwrap();
    assert!(parse_browserchannel_event(&data).is_none());
}

#[test]
fn parse_number_event_returns_none() {
    let data = parse(r#"42"#).unwrap();
    assert!(parse_browserchannel_event(&data).is_none());
}

#[test]
fn parse_nested_noop_returns_none() {
    let data = parse(r#"["noop", "extra_data"]"#).unwrap();
    assert!(parse_browserchannel_event(&data).is_none());
}

#[test]
fn process_chunk_non_integer_aid_fails() {
    let chunk = br#"[["not_a_number", ["noop"]]]"#.to_vec();

    let mut last_aid = 0u64;
    assert!(process_chunk(&chunk, &mut last_aid).is_err());
}

/// A payload of the event channel, about a topic that was viewed.
const CAPTURED_MESSAGE_POSTED_PAYLOAD: &str = r#"[[[[["AAAA2kPVvto"]],null,null,null,["114193829005257704130"],["1777399199302573","1777399191400711"],null,[[null,null,null,[[null,"AV99MTL00Fg",[["AAAA2kPVvto"]]],"1777399031204721"],null,null,null,null,null,null,null,4]],[null,463544721,null,"1777399199348000",[4,10],1,762098494]],"187ba7d1-b5ee-4f59-80cc-5aa0d1cd1b0e"]]"#;

/// A payload whose event has fields that are not known is still put in the wire format.
#[test]
fn captured_frame_decodes_through_pipeline() {
    let data = parse(CAPTURED_MESSAGE_POSTED_PAYLOAD).unwrap();
    // Without field types the looks of the values decide.
    assert!(event_payload(&data, &load_schema("")).is_some());
}

/// A body in which nothing known is set is noted; one in which something known is set is not,
/// though nothing comes of it (a new topic without replies).
#[test]
fn uncovered_tracker_only_flags_unknown_fields() {
    let mut interner = IdInterner::new();
    let mut uncovered = Uncovered::new();

    // Nothing that is known is set
    let mut out = Vec::new();
    let body_unknown = proto::EventBody {
        event_type: Some(64), // GROUP_DEFAULT_SORT_ORDER_UPDATED
        ..Default::default()
    };
    dispatch_body(&body_unknown, &mut interner, &mut out, &mut uncovered);
    assert!(out.is_empty());
    assert!(uncovered_event_types(&uncovered).contains(&64));

    // A new topic without replies
    let mut out = Vec::new();
    let body_recognized = proto::EventBody {
        event_type: Some(20), // TOPIC_CREATED
        topic_created: Some(proto::TopicCreatedEvent {
            topic: Some(proto::Topic {
                replies: Vec::new(),
                ..Default::default()
            }),
            ..Default::default()
        }),
        ..Default::default()
    };
    dispatch_body(&body_recognized, &mut interner, &mut out, &mut uncovered);
    assert!(out.is_empty(), "empty replies → no dispatch (expected)");
    assert!(
        !uncovered_event_types(&uncovered).contains(&20),
        "recognized field with no payload should NOT be flagged uncovered"
    );
}

#[test]
fn process_chunk_mixed_valid_invalid_events() {
    let chunk = br#"[ [1, ["noop"]], [2, [1, 2, 3]], [3, ["noop"]]]"#.to_vec();

    let mut last_aid = 0u64;
    process_chunk(&chunk, &mut last_aid).unwrap();
    assert_eq!(last_aid, 3);
}

#[test]
fn group_id_to_space_id_with_space() {
    let mut interner = IdInterner::new();
    let gid = proto::GroupId {
        space_id: Some(proto::SpaceId {
            space_id: Some("spaces/abc123".into()),
        }),
        dm_id: None,
    };
    let sid = group_id_to_space_id(&gid, &mut interner);
    assert_eq!(sid.platform, PlatformId::GoogleChat);
    assert_eq!(interner.resolve(sid.id), Some("spaces/abc123"));
}

#[test]
fn group_id_to_space_id_with_dm() {
    let mut interner = IdInterner::new();
    let gid = proto::GroupId {
        space_id: None,
        dm_id: Some(proto::DmId {
            dm_id: Some("dm/xyz".into()),
        }),
    };
    let sid = group_id_to_space_id(&gid, &mut interner);
    assert_eq!(interner.resolve(sid.id), Some("dm/xyz"));
}

#[test]
fn command_to_api_request_set_typing() {
    let mut interner = IdInterner::new();
    let space_id = SpaceId {
        platform: PlatformId::GoogleChat,
        id: interner.intern("spaces/test"),
    };
    let cmd = OutboundCommand::SetTyping {
        space_id,
        typing: true,
    };
    let req = command_to_api_request(cmd, &interner, 7, 1000);
    assert!(matches!(req, Some(ApiRequest::SetTyping(_))));
}

#[test]
fn command_to_api_request_disconnect_returns_none() {
    let interner = IdInterner::new();
    let req = command_to_api_request(OutboundCommand::Disconnect, &interner, 7, 1000);
    assert!(req.is_none());
}

#[test]
fn make_request_header_sets_web_client() {
    let header = tests_make_header();
    assert_eq!(header.client_type, Some(3));
    assert_eq!(header.locale, Some("en".to_owned()));
}

#[test]
fn make_group_id_space() {
    let gid = make_group_id("spaces/abc");
    assert!(gid.space_id.is_some());
    assert!(gid.dm_id.is_none());
}

#[test]
fn make_group_id_dm() {
    let gid = make_group_id("dm/xyz");
    assert!(gid.dm_id.is_some());
    assert!(gid.space_id.is_none());
}

#[test]
fn command_to_api_request_send_message() {
    let mut interner = IdInterner::new();
    let space_id = SpaceId {
        platform: PlatformId::GoogleChat,
        id: interner.intern("spaces/test"),
    };
    let cmd = OutboundCommand::SendMessage {
        space_id,
        text: "hello world".to_owned(),
        thread_id: None,
    };
    let req = command_to_api_request(cmd, &interner, 7, 1000);
    match req {
        Some(ApiRequest::SendMessage(r)) => {
            assert_eq!(r.text_body, Some("hello world".into()));
            assert!(r.request_header.is_some());
        }
        _ => panic!("Expected correct variant"),
    }
}

#[test]
fn command_to_api_request_edit_message() {
    let mut interner = IdInterner::new();
    let space_id = SpaceId {
        platform: PlatformId::GoogleChat,
        id: interner.intern("spaces/test"),
    };
    let msg_id = MessageId(interner.intern("msg_123"));
    let cmd = OutboundCommand::EditMessage {
        space_id,
        message_id: msg_id,
        new_text: "edited text".to_owned(),
    };
    let req = command_to_api_request(cmd, &interner, 7, 1000);
    match req {
        Some(ApiRequest::EditMessage(r)) => {
            assert_eq!(r.text_body, Some("edited text".into()));
            assert!(r.message_id.is_some());
        }
        _ => panic!("Expected EditMessage"),
    }
}

#[test]
fn command_to_api_request_delete_message() {
    let mut interner = IdInterner::new();
    let space_id = SpaceId {
        platform: PlatformId::GoogleChat,
        id: interner.intern("spaces/test"),
    };
    let msg_id = MessageId(interner.intern("msg_456"));
    let cmd = OutboundCommand::DeleteMessage {
        space_id,
        message_id: msg_id,
    };
    let req = command_to_api_request(cmd, &interner, 7, 1000);
    match req {
        Some(ApiRequest::DeleteMessage(r)) => {
            let mid = r.message_id.unwrap();
            assert_eq!(mid.message_id, Some("msg_456".into()));
        }
        _ => panic!("Expected DeleteMessage"),
    }
}

#[test]
fn command_to_api_request_fetch_history() {
    let mut interner = IdInterner::new();
    let space_id = SpaceId {
        platform: PlatformId::GoogleChat,
        id: interner.intern("spaces/history"),
    };
    let cmd = OutboundCommand::FetchHistory {
        space_id,
        before: Timestamp(1000000),
        count: 50,
    };
    let req = command_to_api_request(cmd, &interner, 7, 1000);
    match req {
        Some(ApiRequest::ListTopics(r)) => {
            assert!(r.group_id.is_some());
            assert_eq!(r.page_size_for_topics, Some(50));
        }
        _ => panic!("Expected ListTopics"),
    }
}

#[test]
fn world_response_to_event_empty() {
        let mut session = Session::new(None);

    let resp = proto::PaginatedWorldResponse {
        world_section_responses: Vec::new(),
        world_items: Vec::new(),
    };
    let event = world_response_to_event(resp, &mut session.interner);
    match event {
        InboundEvent::WorldSync { spaces, .. } => {
            assert!(spaces.is_empty());
        }
        _ => panic!("Expected WorldSync"),
    }
}

#[test]
fn world_response_to_event_with_spaces() {
        let mut session = Session::new(None);

    let resp = proto::PaginatedWorldResponse {
        world_section_responses: Vec::new(),
        world_items: vec![proto::WorldItemLite {
            group_id: Some(proto::GroupId {
                space_id: Some(proto::SpaceId {
                    space_id: Some("spaces/abc".into()),
                }),
                dm_id: None,
            }),
            sort_timestamp: Some(1000),
            room_name: Some("Test Room".into()),
            ..Default::default()
        }],
    };
    let event = world_response_to_event(resp, &mut session.interner);
    match event {
        InboundEvent::WorldSync { spaces, .. } => {
            assert_eq!(spaces.len(), 1);
            assert_eq!(spaces[0].name, "Test Room");
            assert_eq!(spaces[0].sort_timestamp, Timestamp(1000));
        }
        _ => panic!("Expected WorldSync"),
    }
}

// ─────── MarkRead and Reaction command tests ───────

#[test]
fn command_to_api_request_mark_read() {
    let mut interner = IdInterner::new();
    let space_id = SpaceId {
        platform: PlatformId::GoogleChat,
        id: interner.intern("spaces/test"),
    };
    let msg_id = MessageId(interner.intern("msg_123"));
    let cmd = OutboundCommand::MarkRead {
        space_id,
        up_to: msg_id,
    };
    let req = command_to_api_request(cmd, &interner, 7, 1000);
    assert!(matches!(req, Some(ApiRequest::MarkRead(_))));
}

#[test]
fn command_to_api_request_add_reaction() {
    let mut interner = IdInterner::new();
    let space_id = SpaceId {
        platform: PlatformId::GoogleChat,
        id: interner.intern("spaces/test"),
    };
    let msg_id = MessageId(interner.intern("msg_react"));
    let cmd = OutboundCommand::AddReaction {
        space_id,
        message_id: msg_id,
        emoji: Emoji::Unicode("👍".to_owned()),
    };
    let req = command_to_api_request(cmd, &interner, 7, 1000);
    match req {
        Some(ApiRequest::UpdateReaction(r)) => {
            assert_eq!(r.option, Some(1)); // ADD
            let emoji = r.emoji.unwrap();
            assert_eq!(emoji.unicode, Some("👍".into()));
        }
        _ => panic!("Expected UpdateReaction"),
    }
}

#[test]
fn command_to_api_request_remove_reaction() {
    let mut interner = IdInterner::new();
    let space_id = SpaceId {
        platform: PlatformId::GoogleChat,
        id: interner.intern("spaces/test"),
    };
    let msg_id = MessageId(interner.intern("msg_react"));
    let cmd = OutboundCommand::RemoveReaction {
        space_id,
        message_id: msg_id,
        emoji: Emoji::Unicode("😀".to_owned()),
    };
    let req = command_to_api_request(cmd, &interner, 7, 1000);
    match req {
        Some(ApiRequest::UpdateReaction(r)) => {
            assert_eq!(r.option, Some(2)); // REMOVE
        }
        _ => panic!("Expected UpdateReaction"),
    }
}

// ─────── History response conversion tests ───────

fn make_test_session() -> Session {
    Session::new(None)
}

#[test]
fn history_response_empty() {
    let mut session = make_test_session();
    let space_id = SpaceId {
        platform: PlatformId::GoogleChat,
        id: session.interner.intern("spaces/test"),
    };

    let resp = proto::CatchUpResponse {
        events: Vec::new(),
        status: Some(1), // COMPLETED
    };
    let event = history_response_to_event(resp, space_id, &mut session.interner);
    match event {
        InboundEvent::HistoryChunk {
            messages, has_more, ..
        } => {
            assert!(messages.is_empty());
            assert!(!has_more);
        }
        _ => panic!("Expected HistoryChunk"),
    }
}

#[test]
fn history_response_with_messages() {
    let mut session = make_test_session();
    let space_id = SpaceId {
        platform: PlatformId::GoogleChat,
        id: session.interner.intern("spaces/test"),
    };

    let resp = proto::CatchUpResponse {
        events: vec![proto::Event {
            group_id: Some(proto::GroupId {
                space_id: Some(proto::SpaceId {
                    space_id: Some("spaces/test".into()),
                }),
                dm_id: None,
            }),
            body: Some(proto::EventBody {
                message_posted: Some(proto::MessageEvent {
                    message: Some(proto::Message {
                        id: Some(proto::MessageId {
                            parent_id: None,
                            message_id: Some("msg_001".into()),
                        }),
                        creator: Some(proto::User {
                            user_id: Some(proto::UserId {
                                id: Some("user_alice".into()),
                                ..Default::default()
                            }),
                            name: Some("Alice".into()),
                            ..Default::default()
                        }),
                        create_time: Some(1700000000),
                        text_body: Some("Hello from history!".into()),
                        ..Default::default()
                    }),
                    ..Default::default()
                }),
                ..Default::default()
            }),
            ..Default::default()
        }],
        status: Some(2), // PAGINATED
    };
    let event = history_response_to_event(resp, space_id, &mut session.interner);
    match event {
        InboundEvent::HistoryChunk {
            messages,
            has_more,
            space_id: sid,
        } => {
            assert_eq!(sid, space_id);
            assert!(has_more);
            assert_eq!(messages.len(), 1);
            assert_eq!(messages[0].text, "Hello from history!");
            assert_eq!(messages[0].timestamp, Timestamp(1700000000));
        }
        _ => panic!("Expected HistoryChunk"),
    }
}

#[test]
fn proto_message_to_message_extracts_reactions() {
    let mut interner = IdInterner::new();
    let space_id = SpaceId {
        platform: PlatformId::GoogleChat,
        id: interner.intern("spaces/test"),
    };

    let proto_msg = proto::Message {
        id: Some(proto::MessageId {
            parent_id: None,
            message_id: Some("msg_react".into()),
        }),
        creator: Some(proto::User {
            user_id: Some(proto::UserId {
                id: Some("user_1".into()),
                ..Default::default()
            }),
            ..Default::default()
        }),
        create_time: Some(100000),
        text_body: Some("react test".into()),
        reactions: vec![proto::Reaction {
            emoji: Some(proto::Emoji {
                unicode: Some("👍".into()),
                custom_emoji: None,
            }),
            count: Some(3),
            current_user_participated: Some(true),
        }],
        ..Default::default()
    };

    let msg = proto_message_to_message(&proto_msg, space_id, &mut interner).unwrap();
    assert_eq!(msg.reactions.len(), 1);
    assert_eq!(msg.reactions[0].count, 3);
    assert!(msg.reactions[0].includes_self);
    match &msg.reactions[0].emoji {
        Emoji::Unicode(s) => assert_eq!(s, "👍"),
        _ => panic!("Expected Unicode emoji"),
    }
}

#[test]
fn make_group_id_at_sign_is_dm() {
    let gid = make_group_id("user@example.com");
    assert!(gid.dm_id.is_some());
    assert!(gid.space_id.is_none());
}
