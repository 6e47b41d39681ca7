use tchat::error::{AuthError, ChannelError};
use tchat::event::{DisconnectReason, InboundEvent, OutboundCommand};
use tchat::googlechat::api::ApiRequest;
use tchat::googlechat::channel::{
    acknowledge_body, poll_reply, process_chunk_with_interner, read_body,
    trim_event_trailing_fields, trim_event_trailing_fields_raw,
};
use tchat::googlechat::commands::{make_group_id, send_request};
use tchat::googlechat::convert::{
    count_from, emoji_from, extract_messages_from_body, flag_from, items_of,
    list_topics_response_to_event, list_topics_response_to_event_with_interner,
    members_response_to_event, message_type_from, presence_response_to_event, time_from,
    time_opt_from,
};
use tchat::googlechat::dispatch::{
    describe_body, extract_events, extract_message_ids, kept_name_of, proto_group_to_space,
    proto_to_message_owned, uncovered_event_types, Uncovered,
};
use tchat::googlechat::io::{
    command_step, end_event, is_made_by, reply_event, sign_in_failed, start_events, ApiReply,
    Caller, CommandStep,
};
use tchat::googlechat::poll::{
    backoff, fetch_error, max_retries, start_failed, PollState, PollStep, Poller,
};
use tchat::googlechat::proto;
use tchat::googlechat::raw::{
    creator_name, group_raw, intern_sender, intern_space, intern_thread, intern_user,
    message_name, message_space, message_topic_name, topic_of, user_name,
};
use tchat::googlechat::schema::load_schema;
use tchat::googlechat::script::{
    get_binary_script, get_script, header_script, poll_script, post_script, post_string_script,
    post_text_script, search_script, sid_script, xhr_script,
};
use tchat::googlechat::search::{
    build_search_payload, generate_uuid, parse_batchexecute_response, parse_hit, results,
};
use tchat::googlechat::session::Session;
use tchat::googlechat::world::{
    extract_spaces_from_page, groups_of_events, spaces_of_world, world_request, LoadCall,
    LoadReply, Loader,
};
use tchat::json::{parse, print};
use tchat::types::{
    Emoji, IdInterner, MemberRole, MembershipState, MessageId, MessageType, PlatformId,
    PresenceStatus, SpaceId, SpaceKind, Timestamp, UserId,
};

fn room(name: &str) -> proto::GroupId {
    proto::GroupId {
        space_id: Some(proto::SpaceId { space_id: Some(name.to_owned()) }),
        dm_id: None,
    }
}

fn dm(name: &str) -> proto::GroupId {
    proto::GroupId { space_id: None, dm_id: Some(proto::DmId { dm_id: Some(name.to_owned()) }) }
}

fn message_id(space: &str, topic: &str, name: &str) -> proto::MessageId {
    proto::MessageId {
        parent_id: Some(proto::MessageParentId {
            topic_id: Some(proto::TopicId {
                group_id: Some(room(space)),
                topic_id: Some(topic.to_owned()),
            }),
        }),
        message_id: Some(name.to_owned()),
    }
}

fn user_id(name: &str) -> proto::UserId {
    proto::UserId { id: Some(name.to_owned()) }
}

fn message(space: &str, topic: &str, name: &str, text: &str) -> proto::Message {
    proto::Message {
        id: Some(message_id(space, topic, name)),
        creator: Some(proto::User { user_id: Some(user_id("u1")), ..Default::default() }),
        create_time: Some(1000),
        text_body: Some(text.to_owned()),
        ..Default::default()
    }
}

fn posted(m: proto::Message) -> proto::EventBody {
    proto::EventBody {
        message_posted: Some(proto::MessageEvent { message: Some(m) }),
        ..Default::default()
    }
}

fn space_id(interner: &mut IdInterner, name: &str) -> SpaceId {
    intern_space(interner, name)
}

/// The events of a body.
fn told(body: proto::EventBody, interner: &mut IdInterner) -> Vec<InboundEvent> {
    let mut out = Vec::new();
    let mut uncovered = Uncovered::new();
    let event = proto::Event { group_id: None, body: Some(body), bodies: vec![] };
    extract_events(&event, interner, &mut out, &mut uncovered);
    out
}

// ── names ──

#[test]
fn names_in_messages() {
    let id = Some(message_id("S", "T", "M"));
    assert_eq!(message_space(&id), "S");
    assert_eq!(message_topic_name(&id), Some("T".to_owned()));
    assert_eq!(message_name(&id), Some("M".to_owned()));
    assert_eq!(topic_of(&id).unwrap().topic_id, Some("T".to_owned()));
    assert_eq!(message_space(&None), "");
    assert_eq!(message_name(&None), None);
    assert_eq!(user_name(&Some(user_id("u"))), Some("u".to_owned()));
    assert_eq!(creator_name(&None), None);
    assert_eq!(group_raw(&Some(dm("d"))), Some(&"d".to_owned()));
    assert_eq!(group_raw(&Some(proto::GroupId::default())), None);
}

#[test]
fn names_are_interned_once() {
    let mut pool = IdInterner::new();
    let a = intern_space(&mut pool, "a");
    assert_eq!(intern_space(&mut pool, "a"), a);
    assert_ne!(intern_user(&mut pool, "b").id, a.id);
    assert_eq!(pool.resolve(a.id), Some("a"));
    assert_eq!(intern_thread(&mut pool, &None), None);
    let t = intern_thread(&mut pool, &Some("t".to_owned())).unwrap();
    assert_eq!(pool.resolve(t.0), Some("t"));
    let s = intern_sender(&mut pool, &Some("b".to_owned()));
    assert_eq!(pool.resolve(s.id), Some("b"));
}

#[test]
fn a_group_keeps_its_name() {
    for s in ["AAAA", "me@example.org"] {
        assert_eq!(group_raw(&Some(make_group_id(s))), Some(&s.to_owned()));
    }
    assert_eq!(group_raw(&Some(make_group_id("space/AAAA"))), Some(&"AAAA".to_owned()));
    assert_eq!(group_raw(&Some(make_group_id("dm/BBBB"))), Some(&"BBBB".to_owned()));
}

// ── conversions ──

#[test]
fn values_of_the_service() {
    let custom = proto::Emoji {
        unicode: None,
        custom_emoji: Some(proto::CustomEmoji {
            uuid: Some("u".to_owned()),
            shortcode: Some(":x:".to_owned()),
        }),
    };
    assert!(matches!(
        emoji_from(&Some(custom)),
        Emoji::Custom { id, shortcode } if id == "u" && shortcode == ":x:"
    ));
    assert!(matches!(emoji_from(&None), Emoji::Unicode(s) if s == "?"));
    assert_eq!((count_from(Some(3)), count_from(None)), (3, 0));
    assert_eq!((time_from(Some(5)), time_from(None)), (Timestamp(5), Timestamp(0)));
    assert_eq!((time_opt_from(Some(5)), time_opt_from(None)), (Some(Timestamp(5)), None));
    assert_eq!((flag_from(Some(true)), flag_from(None)), (true, false));
    assert_eq!(message_type_from(Some(2)), MessageType::System);
    assert_eq!(message_type_from(Some(1)), MessageType::User);
}

#[test]
fn messages_in_a_body() {
    let mut pool = IdInterner::new();
    let space = space_id(&mut pool, "S");
    let mut out = Vec::new();
    let mut body = posted(message("S", "T", "M1", "one"));
    body.topic_created = Some(proto::TopicCreatedEvent {
        topic: Some(proto::Topic {
            id: Some(proto::TopicId { group_id: None, topic_id: Some("T2".to_owned()) }),
            replies: vec![proto::Message {
                id: Some(proto::MessageId {
                    parent_id: None,
                    message_id: Some("M2".to_owned()),
                }),
                ..Default::default()
            }],
        }),
    });
    extract_messages_from_body(&body, space, &mut pool, &mut out);
    assert_eq!(out.len(), 2);
    assert_eq!(out[0].text, "one");
    assert_eq!(pool.resolve(out[0].thread_id.unwrap().0), Some("T"));
    // A reply that names no topic is in that which holds it.
    assert_eq!(pool.resolve(out[1].thread_id.unwrap().0), Some("T2"));
}

#[test]
fn topics_as_history() {
    let topics = || proto::ListTopicsResponse {
        topics: vec![proto::Topic {
            id: None,
            replies: vec![message("S", "T", "M1", "one"), proto::Message::default()],
        }],
        contains_first_topic: Some(false),
    };
    let mut pool = IdInterner::new();
    let space = space_id(&mut pool, "S");
    match list_topics_response_to_event_with_interner(topics(), space, &mut pool) {
        InboundEvent::HistoryChunk { space_id, messages, has_more } => {
            assert_eq!(space_id, space);
            assert_eq!(messages.len(), 1);
            assert!(has_more);
        }
        other => panic!("unexpected: {other:?}"),
    }
    let mut session = Session::new(None);
    match list_topics_response_to_event(topics(), space, &mut session) {
        InboundEvent::HistoryChunk { messages, .. } => {
            assert_eq!(session.interner.resolve(messages[0].id.0), Some("M1"));
        }
        other => panic!("unexpected: {other:?}"),
    }
}

#[test]
fn users_and_presences() {
    let mut pool = IdInterner::new();
    let resp = proto::GetMembersResponse {
        members: vec![
            proto::Member {
                user: Some(proto::User {
                    user_id: Some(user_id("u1")),
                    name: Some("Ann".to_owned()),
                    email: Some("ann@x.org".to_owned()),
                    ..Default::default()
                }),
            },
            proto::Member { user: None },
        ],
    };
    match members_response_to_event(resp, &mut pool) {
        InboundEvent::UsersResolved { users } => {
            assert_eq!(users.len(), 1);
            assert_eq!(users[0].display_name, "Ann");
            assert_eq!(pool.resolve(users[0].id.id), Some("u1"));
        }
        other => panic!("unexpected: {other:?}"),
    }
    let resp = proto::GetUserPresenceResponse {
        user_presences: vec![proto::UserPresence {
            user_id: Some(user_id("u1")),
            presence: Some(1),
        }],
    };
    match presence_response_to_event(resp, &mut pool) {
        InboundEvent::UsersResolved { users } => {
            assert_eq!(users.len(), 1);
            assert_eq!(users[0].presence, PresenceStatus::Active);
        }
        other => panic!("unexpected: {other:?}"),
    }
}

// ── events of the channel ──

#[test]
fn a_message_is_posted_or_edited() {
    let mut pool = IdInterner::new();
    let events = told(posted(message("S", "T", "M", "hi")), &mut pool);
    match &events[..] {
        [InboundEvent::MessagePosted { message, space_id_raw, topic_id_raw, message_id_raw }] => {
            assert_eq!(message.text, "hi");
            assert_eq!(space_id_raw, "S");
            assert_eq!(topic_id_raw.as_deref(), Some("T"));
            assert_eq!(message_id_raw, "M");
        }
        other => panic!("unexpected: {other:?}"),
    }
    let mut edited = message("S", "T", "M", "ho");
    edited.last_edit_time = Some(2000);
    let events = told(posted(edited), &mut pool);
    assert!(matches!(&events[..], [InboundEvent::MessageEdited { message, .. }]
        if message.edit_timestamp == Some(Timestamp(2000))));
    let mut body = posted(message("S", "T", "M", "ho"));
    body.event_type = Some(7);
    assert!(matches!(&told(body, &mut pool)[..], [InboundEvent::MessageEdited { .. }]));
}

#[test]
fn a_message_is_deleted() {
    let mut pool = IdInterner::new();
    let events = told(
        proto::EventBody {
            message_deleted: Some(proto::MessageDeletedEvent {
                message_id: Some(message_id("S", "T", "M")),
            }),
            ..Default::default()
        },
        &mut pool,
    );
    let space = space_id(&mut pool, "S");
    let m = MessageId(pool.intern("M"));
    assert!(matches!(&events[..], [InboundEvent::MessageDeleted { space_id, message_id }]
        if *space_id == space && *message_id == m));
}

#[test]
fn users_type() {
    let typing = |state| proto::EventBody {
        typing_state_changed_event: Some(proto::TypingStateChangedEvent {
            state: Some(state),
            user_id: Some(user_id("u")),
            context: Some(proto::TypingContext { group_id: Some(room("S")) }),
            start_timestamp_usec: Some(9),
        }),
        ..Default::default()
    };
    let mut pool = IdInterner::new();
    assert!(matches!(&told(typing(1), &mut pool)[..],
        [InboundEvent::TypingStarted { timestamp: Timestamp(9), .. }]));
    assert!(matches!(&told(typing(2), &mut pool)[..], [InboundEvent::TypingStopped { .. }]));
    assert!(told(typing(3), &mut pool).is_empty());
}

#[test]
fn reactions_change() {
    let one = |option| proto::EventBody {
        message_reaction: Some(proto::MessageReactionEvent {
            message_id: Some(message_id("S", "T", "M")),
            emoji: Some(proto::Emoji { unicode: Some("+".to_owned()), custom_emoji: None }),
            option: Some(option),
        }),
        ..Default::default()
    };
    let mut pool = IdInterner::new();
    match &told(one(1), &mut pool)[..] {
        [InboundEvent::ReactionUpdated { reactions, .. }] => {
            assert!(matches!(&reactions[0].emoji, Emoji::Unicode(s) if s == "+"));
            assert_eq!((reactions[0].count, reactions[0].includes_self), (1, true));
        }
        other => panic!("unexpected: {other:?}"),
    }
    match &told(one(2), &mut pool)[..] {
        [InboundEvent::ReactionUpdated { reactions, .. }] => {
            assert_eq!((reactions[0].count, reactions[0].includes_self), (0, false));
        }
        other => panic!("unexpected: {other:?}"),
    }
    let all = proto::EventBody {
        message_reactions_summary: Some(proto::MessageReactionsSummaryEvent {
            message_id: Some(message_id("S", "T", "M")),
            reaction_summary: vec![proto::ReactionSummary {
                emoji: None,
                count: Some(4),
                current_user_reacted: Some(true),
            }],
        }),
        ..Default::default()
    };
    match &told(all, &mut pool)[..] {
        [InboundEvent::ReactionUpdated { reactions, .. }] => {
            assert_eq!((reactions[0].count, reactions[0].includes_self), (4, true));
        }
        other => panic!("unexpected: {other:?}"),
    }
}

#[test]
fn spaces_users_and_members_change() {
    let mut pool = IdInterner::new();
    let read = proto::EventBody {
        group_read_state_updated_event: Some(proto::GroupReadStateUpdatedEvent {
            group_id: Some(room("S")),
            most_recent_read_time: Some(7),
        }),
        ..Default::default()
    };
    assert!(matches!(&told(read, &mut pool)[..],
        [InboundEvent::ReadStateUpdated { last_read: Timestamp(7), unread_count: 0, .. }]));
    let group = proto::EventBody {
        group_updated: Some(proto::GroupUpdatedEvent {
            group: Some(proto::Group {
                group_id: Some(room("S")),
                name: Some("The room".to_owned()),
                is_flat: Some(true),
                ..Default::default()
            }),
        }),
        ..Default::default()
    };
    assert!(matches!(&told(group, &mut pool)[..], [InboundEvent::SpaceUpdated { space }]
        if space.name == "The room" && space.kind == SpaceKind::Room));
    let status = proto::EventBody {
        user_status_updated_event: Some(proto::UserStatusUpdatedEvent {
            user_status: Some(proto::UserStatus {
                user_id: Some(user_id("u")),
                dnd_settings: Some(proto::DndSettings { dnd_state: Some(2) }),
            }),
        }),
        ..Default::default()
    };
    assert!(matches!(&told(status, &mut pool)[..],
        [InboundEvent::PresenceChanged { presence: PresenceStatus::Dnd, .. }]));
    let unset = proto::EventBody {
        user_status_updated_event: Some(proto::UserStatusUpdatedEvent {
            user_status: Some(proto::UserStatus {
                user_id: Some(user_id("u")),
                dnd_settings: None,
            }),
        }),
        ..Default::default()
    };
    assert!(matches!(&told(unset, &mut pool)[..],
        [InboundEvent::PresenceChanged { presence: PresenceStatus::Unknown, .. }]));
    let member = proto::EventBody {
        membership_changed: Some(proto::MembershipChangedEvent {
            new_membership: Some(proto::Membership {
                id: Some(proto::MembershipId {
                    member_id: Some(proto::MemberId { user_id: Some(user_id("u")) }),
                    group_id: Some(room("S")),
                    space_id: None,
                }),
                membership_state: Some(2),
                membership_role: Some(4),
            }),
        }),
        ..Default::default()
    };
    assert!(matches!(&told(member, &mut pool)[..],
        [InboundEvent::MembershipChanged {
            state: MembershipState::Joined,
            role: MemberRole::Owner,
            ..
        }]));
}

#[test]
fn bodies_of_no_known_sort_are_noted() {
    let mut pool = IdInterner::new();
    let mut out = Vec::new();
    let mut uncovered = Uncovered::new();
    let strange = |n| proto::EventBody { event_type: Some(n), ..Default::default() };
    let event = proto::Event {
        group_id: None,
        body: Some(strange(90)),
        bodies: vec![strange(12), strange(90), strange(200), strange(-1)],
    };
    extract_events(&event, &mut pool, &mut out, &mut uncovered);
    assert!(out.is_empty());
    assert_eq!(uncovered_event_types(&uncovered), vec![12, 90]);
    uncovered.record(3);
    assert_eq!(uncovered_event_types(&uncovered), vec![3, 12, 90]);
}

#[test]
fn bodies_are_described() {
    let mut body = posted(message("S", "T", "M", "hi"));
    body.event_type = Some(-6);
    body.group_viewed = true;
    assert_eq!(describe_body(&body), "type=Some(-6) fields=[message_posted,group_viewed]");
    assert_eq!(describe_body(&proto::EventBody::default()), "type=None fields=[]");
}

#[test]
fn messages_and_groups_of_the_channel() {
    let mut pool = IdInterner::new();
    let space = space_id(&mut pool, "S");
    let m = proto_to_message_owned(&message("S", "T", "M", "hi"), space, &mut pool).unwrap();
    assert_eq!((m.text.as_str(), m.timestamp), ("hi", Timestamp(1000)));
    assert!(proto_to_message_owned(&proto::Message::default(), space, &mut pool).is_none());
    assert_eq!(
        extract_message_ids(&message("S", "T", "M", "hi")),
        ("S".to_owned(), "T".to_owned(), "M".to_owned())
    );
    assert_eq!(kept_name_of(&room("S")), Some(("S".to_owned(), false)));
    assert_eq!(kept_name_of(&dm("D")), Some(("dm/D".to_owned(), true)));
    assert_eq!(kept_name_of(&proto::GroupId::default()), None);
    let g = proto::Group { group_id: Some(dm("D")), sort_time: Some(4), ..Default::default() };
    let s = proto_group_to_space(&g, &mut pool).unwrap();
    assert_eq!((s.name.as_str(), s.kind), ("dm/D", SpaceKind::DirectMessage));
    assert_eq!(s.sort_timestamp, Timestamp(4));
    let nameless = proto::Group { group_id: Some(dm("")), ..Default::default() };
    assert!(proto_group_to_space(&nameless, &mut pool).is_none());
}

// ── frames and polls ──

#[test]
fn events_are_cut_to_ten_fields() {
    let long = "[1,2,3,4,5,6,7,8,9,10,11,12]";
    let cut = trim_event_trailing_fields_raw(&parse(long).unwrap());
    assert_eq!(print(&cut), "[1,2,3,4,5,6,7,8,9,10]");
    let data = parse(&format!("[{long},2]")).unwrap();
    assert_eq!(print(&trim_event_trailing_fields(&data)), "[[1,2,3,4,5,6,7,8,9,10],2]");
    assert_eq!(print(&trim_event_trailing_fields(&parse("[]").unwrap())), "[]");
}

#[test]
fn a_frame_is_taken_in() {
    let schema = load_schema("");
    let mut aid = 0;
    let mut out = Vec::new();
    let frame = br#"[[3,["noop"]],[4,[{"data":"[[null,\"x\"]]"}]]]"#;
    process_chunk_with_interner(frame, &mut aid, &schema, &mut out).unwrap();
    assert_eq!(aid, 4);
    assert!(matches!(
        process_chunk_with_interner(b"[[5,[1]],[\"x\",[]]]", &mut aid, &schema, &mut out),
        Err(ChannelError::MalformedFrame)
    ));
    assert_eq!(aid, 5);
}

#[test]
fn a_bad_frame_does_not_stop_the_others() {
    let schema = load_schema("");
    let body = b"4\nnope14\n[[7,[\"noop\"]]]";
    assert_eq!(acknowledge_body(body, 2), 7);
    let mut out = Vec::new();
    assert_eq!(read_body(body, 2, &schema, &mut out), 7);
    assert!(out.is_empty());
    assert_eq!(acknowledge_body(b"", 2), 2);
}

#[test]
fn replies_to_polls() {
    assert_eq!(poll_reply(r#"{"status":200,"data":"AQI="}"#).unwrap(), vec![1, 2]);
    assert_eq!(poll_reply("{}").unwrap(), Vec::<u8>::new());
    for status in [400, 401, 403] {
        assert!(matches!(
            poll_reply(&format!(r#"{{"status":{status}}}"#)),
            Err(ChannelError::SessionExpired)
        ));
    }
    assert!(matches!(poll_reply("x"), Err(ChannelError::Http(m)) if m.starts_with("bad js response: ")));
}

#[test]
fn the_pause_grows() {
    assert_eq!([0, 1, 2, 5, 6, 7, 99].map(backoff), [1, 2, 4, 32, 64, 64, 64]);
    assert_eq!((max_retries(Poller::Tab), max_retries(Poller::Direct)), (20, 10));
    assert!(matches!(fetch_error("HTTP 403: x".to_owned()), ChannelError::SessionExpired));
    assert!(matches!(fetch_error("HTTP 500".to_owned()), ChannelError::Http(m) if m == "HTTP 500"));
}

#[test]
fn a_poller_goes_on_and_gives_up() {
    let mut s = PollState::new();
    assert!(matches!(s.before_poll(Poller::Session, false), PollStep::Poll));
    assert!(matches!(
        s.before_poll(Poller::Direct, false),
        PollStep::Stop(InboundEvent::Disconnected { reason: DisconnectReason::SessionExpired, .. })
    ));
    assert!(matches!(s.after_poll(Poller::Session, Ok(5)), PollStep::Poll));
    assert_eq!(s.aid, 5);
    let failed = || Err(ChannelError::Http("down".to_owned()));
    for attempt in 1..=10 {
        match s.after_poll(Poller::Session, failed()) {
            PollStep::Wait(InboundEvent::Reconnecting { attempt: a, .. }, secs) => {
                assert_eq!((a, secs), (attempt, backoff(attempt)));
            }
            other => panic!("unexpected: {other:?}"),
        }
    }
    assert!(matches!(
        s.before_poll(Poller::Session, true),
        PollStep::Stop(InboundEvent::Disconnected {
            reason: DisconnectReason::MaxRetriesExceeded,
            ..
        })
    ));
    let mut t = PollState { aid: 5, retries: 3 };
    assert!(matches!(t.after_poll(Poller::Session, Ok(6)), PollStep::Poll));
    assert_eq!(t, PollState { aid: 6, retries: 0 });
}

#[test]
fn a_poller_signs_up_anew() {
    let expired = || Err(ChannelError::SessionExpired);
    let mut s = PollState { aid: 5, retries: 1 };
    assert!(matches!(s.after_poll(Poller::Direct, expired()), PollStep::Register));
    assert!(matches!(s.after_register(true), PollStep::Poll));
    assert_eq!(s, PollState { aid: 0, retries: 1 });
    assert!(matches!(s.after_register(false), PollStep::Stop(_)));
    assert!(matches!(s.after_poll(Poller::Tab, expired()), PollStep::Stop(_)));
    let gone = Err(ChannelError::Http("the connection is closed".to_owned()));
    assert!(matches!(
        s.after_poll(Poller::Tab, gone),
        PollStep::Reopen(InboundEvent::Reconnecting { attempt: 2, .. })
    ));
    assert_eq!(s, PollState { aid: 0, retries: 2 });
    assert!(matches!(
        start_failed(&AuthError::MissingField("SID")),
        InboundEvent::Disconnected { reason: DisconnectReason::ServerError(_), .. }
    ));
}

#[test]
fn a_poller_in_a_tab_polls_on() {
    let mut s = PollState { aid: 9, retries: 0 };
    for n in 1..=20u32 {
        assert!(matches!(s.before_poll(Poller::Tab, true), PollStep::Poll));
        let gone = Err(ChannelError::Http("not connected".to_owned()));
        match s.after_poll(Poller::Tab, gone) {
            PollStep::Reopen(InboundEvent::Reconnecting { attempt, .. }) => assert_eq!(attempt, n),
            other => panic!("unexpected: {other:?}"),
        }
    }
    assert_eq!(s, PollState { aid: 9, retries: 20 });
    assert!(matches!(
        s.before_poll(Poller::Tab, true),
        PollStep::Stop(InboundEvent::Disconnected {
            reason: DisconnectReason::MaxRetriesExceeded,
            ..
        })
    ));
    // Another poller waits where a tab would be opened anew.
    let mut other = PollState { aid: 9, retries: 0 };
    let gone = Err(ChannelError::Http("not connected".to_owned()));
    assert!(matches!(other.after_poll(Poller::Session, gone), PollStep::Wait(_, 2)));
}

// ── commands and replies ──

#[test]
fn commands_become_calls() {
    let mut pool = IdInterner::new();
    let space = space_id(&mut pool, "S");
    assert!(matches!(
        command_step(OutboundCommand::Disconnect, &pool, 1, 2),
        CommandStep::Stop
    ));
    match command_step(
        OutboundCommand::FetchHistory { space_id: space, before: Timestamp(0), count: 10 },
        &pool,
        1,
        2,
    ) {
        CommandStep::Call(q, about) => {
            assert_eq!(about, Some(space));
            assert!(is_made_by(Caller::Queue, &q));
        }
        other => panic!("unexpected: {other:?}"),
    }
    match command_step(OutboundCommand::CreateVideoCall { space_id: space }, &pool, 1, 2) {
        CommandStep::Call(q, None) => {
            assert_eq!(q.endpoint(), "create_video_call");
            assert!(is_made_by(Caller::Browser, &q));
            assert!(!is_made_by(Caller::Direct, &q));
        }
        other => panic!("unexpected: {other:?}"),
    }
    let world = ApiRequest::PaginatedWorld(world_request(50));
    assert!(!is_made_by(Caller::Browser, &world));
}

#[test]
fn a_message_with_and_without_a_topic() {
    let q = send_request("S", Some("T".to_owned()), "hi".to_owned(), "l1".to_owned());
    assert_eq!(q.text_body, Some("hi".to_owned()));
    assert_eq!(q.local_id, Some("l1".to_owned()));
    let parent = q.parent_id.unwrap().topic_id.unwrap();
    assert_eq!(parent.topic_id, Some("T".to_owned()));
    let top = send_request("S", None, "hi".to_owned(), "l1".to_owned());
    assert!(top.request_header.is_some());
}

#[test]
fn replies_are_told_of() {
    let mut pool = IdInterner::new();
    let space = space_id(&mut pool, "S");
    let topics = || ApiReply::Topics(proto::ListTopicsResponse::default());
    assert!(matches!(
        reply_event(Caller::Direct, topics(), Some(space), &mut pool),
        Some(InboundEvent::HistoryChunk { space_id, .. }) if space_id == space
    ));
    assert!(reply_event(Caller::Queue, topics(), Some(space), &mut pool).is_none());
    assert!(reply_event(Caller::Browser, ApiReply::Other, None, &mut pool).is_none());
    assert!(matches!(
        reply_event(
            Caller::Browser,
            ApiReply::CatchUp(proto::CatchUpResponse { status: Some(2), events: vec![] }),
            None,
            &mut pool
        ),
        Some(InboundEvent::HistoryChunk { has_more: true, .. })
    ));
    assert!(matches!(
        reply_event(
            Caller::Queue,
            ApiReply::World(proto::PaginatedWorldResponse::default()),
            None,
            &mut pool
        ),
        Some(InboundEvent::WorldSync { .. })
    ));
    assert!(reply_event(
        Caller::Direct,
        ApiReply::Presence(proto::GetUserPresenceResponse::default()),
        None,
        &mut pool
    )
    .is_none());
    assert!(reply_event(
        Caller::Direct,
        ApiReply::Members(proto::GetMembersResponse::default()),
        None,
        &mut pool
    )
    .is_some());
}

#[test]
fn starts_and_ends_are_told() {
    let mut pool = IdInterner::new();
    let me = tchat::googlechat::convert::self_user(&mut pool, "self");
    let events = start_events(vec![], me);
    assert!(matches!(
        &events[..],
        [InboundEvent::WorldSync { .. }, InboundEvent::Connected { platform: PlatformId::GoogleChat }]
    ));
    assert!(matches!(
        sign_in_failed(&AuthError::MissingField("SID")),
        InboundEvent::Disconnected { reason: DisconnectReason::AuthFailed(_), .. }
    ));
    assert!(matches!(
        end_event(),
        InboundEvent::Disconnected { reason: DisconnectReason::Shutdown, .. }
    ));
}

// ── the world ──

#[test]
fn spaces_of_a_reply() {
    let mut pool = IdInterner::new();
    let item = |g, name: Option<&str>| proto::WorldItemLite {
        group_id: Some(g),
        room_name: name.map(|s| s.to_owned()),
        sort_timestamp: None,
    };
    let resp = proto::PaginatedWorldResponse {
        world_section_responses: vec![proto::WorldSectionResponse {
            world_items: vec![item(room("A"), Some("Room A")), item(room(""), None)],
        }],
        world_items: vec![item(dm("B"), None)],
    };
    assert_eq!(items_of(&resp).len(), 3);
    let spaces = spaces_of_world(&resp, &mut pool);
    let shown: Vec<_> = spaces.iter().map(|s| (s.name.as_str(), s.kind)).collect();
    assert_eq!(shown, vec![("Room A", SpaceKind::Room), ("dm/B", SpaceKind::DirectMessage)]);
}

#[test]
fn spaces_of_the_page() {
    let mut pool = IdInterner::new();
    let page = r#"{"spaces":[{"name":"Unread Ann","id":"dm/X"},{"name":"Team","id":"space/Y"},{"name":"","id":"z"}]}"#;
    match extract_spaces_from_page(page, &mut pool).unwrap() {
        InboundEvent::WorldSync { spaces, .. } => {
            assert_eq!(spaces.len(), 2);
            assert_eq!((spaces[0].name.as_str(), pool.resolve(spaces[0].id.id)), ("Ann", Some("dm/X")));
            assert_eq!((spaces[1].name.as_str(), pool.resolve(spaces[1].id.id)), ("Team", Some("Y")));
        }
        other => panic!("unexpected: {other:?}"),
    }
    assert!(matches!(
        extract_spaces_from_page(r#"{"error":"no"}"#, &mut pool),
        Err(AuthError::SessionFetch(m)) if m == "JS error: \"no\""
    ));
    assert!(matches!(
        extract_spaces_from_page(r#"{"error":{"code":1.5,"why":[true]}}"#, &mut pool),
        Err(AuthError::SessionFetch(m)) if m == r#"JS error: {"code":1.5,"why":[true]}"#
    ));
    assert!(matches!(
        extract_spaces_from_page("x", &mut pool),
        Err(AuthError::SessionFetch(m)) if m == "JS error: \"parse failed\""
    ));
}

#[test]
fn groups_of_events_are_distinct() {
    let event = |g| proto::Event { group_id: Some(g), body: None, bodies: vec![] };
    let resp = proto::CatchUpResponse {
        status: None,
        events: vec![event(room("A")), event(dm("B")), event(room("A"))],
    };
    let groups = groups_of_events(&resp);
    let ids: Vec<_> = groups.iter().map(|g| (g.id.as_str(), g.is_dm)).collect();
    assert_eq!(ids, vec![("A", false), ("dm/B", true)]);
}

#[test]
fn loading_with_a_browser() {
    let mut pool = IdInterner::new();
    let mut l = Loader::new(false);
    assert_eq!(l.next_call(0).unwrap().endpoint(), Some("get_self_user_status"));
    // A reply that was not asked for changes nothing.
    l.take(LoadReply::World(None), &mut pool);
    assert_eq!(l.next_call(0).unwrap().endpoint(), Some("get_self_user_status"));
    l.take(
        LoadReply::SelfStatus(Some(proto::GetSelfUserStatusResponse {
            user_status: Some(proto::UserStatus { user_id: Some(user_id("me")), dnd_settings: None }),
        })),
        &mut pool,
    );
    match l.next_call(0) {
        Some(LoadCall::Members(q)) => {
            assert_eq!(user_name(&q.member_ids[0].user_id), Some("me".to_owned()));
        }
        other => panic!("unexpected: {other:?}"),
    }
    l.take(LoadReply::Members(None), &mut pool);
    assert_eq!(l.me.as_ref().unwrap().display_name, "Me");
    assert_eq!(l.next_call(0).unwrap().endpoint(), Some("paginated_world"));
    l.take(LoadReply::World(None), &mut pool);
    assert_eq!(l.next_call(0).unwrap().endpoint(), None);
    l.take(LoadReply::Page(Some(r#"{"spaces":[{"name":"T","id":"space/Y"}]}"#.to_owned())), &mut pool);
    assert!(l.next_call(0).is_none());
    assert_eq!(l.spaces.len(), 1);
}

#[test]
fn loading_without_a_browser() {
    let mut pool = IdInterner::new();
    let mut l = Loader::new(true);
    l.take(LoadReply::SelfStatus(None), &mut pool);
    match l.next_call(10_000_000_000_000) {
        Some(LoadCall::CatchUp(q)) => {
            let range = q.range.unwrap();
            assert_eq!(range.from_revision_timestamp, Some(7_408_000_000_000));
            assert_eq!(range.to_revision_timestamp, Some(10_000_000_000_000));
        }
        other => panic!("unexpected: {other:?}"),
    }
    let event = |g| proto::Event { group_id: Some(g), body: None, bodies: vec![] };
    l.take(
        LoadReply::CatchUp(Some(proto::CatchUpResponse {
            status: None,
            events: vec![event(room("A")), event(dm("B"))],
        })),
        &mut pool,
    );
    assert_eq!(l.next_call(0).unwrap().endpoint(), Some("get_group"));
    l.take(
        LoadReply::Group(Some(proto::GetGroupResponse {
            group: Some(proto::Group { name: Some("Room A".to_owned()), ..Default::default() }),
        })),
        &mut pool,
    );
    l.take(LoadReply::Group(None), &mut pool);
    assert!(l.next_call(0).is_none());
    let names: Vec<_> = l.spaces.iter().map(|s| s.name.as_str()).collect();
    assert_eq!(names, vec!["Room A", "dm/B"]);
    assert_eq!(pool.resolve(l.me.unwrap().id.id), Some("self"));
}

// ── searches ──

#[test]
fn results_of_a_search() {
    let hit = parse(r#"[["space/A","A",2],null,"Room"]"#).unwrap();
    let h = parse_hit(&hit).unwrap();
    assert_eq!((h.space_id.as_str(), h.name.as_str(), h.kind), ("A", "Room", 2));
    assert!(parse_hit(&parse(r#"[["x","",2]]"#).unwrap()).is_none());
    let payload = parse(r#"["more",1,2,3,[[["space/A","A",2],null,"Room"]]]"#).unwrap();
    let r = results(&payload);
    assert_eq!((r.hits.len(), r.threads.len()), (1, 0));
    assert_eq!(r.continuation, Some("more".to_owned()));
    assert!(r.top_threads(3).is_empty());
    let body = ")]}'\n[[\"wrb.fr\",\"rpc\",\"[null,1,2,3,[[[\\\"space/A\\\",\\\"A\\\",2],null,\\\"Room\\\"]]]\"]]";
    assert_eq!(parse_batchexecute_response(body, "rpc").unwrap().hits.len(), 1);
    assert!(parse_batchexecute_response(body, "other").is_err());
}

#[test]
fn numbers_of_searches() {
    assert_eq!(
        generate_uuid(0x0123_4567_89ab_cdef, 0),
        "89ABCDEF-4567-0123-0000-000000000000"
    );
    assert_ne!(generate_uuid(1, 1), generate_uuid(1, 2));
    assert!(print(&build_search_payload("q", "U")).starts_with(r#"[null,null,null,"q",null,"U""#));
}

// ── scripts ──

#[test]
fn scripts_hold_their_arguments() {
    let post = post_script("https://x/", &[1, 2], "text/plain", "tok");
    assert!(post.contains("atob(\"AQI=\")") && post.contains("\"https://x/\""));
    assert!(post.contains("'text/plain'") && post.contains("'tok'"));
    let text = post_text_script("https://x/", &[1, 2], "a/b", "tok");
    assert!(text.contains("atob(\"AQI=\")") && text.contains("substring(0, 2000)"));
    let string = post_string_script("https://x/", "hi", "a/b", "tok");
    assert!(string.contains("atob(\"aGk=\")"));
    let xhr = xhr_script("https://x/", &[255], "tok");
    assert!(xhr.contains("atob(\"/w==\")") && xhr.contains("xhr.open('POST', \"https://x/\", true)"));
    assert!(get_script("https://x/").contains("\"https://x/\""));
    assert!(get_binary_script("https://x/", 1234).contains("1234"));
    assert!(header_script("https://x/", "X-H").contains("X-H"));
    assert!(sid_script("https://x/").contains("sid_header"));
    assert!(poll_script("https://x/").contains("https://x/"));
    assert!(search_script("[1]").contains("batchexecute"));
}

#[test]
fn users_are_told_apart_by_their_names() {
    let mut pool = IdInterner::new();
    let a: UserId = intern_user(&mut pool, "a");
    let b: UserId = intern_user(&mut pool, "b");
    assert_ne!(a, b);
    assert_eq!(a.platform, PlatformId::GoogleChat);
}
