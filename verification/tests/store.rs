use tchat::event::InboundEvent;
use tchat::store::{Store, StoreRead};
use tchat::types::{
    Emoji, Message, MessageId, MessageType, PlatformId, PresenceStatus, Reaction, Space, SpaceId,
    SpaceKind, Timestamp, User, UserId,
};

fn make_store_with_interner() -> Store {
    Store::new()
}

fn make_space(store: &mut Store, name: &str) -> SpaceId {
    let id = store.interner.intern(name);
    let space_id = SpaceId {
        platform: PlatformId::GoogleChat,
        id,
    };
    let space = Space {
        id: space_id,
        name: name.to_owned(),
        kind: SpaceKind::Room,
        platform: PlatformId::GoogleChat,
        unread_count: 0,
        last_activity: Timestamp::zero(),
        sort_timestamp: Timestamp::zero(),
        typing_users: Vec::new(),
    };
    store.ingest(InboundEvent::SpaceUpdated { space });
    space_id
}

fn make_message(store: &mut Store, space: SpaceId, text: &str, ts: u64) -> Message {
    let msg_id = MessageId(store.interner.intern(&format!("msg_{ts}")));
    let sender_id = store.interner.intern("user_1");
    Message {
        id: msg_id,
        space_id: space,
        sender: UserId {
            platform: PlatformId::GoogleChat,
            id: sender_id,
        },
        timestamp: Timestamp(ts),
        edit_timestamp: None,
        text: text.to_owned(),
        annotations: Vec::new(),
        reactions: Vec::new(),
        thread_id: None,
        message_type: MessageType::User,
        platform: PlatformId::GoogleChat,
    }
}

#[test]
fn ingest_message_posted_stores_message() {
    let mut store = make_store_with_interner();
    let space = make_space(&mut store, "space_1");
    let msg = make_message(&mut store, space, "hello", 1000);
    let msg_id = msg.id;
    store.ingest(InboundEvent::MessagePosted {
        message: msg,
        space_id_raw: String::new(),
        topic_id_raw: None,
        message_id_raw: String::new(),
    });

    let msgs: Vec<_> = store.messages_in_space(space).collect();
    assert_eq!(msgs.len(), 1);
    assert_eq!(msgs[0].id, msg_id);
    assert_eq!(msgs[0].text, "hello");
}

#[test]
fn ingest_message_deleted_removes_message() {
    let mut store = make_store_with_interner();
    let space = make_space(&mut store, "space_1");
    let msg = make_message(&mut store, space, "delete me", 1000);
    let msg_id = msg.id;
    store.ingest(InboundEvent::MessagePosted {
        message: msg,
        space_id_raw: String::new(),
        topic_id_raw: None,
        message_id_raw: String::new(),
    });
    assert_eq!(store.messages_in_space(space).count(), 1);

    store.ingest(InboundEvent::MessageDeleted {
        space_id: space,
        message_id: msg_id,
    });
    assert_eq!(store.messages_in_space(space).count(), 0);
}

#[test]
fn messages_in_space_returns_time_ordered() {
    let mut store = make_store_with_interner();
    let space = make_space(&mut store, "space_1");

    // Insert out of order
    let msg3 = make_message(&mut store, space, "third", 3000);
    let msg1 = make_message(&mut store, space, "first", 1000);
    let msg2 = make_message(&mut store, space, "second", 2000);

    store.ingest(InboundEvent::MessagePosted {
        message: msg3,
        space_id_raw: String::new(),
        topic_id_raw: None,
        message_id_raw: String::new(),
    });
    store.ingest(InboundEvent::MessagePosted {
        message: msg1,
        space_id_raw: String::new(),
        topic_id_raw: None,
        message_id_raw: String::new(),
    });
    store.ingest(InboundEvent::MessagePosted {
        message: msg2,
        space_id_raw: String::new(),
        topic_id_raw: None,
        message_id_raw: String::new(),
    });

    let texts: Vec<&str> = store
        .messages_in_space(space)
        .collect()
        .iter()
        .map(|m| m.text.as_str())
        .collect();
    assert_eq!(texts, vec!["first", "second", "third"]);
}

#[test]
fn messages_in_space_empty_for_unknown_space() {
    let mut store = make_store_with_interner();
    let id = store.interner.intern("nonexistent");
    let space = SpaceId {
        platform: PlatformId::GoogleChat,
        id,
    };
    assert_eq!(store.messages_in_space(space).count(), 0);
}

#[test]
fn messages_in_space_does_not_leak_across_spaces() {
    let mut store = make_store_with_interner();
    let space_a = make_space(&mut store, "space_a");
    let space_b = make_space(&mut store, "space_b");

    let msg_a = make_message(&mut store, space_a, "in A", 1000);
    let msg_b = make_message(&mut store, space_b, "in B", 2000);

    store.ingest(InboundEvent::MessagePosted {
        message: msg_a,
        space_id_raw: String::new(),
        topic_id_raw: None,
        message_id_raw: String::new(),
    });
    store.ingest(InboundEvent::MessagePosted {
        message: msg_b,
        space_id_raw: String::new(),
        topic_id_raw: None,
        message_id_raw: String::new(),
    });

    let a_msgs: Vec<_> = store.messages_in_space(space_a).collect();
    let b_msgs: Vec<_> = store.messages_in_space(space_b).collect();

    assert_eq!(a_msgs.len(), 1);
    assert_eq!(a_msgs[0].text, "in A");
    assert_eq!(b_msgs.len(), 1);
    assert_eq!(b_msgs[0].text, "in B");
}

#[test]
fn spaces_sorted_by_last_activity_descending() {
    let mut store = make_store_with_interner();
    let _old = make_space(&mut store, "old_space");
    let _new = make_space(&mut store, "new_space");

    // Other times, for the same spaces
    for (id, name, at) in [(_old, "old_space", 100), (_new, "new_space", 200)] {
        store.ingest(InboundEvent::SpaceUpdated {
            space: Space {
                id,
                name: name.to_owned(),
                kind: SpaceKind::Room,
                platform: PlatformId::GoogleChat,
                unread_count: 0,
                last_activity: Timestamp::zero(),
                sort_timestamp: Timestamp(at),
                typing_users: Vec::new(),
            },
        });
    }

    let found = store.spaces_sorted().collect();
    let names: Vec<&str> = found.iter().map(|s| s.name.as_str()).collect();
    assert_eq!(names[0], "new_space");
    assert_eq!(names[1], "old_space");
}

#[test]
fn ingest_typing_started_adds_user() {
    let mut store = make_store_with_interner();
    let space = make_space(&mut store, "space_1");
    let uid = store.interner.intern("typer");
    let user_id = UserId {
        platform: PlatformId::GoogleChat,
        id: uid,
    };

    store.ingest(InboundEvent::TypingStarted {
        space_id: space,
        user_id,
        timestamp: Timestamp(100),
    });

    let s = store.space(space).unwrap();
    assert!(s.typing_users.contains(&user_id));
}

#[test]
fn ingest_typing_stopped_removes_user() {
    let mut store = make_store_with_interner();
    let space = make_space(&mut store, "space_1");
    let uid = store.interner.intern("typer");
    let user_id = UserId {
        platform: PlatformId::GoogleChat,
        id: uid,
    };

    store.ingest(InboundEvent::TypingStarted {
        space_id: space,
        user_id,
        timestamp: Timestamp(100),
    });
    store.ingest(InboundEvent::TypingStopped {
        space_id: space,
        user_id,
    });

    let s = store.space(space).unwrap();
    assert!(!s.typing_users.contains(&user_id));
}

#[test]
fn ingest_read_state_updates_unread_count() {
    let mut store = make_store_with_interner();
    let space = make_space(&mut store, "space_1");

    store.ingest(InboundEvent::ReadStateUpdated {
        space_id: space,
        last_read: Timestamp(100),
        unread_count: 5,
    });

    assert_eq!(store.space(space).unwrap().unread_count, 5);
}

#[test]
fn ingest_world_sync_populates_spaces_and_users() {
    let mut store = make_store_with_interner();
    let sid = store.interner.intern("space_sync");
    let uid = store.interner.intern("self_user");

    let space_id = SpaceId {
        platform: PlatformId::GoogleChat,
        id: sid,
    };
    let user_id = UserId {
        platform: PlatformId::GoogleChat,
        id: uid,
    };

    store.ingest(InboundEvent::WorldSync {
        platform: PlatformId::GoogleChat,
        spaces: vec![Space {
            id: space_id,
            name: "synced".to_owned(),
            kind: SpaceKind::Room,
            platform: PlatformId::GoogleChat,
            unread_count: 0,
            last_activity: Timestamp::zero(),
            sort_timestamp: Timestamp::zero(),
            typing_users: Vec::new(),
        }],
        self_user: User {
            id: user_id,
            display_name: "Me".to_owned(),
            email: None,
            avatar_url: None,
            presence: PresenceStatus::Active,
            is_bot: false,
        },
    });

    assert!(store.space(space_id).is_some());
    assert!(store.user(user_id).is_some());
    assert_eq!(store.self_user(PlatformId::GoogleChat), Some(user_id));
}

#[test]
fn ingest_presence_changed_updates_user() {
    let mut store = make_store_with_interner();
    let uid = store.interner.intern("presence_user");
    let user_id = UserId {
        platform: PlatformId::GoogleChat,
        id: uid,
    };
    let user = User {
        id: user_id,
        display_name: "Alice".to_owned(),
        email: None,
        avatar_url: None,
        presence: PresenceStatus::Active,
        is_bot: false,
    };
    store.ingest(InboundEvent::UsersResolved { users: vec![user] });

    store.ingest(InboundEvent::PresenceChanged {
        user_id,
        presence: PresenceStatus::Dnd,
    });

    assert_eq!(store.user(user_id).unwrap().presence, PresenceStatus::Dnd);
}

#[test]
fn ingest_reaction_updated_replaces_reactions() {
    let mut store = make_store_with_interner();
    let space = make_space(&mut store, "space_1");
    let msg = make_message(&mut store, space, "react to me", 1000);
    let msg_id = msg.id;
    store.ingest(InboundEvent::MessagePosted {
        message: msg,
        space_id_raw: String::new(),
        topic_id_raw: None,
        message_id_raw: String::new(),
    });

    let reactions = vec![Reaction {
        emoji: Emoji::Unicode("👍".to_owned()),
        count: 3,
        includes_self: true,
    }];

    store.ingest(InboundEvent::ReactionUpdated {
        space_id: space,
        message_id: msg_id,
        reactions,
    });

    let msgs: Vec<_> = store.messages_in_space(space).collect();
    assert_eq!(msgs.len(), 1);
    assert_eq!(msgs[0].reactions.len(), 1);
    assert_eq!(msgs[0].reactions[0].count, 3);
    assert!(msgs[0].reactions[0].includes_self);
}

#[test]
fn ingest_history_chunk_adds_messages() {
    let mut store = make_store_with_interner();
    let space = make_space(&mut store, "space_1");

    let msg1 = make_message(&mut store, space, "old msg", 500);
    let msg2 = make_message(&mut store, space, "older msg", 400);

    store.ingest(InboundEvent::HistoryChunk {
        space_id: space,
        messages: vec![msg1, msg2],
        has_more: false,
    });

    let texts: Vec<&str> = store
        .messages_in_space(space)
        .collect()
        .iter()
        .map(|m| m.text.as_str())
        .collect();
    assert_eq!(texts, vec!["older msg", "old msg"]);
}

#[test]
fn ingest_history_chunk_does_not_overwrite_existing() {
    let mut store = make_store_with_interner();
    let space = make_space(&mut store, "space_1");

    let msg = make_message(&mut store, space, "live version", 1000);
    let msg_id = msg.id;
    store.ingest(InboundEvent::MessagePosted {
        message: msg,
        space_id_raw: String::new(),
        topic_id_raw: None,
        message_id_raw: String::new(),
    });

    // History chunk carries a stale copy of the same message
    let stale = Message {
        id: msg_id,
        space_id: space,
        sender: UserId {
            platform: PlatformId::GoogleChat,
            id: store.interner.intern("user_1"),
        },
        timestamp: Timestamp(1000),
        edit_timestamp: None,
        text: "stale version".to_owned(),
        annotations: Vec::new(),
        reactions: Vec::new(),
        thread_id: None,
        message_type: MessageType::User,
        platform: PlatformId::GoogleChat,
    };

    store.ingest(InboundEvent::HistoryChunk {
        space_id: space,
        messages: vec![stale],
        has_more: true,
    });

    let msgs: Vec<_> = store.messages_in_space(space).collect();
    assert_eq!(msgs.len(), 1);
    assert_eq!(msgs[0].text, "live version");
}

#[test]
fn ingest_space_updated_replaces_space_and_rebuilds_order() {
    let mut store = make_store_with_interner();
    let space_a = make_space(&mut store, "alpha");
    let _space_b = make_space(&mut store, "beta");

    // alpha has older activity, beta has newer
    let updated_alpha = Space {
        id: space_a,
        name: "alpha_renamed".to_owned(),
        kind: SpaceKind::Room,
        platform: PlatformId::GoogleChat,
        unread_count: 2,
        last_activity: Timestamp(300),
        sort_timestamp: Timestamp(300),
        typing_users: Vec::new(),
    };
    store.ingest(InboundEvent::SpaceUpdated {
        space: updated_alpha,
    });

    // alpha (300) should now sort before beta (0)
    let s = store.space(space_a).unwrap();
    assert_eq!(s.name, "alpha_renamed");
    assert_eq!(s.unread_count, 2);

    let found = store.spaces_sorted().collect();
    let names: Vec<&str> = found.iter().map(|s| s.name.as_str()).collect();
    assert_eq!(names[0], "alpha_renamed");
    assert_eq!(names[1], "beta");
}

#[test]
fn ingest_message_edited_replaces_message() {
    let mut store = make_store_with_interner();
    let space = make_space(&mut store, "space_1");
    let msg = make_message(&mut store, space, "original", 1000);
    let msg_id = msg.id;
    store.ingest(InboundEvent::MessagePosted {
        message: msg,
        space_id_raw: String::new(),
        topic_id_raw: None,
        message_id_raw: String::new(),
    });

    let edited = Message {
        id: msg_id,
        space_id: space,
        sender: UserId {
            platform: PlatformId::GoogleChat,
            id: store.interner.intern("user_1"),
        },
        timestamp: Timestamp(1000),
        edit_timestamp: Some(Timestamp(2000)),
        text: "edited text".to_owned(),
        annotations: Vec::new(),
        reactions: Vec::new(),
        thread_id: None,
        message_type: MessageType::User,
        platform: PlatformId::GoogleChat,
    };
    store.ingest(InboundEvent::MessageEdited {
        message: edited,
        space_id_raw: String::new(),
        topic_id_raw: None,
        message_id_raw: String::new(),
    });

    let msgs: Vec<_> = store.messages_in_space(space).collect();
    assert_eq!(msgs.len(), 1);
    assert_eq!(msgs[0].text, "edited text");
    assert_eq!(msgs[0].edit_timestamp, Some(Timestamp(2000)));
}

#[test]
fn lending_iterator_borrows_from_store() {
    let mut store = make_store_with_interner();
    let space = make_space(&mut store, "space_1");
    let msg = make_message(&mut store, space, "borrowed", 1000);
    store.ingest(InboundEvent::MessagePosted {
        message: msg,
        space_id_raw: String::new(),
        topic_id_raw: None,
        message_id_raw: String::new(),
    });

    // This compiles only if the iterator's Item lifetime is tied to &store
    let text: &str = {
        let mut iter = store.messages_in_space(space);
        let first = iter.next().unwrap();
        first.text.as_str()
    };
    assert_eq!(text, "borrowed");
}
