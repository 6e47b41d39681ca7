use tchat::event::{DisconnectReason, InboundEvent};
use tchat::store::Store;
use tchat::tui::inbound::{count_kinds, handle_inbound, set_connection, show_reason};
use tchat::tui::layout::Area;
use tchat::tui::line::{no_lines, no_spans, push_line, push_span, Line, Span};
use tchat::tui::state::{ConnectionStatus, InputMode, InputState, TuiState};
use tchat::tui::theme::{self, Color, Style};
use tchat::tui::widgets::{input_box, message_list, space_list, status_bar, status_panel};
use tchat::types::{
    Emoji, Message, MessageId, MessageType, PlatformId, PresenceStatus, Reaction, Space, SpaceId,
    SpaceKind, Timestamp, User, UserId,
};

fn space(store: &mut Store, name: &str, platform: PlatformId, unread: u32) -> SpaceId {
    let id = SpaceId { platform, id: store.interner.intern(name) };
    store.ingest(InboundEvent::SpaceUpdated {
        space: Space {
            id,
            name: name.to_owned(),
            kind: SpaceKind::Room,
            platform,
            unread_count: unread,
            last_activity: Timestamp::zero(),
            sort_timestamp: Timestamp::zero(),
            typing_users: Vec::new(),
        },
    });
    id
}

fn user(store: &mut Store, name: &str, shown: &str) -> UserId {
    let id = UserId { platform: PlatformId::GoogleChat, id: store.interner.intern(name) };
    store.ingest(InboundEvent::UsersResolved { users: vec![plain_user(id, shown)] });
    id
}

fn plain_user(id: UserId, shown: &str) -> User {
    User {
        id,
        display_name: shown.to_owned(),
        email: None,
        avatar_url: None,
        presence: PresenceStatus::Unknown,
        is_bot: false,
    }
}

fn post(store: &mut Store, space: SpaceId, sender: UserId, name: &str, text: &str, secs: u64) {
    let id = MessageId(store.interner.intern(name));
    store.ingest(InboundEvent::MessagePosted {
        message: Message {
            id,
            space_id: space,
            sender,
            timestamp: Timestamp::from_secs(secs),
            edit_timestamp: None,
            text: text.to_owned(),
            annotations: Vec::new(),
            reactions: Vec::new(),
            thread_id: None,
            message_type: MessageType::User,
            platform: PlatformId::GoogleChat,
        },
        space_id_raw: String::new(),
        topic_id_raw: None,
        message_id_raw: String::new(),
    });
}

fn text_of(l: &Line) -> String {
    l.spans.iter().map(|s| s.text.as_str()).collect()
}

fn texts(v: &[Line]) -> Vec<String> {
    v.iter().map(text_of).collect()
}

// ── lines ──

#[test]
fn lines_are_made_of_pieces() {
    let red = theme::fg(Color::Red);
    let l = Line::triple(Span::raw("a"), Span::styled("b", red), Span::owned("c".to_owned(), red));
    assert_eq!(text_of(&l), "abc");
    assert_eq!(l.spans[0].style, theme::plain());
    assert_eq!(l.spans[1].style, Style { fg: Some(Color::Red), bg: None, bold: false });
    assert_eq!(text_of(&Line::pair(Span::raw("a"), Span::raw("b"))), "ab");
    assert!(Line::blank().spans.is_empty());
    assert_eq!(text_of(&Line::whole("w", theme::bold_fg(Color::Red))), "w");
    let mut spans = no_spans();
    push_span(&mut spans, Span::raw("x"));
    assert_eq!(text_of(&Line::of(spans)), "x");
    let mut lines = no_lines();
    push_line(&mut lines, Line::blank());
    assert_eq!(lines.len(), 1);
}

// ── messages ──

#[test]
fn times_are_shown() {
    assert_eq!(message_list::format_relative_time(Timestamp::zero()), "—");
    assert_eq!(message_list::format_relative_time(Timestamp::from_secs(86_400 + 3_661)), "01:01");
}

#[test]
fn messages_are_shown() {
    let mut store = Store::new();
    let s = space(&mut store, "team", PlatformId::GoogleChat, 0);
    let ann = user(&mut store, "u1", "Ann");
    let ghost = UserId { platform: PlatformId::GoogleChat, id: store.interner.intern("u2") };
    post(&mut store, s, ann, "m1", "one\ntwo", 60);
    post(&mut store, s, ghost, "m2", "three", 120);
    let id = MessageId(store.interner.intern("m2"));
    store.ingest(InboundEvent::ReactionUpdated {
        space_id: s,
        message_id: id,
        reactions: vec![
            Reaction { emoji: Emoji::Unicode("+".to_owned()), count: 2, includes_self: true },
            Reaction {
                emoji: Emoji::Custom { id: "i".to_owned(), shortcode: ":x:".to_owned() },
                count: 1,
                includes_self: false,
            },
        ],
    });
    let mut state = TuiState::new();
    state.active_space = Some(s);
    let (name, lines) = message_list::view(&store, &state);
    assert_eq!(name.as_deref(), Some(" team "));
    assert_eq!(
        texts(&lines),
        vec![
            "  Ann · 00:01",
            "  one",
            "  two",
            "",
            "  unknown · 00:02",
            "  three",
            "  + 2 :x: 1 ",
        ]
    );
    assert_eq!(lines[6].spans[1].style, theme::active());
    assert_eq!(lines[6].spans[2].style, theme::reaction());
    store.ingest(InboundEvent::TypingStarted {
        space_id: s,
        user_id: ann,
        timestamp: Timestamp::zero(),
    });
    let lines = message_list::content(&store, s);
    assert_eq!(text_of(lines.last().unwrap()), "  Ann is typing…");
}

#[test]
fn a_space_without_messages() {
    let mut store = Store::new();
    let s = space(&mut store, "team", PlatformId::GoogleChat, 0);
    assert_eq!(texts(&message_list::content(&store, s)), vec!["", "  No messages yet"]);
    assert_eq!(message_list::title(&store, s), " team ");
    let none = SpaceId { platform: PlatformId::Slack, id: s.id };
    assert_eq!(message_list::title(&store, none), " unknown ");
    let (name, lines) = message_list::view(&store, &TuiState::new());
    assert_eq!(name, None);
    assert_eq!(texts(&lines), texts(&message_list::welcome()));
    assert_eq!(text_of(&lines[2]), "  tchat");
}

#[test]
fn the_last_lines_are_shown() {
    assert_eq!(message_list::scroll(30, 10, 0), 20);
    assert_eq!(message_list::scroll(30, 10, 5), 15);
    assert_eq!(message_list::scroll(30, 10, 25), 0);
    assert_eq!(message_list::scroll(5, 10, 0), 0);
}

// ── spaces ──

#[test]
fn spaces_are_listed() {
    let mut store = Store::new();
    let a = space(&mut store, "alpha", PlatformId::GoogleChat, 3);
    let b = space(&mut store, "beta", PlatformId::Slack, 0);
    let mut state = TuiState::new();
    state.active_space = Some(a);
    state.space_cursor = 1;
    let lines = space_list::view(&store, &state, 24);
    assert_eq!(
        texts(&lines),
        vec!["  Google Chat", "  ● alpha [3]", "", "  Slack", "    beta"]
    );
    assert_eq!(lines[4].style.bg, Some(Color::DarkGray));
    assert_eq!(lines[1].style.bg, None);
    state.active_space = Some(b);
    assert_eq!(text_of(&space_list::view(&store, &state, 24)[4]), "  ● beta");
    assert_eq!(
        texts(&space_list::view(&Store::new(), &state, 24)),
        vec!["", "  No spaces yet", "  Waiting for sync…"]
    );
}

#[test]
fn long_names_are_cut() {
    assert_eq!(space_list::shorten("abcdef", 14), "abcdef");
    assert_eq!(space_list::shorten("abcdef", 13), "abcd…");
    assert_eq!(space_list::shorten("ééé", 13), "éé…");
    assert_eq!(space_list::shorten("abc", 3), "…");
}

// ── the line at the bottom ──

#[test]
fn the_line_at_the_bottom() {
    let mut store = Store::new();
    let s = space(&mut store, "team", PlatformId::GoogleChat, 3);
    space(&mut store, "ops", PlatformId::Slack, 1);
    let mut state = TuiState::new();
    state.active_space = Some(s);
    set_connection(&mut state, PlatformId::GoogleChat, ConnectionStatus::Connected);
    assert_eq!(status_bar::total_unread(&store), 4);
    assert_eq!(
        text_of(&status_bar::view(&store, &state)),
        " ● connected   NORMAL   team  4 unread"
    );
    set_connection(&mut state, PlatformId::GoogleChat, ConnectionStatus::Reconnecting(2));
    set_connection(&mut state, PlatformId::Slack, ConnectionStatus::Connected);
    state.input_mode = InputMode::Insert;
    state.active_space = None;
    state.last_error = Some("oops".to_owned());
    assert_eq!(
        text_of(&status_bar::view(&store, &state)),
        " ◌ reconnecting (2)   INSERT   4 unread  ● slack  err: oops"
    );
}

#[test]
fn the_details_of_the_session() {
    let mut state = TuiState::new();
    assert!(status_panel::view(&state).is_none());
    state.show_status_panel = true;
    state.session_info.self_user_name = "Ann".to_owned();
    state.session_info.total_spaces = 3;
    state.session_info.total_rooms = 2;
    state.session_info.total_dms = 1;
    state.last_error = Some("oops".to_owned());
    let lines = texts(&status_panel::view(&state).unwrap());
    assert_eq!(lines[1], "  User      Ann");
    assert_eq!(lines[9], "  Spaces    3 (2 rooms, 1 DMs)");
    assert_eq!(lines[12], "  Error     oops");
    assert_eq!(lines.last().unwrap(), "  s to close");
    assert_eq!(lines.len(), 15);
}

// ── the line that is written ──

#[test]
fn the_line_is_edited() {
    let mut input = InputState::new();
    for c in "aéz".chars() {
        input.insert(c);
    }
    assert_eq!((input.text.as_str(), input.cursor), ("aéz", 4));
    input.left();
    input.left();
    assert_eq!(input.parts(), ("a".to_owned(), "éz".to_owned()));
    input.right();
    input.backspace();
    assert_eq!((input.text.as_str(), input.cursor), ("az", 1));
    // What was written is taken away again.
    input.insert('é');
    input.backspace();
    assert_eq!((input.text.as_str(), input.cursor), ("az", 1));
    assert_eq!(input.take(), "az");
    assert_eq!((input.text.as_str(), input.cursor), ("", 0));
    input.backspace();
    input.left();
    input.right();
    assert_eq!((input.text.as_str(), input.cursor), ("", 0));
}

#[test]
fn the_cursor_of_the_line() {
    let area = Area { x: 5, y: 7, width: 20, height: 1 };
    let mut state = TuiState::new();
    assert_eq!(input_box::cursor_at(&state, area), None);
    state.input_mode = InputMode::Insert;
    state.input.insert('h');
    state.input.insert('i');
    let (x, y) = input_box::cursor_at(&state, area).unwrap();
    assert_eq!(y, 7);
    state.input.left();
    assert_eq!(input_box::cursor_at(&state, area), Some((x - 1, 7)));
    assert!(text_of(&input_box::view(&state)).contains('h'));
}

// ── what the window learns ──

#[test]
fn reasons_in_words() {
    assert_eq!(
        show_reason(&DisconnectReason::AuthFailed("a \"b\"\n".to_owned())),
        r#"AuthFailed("a \"b\"\n")"#
    );
    assert_eq!(show_reason(&DisconnectReason::ServerError("x".to_owned())), "ServerError(\"x\")");
    assert_eq!(show_reason(&DisconnectReason::SessionExpired), "SessionExpired");
    assert_eq!(show_reason(&DisconnectReason::MaxRetriesExceeded), "MaxRetriesExceeded");
    assert_eq!(show_reason(&DisconnectReason::Shutdown), "Shutdown");
}

#[test]
fn connections_are_told_apart() {
    let mut store = Store::new();
    let mut state = TuiState::new();
    let google = PlatformId::GoogleChat;
    let name = store.interner.intern("a name");
    handle_inbound(&mut store, &mut state, InboundEvent::Connected { platform: google });
    assert_eq!(store.interner.resolve(name), Some("a name"));
    assert_eq!(state.connections[0], ConnectionStatus::Connected);
    let other = state.connections[1];
    handle_inbound(
        &mut store,
        &mut state,
        InboundEvent::Reconnecting { platform: google, attempt: 3 },
    );
    assert_eq!(state.connections[0], ConnectionStatus::Reconnecting(3));
    assert_eq!(state.connections[1], other);
    handle_inbound(
        &mut store,
        &mut state,
        InboundEvent::Disconnected {
            platform: PlatformId::Slack,
            reason: DisconnectReason::ServerError("é\u{1}".to_owned()),
        },
    );
    assert_eq!(state.connections[1], ConnectionStatus::Disconnected);
    assert_eq!(state.last_error.as_deref(), Some(r#"ServerError("é\u{1}")"#));
}

#[test]
fn the_first_space_is_opened() {
    let mut store = Store::new();
    let mut state = TuiState::new();
    let make = |store: &mut Store, name: &str, kind| Space {
        id: SpaceId { platform: PlatformId::GoogleChat, id: store.interner.intern(name) },
        name: name.to_owned(),
        kind,
        platform: PlatformId::GoogleChat,
        unread_count: 0,
        last_activity: Timestamp::zero(),
        sort_timestamp: Timestamp::zero(),
        typing_users: Vec::new(),
    };
    let spaces = vec![
        make(&mut store, "a", SpaceKind::DirectMessage),
        make(&mut store, "b", SpaceKind::ThreadedRoom),
        make(&mut store, "c", SpaceKind::Room),
    ];
    assert_eq!(count_kinds(&spaces), (2, 1));
    let first = spaces[0].id;
    let me = UserId { platform: PlatformId::GoogleChat, id: store.interner.intern("me") };
    handle_inbound(
        &mut store,
        &mut state,
        InboundEvent::WorldSync {
            platform: PlatformId::GoogleChat,
            spaces,
            self_user: plain_user(me, "Me"),
        },
    );
    assert_eq!(state.active_space, Some(first));
    assert_eq!(state.session_info.self_user_name, "Me");
    assert_eq!(
        (
            state.session_info.total_spaces,
            state.session_info.total_rooms,
            state.session_info.total_dms
        ),
        (3, 2, 1)
    );
    assert!(!state.has_fetched(first));
    // An open space stays open.
    handle_inbound(
        &mut store,
        &mut state,
        InboundEvent::WorldSync {
            platform: PlatformId::GoogleChat,
            spaces: vec![],
            self_user: plain_user(me, "Me"),
        },
    );
    assert_eq!(state.active_space, Some(first));
}
