use tchat::event::OutboundCommand;
use tchat::store::{Store, StoreRead};
use tchat::tui::keys::{handle_key, Action, Key};
use tchat::tui::layout::LayoutMode;
use tchat::tui::state::{ConnectionStatus, InputMode, TuiState};
use tchat::types::{InternedId, PlatformId, Space, SpaceId, SpaceKind, Timestamp};

/// Nothing is known yet.
fn store() -> Store {
    Store::new()
}

#[test]
fn normal_mode_q_produces_quit() {
    let mut state = TuiState::new();
    let action = handle_key(&mut state, Key::Char('q'), &store());
    assert!(matches!(action, Action::Quit));
}

#[test]
fn normal_mode_i_enters_insert() {
    let mut state = TuiState::new();
    handle_key(&mut state, Key::Char('i'), &store());
    assert_eq!(state.input_mode, InputMode::Insert);
}

#[test]
fn insert_mode_esc_exits_to_normal() {
    let mut state = TuiState::new();
    state.input_mode = InputMode::Insert;
    handle_key(&mut state, Key::Esc, &store());
    assert_eq!(state.input_mode, InputMode::Normal);
}

#[test]
fn insert_mode_char_inserts_text() {
    let mut state = TuiState::new();
    state.input_mode = InputMode::Insert;
    handle_key(&mut state, Key::Char('h'), &store());
    handle_key(&mut state, Key::Char('i'), &store());
    assert_eq!(state.input.text, "hi");
    assert_eq!(state.input.cursor, 2);
}

#[test]
fn insert_mode_backspace_deletes() {
    let mut state = TuiState::new();
    state.input_mode = InputMode::Insert;
    handle_key(&mut state, Key::Char('a'), &store());
    handle_key(&mut state, Key::Char('b'), &store());
    handle_key(&mut state, Key::Backspace, &store());
    assert_eq!(state.input.text, "a");
    assert_eq!(state.input.cursor, 1);
}

#[test]
fn insert_mode_enter_produces_send_command() {
    let mut state = TuiState::new();
    state.input_mode = InputMode::Insert;
    let space = SpaceId {
        platform: PlatformId::GoogleChat,
        id: InternedId::first(),
    };
    state.active_space = Some(space);
    handle_key(&mut state, Key::Char('h'), &store());
    handle_key(&mut state, Key::Char('i'), &store());
    let action = handle_key(&mut state, Key::Enter, &store());
    assert!(matches!(
        action,
        Action::Send(OutboundCommand::SendMessage { .. })
    ));
    assert!(state.input.text.is_empty());
}

#[test]
fn normal_mode_j_scrolls_down() {
    let mut state = TuiState::new();
    assert_eq!(state.message_scroll, 0);
    handle_key(&mut state, Key::Char('j'), &store());
    assert_eq!(state.message_scroll, 1);
}

#[test]
fn normal_mode_capital_j_switches_space() {
    let mut state = TuiState::new();
    assert_eq!(state.space_cursor, 0);
    handle_key(&mut state, Key::Char('J'), &store());
    assert_eq!(state.space_cursor, 1);
}

#[test]
fn normal_mode_g_scrolls_to_top() {
    let mut state = TuiState::new();
    state.message_scroll = 50;
    handle_key(&mut state, Key::Char('g'), &store());
    assert_eq!(state.message_scroll, 0);
}

#[test]
fn normal_mode_f_toggles_focused() {
    let mut state = TuiState::new();
    assert_eq!(state.layout_mode, LayoutMode::Standard);
    handle_key(&mut state, Key::Char('f'), &store());
    assert_eq!(state.layout_mode, LayoutMode::Focused);
    handle_key(&mut state, Key::Char('f'), &store());
    assert_eq!(state.layout_mode, LayoutMode::Standard);
}

#[test]
fn normal_mode_t_toggles_thread_view() {
    let mut state = TuiState::new();
    handle_key(&mut state, Key::Char('t'), &store());
    assert_eq!(state.layout_mode, LayoutMode::ThreadView);
    handle_key(&mut state, Key::Char('t'), &store());
    assert_eq!(state.layout_mode, LayoutMode::Standard);
}

#[test]
fn insert_mode_left_right_moves_cursor() {
    let mut state = TuiState::new();
    state.input_mode = InputMode::Insert;
    handle_key(&mut state, Key::Char('a'), &store());
    handle_key(&mut state, Key::Char('b'), &store());
    handle_key(&mut state, Key::Char('c'), &store());
    assert_eq!(state.input.cursor, 3);

    handle_key(&mut state, Key::Left, &store());
    assert_eq!(state.input.cursor, 2);

    handle_key(&mut state, Key::Left, &store());
    assert_eq!(state.input.cursor, 1);

    handle_key(&mut state, Key::Right, &store());
    assert_eq!(state.input.cursor, 2);
}

#[test]
fn insert_mode_empty_enter_does_nothing() {
    let mut state = TuiState::new();
    state.input_mode = InputMode::Insert;
    state.active_space = Some(SpaceId {
        platform: PlatformId::GoogleChat,
        id: InternedId::first(),
    });
    let action = handle_key(&mut state, Key::Enter, &store());
    assert!(matches!(action, Action::Nothing));
}

// ─────── Additional key handling tests ───────

#[test]
fn normal_mode_capital_g_scrolls_to_bottom() {
    let mut state = TuiState::new();
    handle_key(&mut state, Key::Char('G'), &store());
    assert_eq!(state.message_scroll, u16::MAX);
}

#[test]
fn normal_mode_k_scrolls_up() {
    let mut state = TuiState::new();
    state.message_scroll = 5;
    handle_key(&mut state, Key::Char('k'), &store());
    assert_eq!(state.message_scroll, 4);
}

#[test]
fn normal_mode_k_saturates_at_zero() {
    let mut state = TuiState::new();
    assert_eq!(state.message_scroll, 0);
    handle_key(&mut state, Key::Char('k'), &store());
    assert_eq!(state.message_scroll, 0);
}

#[test]
fn normal_mode_capital_k_moves_space_cursor_up() {
    let mut state = TuiState::new();
    state.space_cursor = 3;
    handle_key(&mut state, Key::Char('K'), &store());
    assert_eq!(state.space_cursor, 2);
}

#[test]
fn normal_mode_capital_k_saturates_at_zero() {
    let mut state = TuiState::new();
    assert_eq!(state.space_cursor, 0);
    handle_key(&mut state, Key::Char('K'), &store());
    assert_eq!(state.space_cursor, 0);
}

#[test]
fn normal_mode_down_arrow_scrolls() {
    let mut state = TuiState::new();
    handle_key(&mut state, Key::Down, &store());
    assert_eq!(state.message_scroll, 1);
}

#[test]
fn normal_mode_up_arrow_scrolls() {
    let mut state = TuiState::new();
    state.message_scroll = 2;
    handle_key(&mut state, Key::Up, &store());
    assert_eq!(state.message_scroll, 1);
}

#[test]
fn normal_mode_unrecognized_key_is_none() {
    let mut state = TuiState::new();
    let action = handle_key(&mut state, Key::Char('z'), &store());
    assert!(matches!(action, Action::Nothing));
}

#[test]
fn insert_mode_enter_without_active_space_is_none() {
    let mut state = TuiState::new();
    state.input_mode = InputMode::Insert;
    state.active_space = None;
    handle_key(&mut state, Key::Char('h'), &store());
    handle_key(&mut state, Key::Char('i'), &store());
    let action = handle_key(&mut state, Key::Enter, &store());
    assert!(matches!(action, Action::Nothing));
    // Text should be consumed even without active space
}

#[test]
fn insert_mode_cursor_left_at_start_stays() {
    let mut state = TuiState::new();
    state.input_mode = InputMode::Insert;
    assert_eq!(state.input.cursor, 0);
    handle_key(&mut state, Key::Left, &store());
    assert_eq!(state.input.cursor, 0);
}

#[test]
fn insert_mode_cursor_right_at_end_stays() {
    let mut state = TuiState::new();
    state.input_mode = InputMode::Insert;
    handle_key(&mut state, Key::Char('a'), &store());
    assert_eq!(state.input.cursor, 1);
    handle_key(&mut state, Key::Right, &store());
    assert_eq!(state.input.cursor, 1); // already at end
}

#[test]
fn insert_mode_backspace_at_start_does_nothing() {
    let mut state = TuiState::new();
    state.input_mode = InputMode::Insert;
    handle_key(&mut state, Key::Backspace, &store());
    assert_eq!(state.input.cursor, 0);
    assert!(state.input.text.is_empty());
}

#[test]
fn insert_mode_multibyte_char_handles_cursor() {
    let mut state = TuiState::new();
    state.input_mode = InputMode::Insert;
    // Insert a multibyte character
    handle_key(&mut state, Key::Char('é'), &store());
    assert_eq!(state.input.text, "é");
    assert_eq!(state.input.cursor, 2); // é is 2 bytes in UTF-8
    handle_key(&mut state, Key::Backspace, &store());
    assert!(state.input.text.is_empty());
    assert_eq!(state.input.cursor, 0);
}

#[test]
fn insert_mode_unrecognized_key_is_none() {
    let mut state = TuiState::new();
    state.input_mode = InputMode::Insert;
    let action = handle_key(&mut state, Key::Other, &store());
    assert!(matches!(action, Action::Nothing));
}

#[test]
fn normal_mode_enter_with_empty_store_just_redraws() {
    let mut state = TuiState::new();
    let action = handle_key(&mut state, Key::Enter, &store());
    assert!(matches!(action, Action::Redraw));
    assert!(state.active_space.is_none());
}

#[test]
fn tui_state_default_values() {
    let state = TuiState::new();
    assert_eq!(state.input_mode, InputMode::Normal);
    assert!(state.active_space.is_none());
    assert!(state.active_thread.is_none());
    assert_eq!(state.space_cursor, 0);
    assert_eq!(state.message_scroll, 0);
    assert!(state.input.text.is_empty());
    assert_eq!(state.input.cursor, 0);
    assert_eq!(state.size, (80, 24));
    assert!(state.last_error.is_none());
    assert!(state.fetched_spaces.is_empty());
    assert_eq!(state.connections, [ConnectionStatus::Disconnected; 2]);
}

#[test]
fn active_platform_defaults_to_googlechat() {
    let state = TuiState::new();
    assert_eq!(state.active_platform(), PlatformId::GoogleChat);
}

#[test]
fn active_platform_follows_active_space() {
    let mut state = TuiState::new();
    state.active_space = Some(SpaceId {
        platform: PlatformId::Slack,
        id: InternedId::first(),
    });
    assert_eq!(state.active_platform(), PlatformId::Slack);
}

#[test]
fn layout_mode_starts_standard() {
    let state = TuiState::new();
    assert_eq!(state.layout_mode, LayoutMode::Standard);
}

#[test]
fn tick_does_not_crash() {
    let mut state = TuiState::new();
    state.tick(); // Should be a no-op but not panic
}

/// A store with spaces of these names.
fn store_with(names: &[&str]) -> Store {
    let mut store = Store::new();
    for name in names {
        let id = SpaceId { platform: PlatformId::GoogleChat, id: store.interner.intern(name) };
        store.ingest(tchat::event::InboundEvent::SpaceUpdated {
            space: Space {
                id,
                name: (*name).to_owned(),
                kind: SpaceKind::Room,
                platform: PlatformId::GoogleChat,
                unread_count: 0,
                last_activity: Timestamp::zero(),
                sort_timestamp: Timestamp::zero(),
                typing_users: Vec::new(),
            },
        });
    }
    store
}

#[test]
fn history_is_asked_for_once() {
    let store = store_with(&["a", "b"]);
    let first = store.spaces_sorted().collect()[0].id;
    let mut state = TuiState::new();
    match handle_key(&mut state, Key::Enter, &store) {
        Action::Send(OutboundCommand::FetchHistory { space_id, .. }) => assert_eq!(space_id, first),
        _ => panic!("no history asked for"),
    }
    assert_eq!(state.active_space, Some(first));
    assert!(state.has_fetched(first));
    assert!(matches!(handle_key(&mut state, Key::Enter, &store), Action::Redraw));
    assert_eq!(state.fetched_spaces.len(), 1);
}

#[test]
fn keys_leave_what_they_do_not_name() {
    let store = store_with(&["a"]);
    let mut state = TuiState::new();
    state.session_info.self_user_name = "Ann".to_owned();
    for key in [Key::Char('i'), Key::Char('x'), Key::Left, Key::Right, Key::Backspace, Key::Esc] {
        handle_key(&mut state, key, &store);
    }
    assert_eq!(state.input.text, "");
    assert_eq!(state.session_info.self_user_name, "Ann");
    assert_eq!(state.connections, [ConnectionStatus::Disconnected; 2]);
}
