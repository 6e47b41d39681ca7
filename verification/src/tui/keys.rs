//! What the keys do.
use vstd::prelude::*;

use crate::event::outbound::OutboundCommand;
use crate::store::{spaces_of, StoreRead};
use crate::tui::layout::LayoutMode;
use crate::tui::state::{InputMode, InputV, TuiState, TuiV};
use crate::types::ids::{SpaceId, TopicId};
use crate::types::space::SpaceV;
use crate::types::timestamp::Timestamp;

verus! {

broadcast use vstd::string::group_string_axioms;

/// A key that was pressed.
#[derive(Copy, Clone, Debug, PartialEq, Eq, Structural)]
pub enum Key {
    Char(char),
    Enter,
    Esc,
    Backspace,
    Left,
    Right,
    Up,
    Down,
    Other,
}

/// What follows from a key.
pub enum Action {
    Nothing,
    Redraw,
    Quit,
    Send(OutboundCommand),
}

/// The mathematical form of an [`Action`].
#[verifier::ext_equal]
pub ghost enum ActionV {
    Nothing,
    Redraw,
    Quit,
    /// A message is sent.
    SendMessage { space_id: SpaceId, text: Seq<char>, thread_id: Option<TopicId> },
    /// Messages of a space are asked for.
    FetchHistory { space_id: SpaceId, before: Timestamp, count: u32 },
    /// Another command, of which no key makes use.
    SendOther,
}

impl View for Action {
    type V = ActionV;

    open spec fn view(&self) -> ActionV {
        match *self {
            Action::Nothing => ActionV::Nothing,
            Action::Redraw => ActionV::Redraw,
            Action::Quit => ActionV::Quit,
            Action::Send(OutboundCommand::SendMessage { space_id, text, thread_id }) =>
                ActionV::SendMessage { space_id, text: text@, thread_id },
            Action::Send(OutboundCommand::FetchHistory { space_id, before, count }) =>
                ActionV::FetchHistory { space_id, before, count },
            Action::Send(_) => ActionV::SendOther,
        }
    }
}

/// The number of messages that are asked for when a space is opened.
pub const HISTORY_COUNT: u32 = 50;

/// One more, but no more than there can be.
pub open spec fn up(n: int, max: int) -> int {
    if n < max {
        n + 1
    } else {
        n
    }
}

/// One less, but not below nothing.
pub open spec fn down(n: int) -> int {
    if n > 0 {
        n - 1
    } else {
        n
    }
}

/// The space under the cursor is opened. Its messages are asked for the first time only.
pub open spec fn opened(v: TuiV, spaces: Seq<SpaceV>) -> (TuiV, ActionV) {
    if v.space_cursor < spaces.len() {
        let id = spaces[v.space_cursor as int].id;
        let w = TuiV {
            active_space: Some(id),
            message_scroll: 0,
            fetched_spaces: v.fetched_spaces.insert(id),
            ..v
        };
        if v.fetched_spaces.contains(id) {
            (w, ActionV::Redraw)
        } else {
            (w, ActionV::FetchHistory {
                space_id: id,
                before: Timestamp(u64::MAX),
                count: HISTORY_COUNT,
            })
        }
    } else {
        (v, ActionV::Redraw)
    }
}

/// The layout is left for the standard one where it is the shown one, and shown otherwise.
pub open spec fn toggled(shown: LayoutMode, mode: LayoutMode) -> LayoutMode {
    if shown == mode {
        LayoutMode::Standard
    } else {
        mode
    }
}

/// What a key does when keys are commands.
pub open spec fn normal_key(v: TuiV, key: Key, spaces: Seq<SpaceV>) -> (TuiV, ActionV) {
    match key {
        Key::Char('q') => (v, ActionV::Quit),
        Key::Char('i') => (TuiV { input_mode: InputMode::Insert, ..v }, ActionV::Redraw),
        Key::Char('j') | Key::Down => (
            TuiV { message_scroll: up(v.message_scroll as int, 65535) as u16, ..v },
            ActionV::Redraw,
        ),
        Key::Char('k') | Key::Up => (
            TuiV { message_scroll: down(v.message_scroll as int) as u16, ..v },
            ActionV::Redraw,
        ),
        Key::Char('J') => (
            TuiV { space_cursor: up(v.space_cursor as int, usize::MAX as int) as usize, ..v },
            ActionV::Redraw,
        ),
        Key::Char('K') => (
            TuiV { space_cursor: down(v.space_cursor as int) as usize, ..v },
            ActionV::Redraw,
        ),
        Key::Char('f') => (
            TuiV { layout_mode: toggled(v.layout_mode, LayoutMode::Focused), ..v },
            ActionV::Redraw,
        ),
        Key::Char('t') => (
            TuiV { layout_mode: toggled(v.layout_mode, LayoutMode::ThreadView), ..v },
            ActionV::Redraw,
        ),
        Key::Char('s') => (
            TuiV { show_status_panel: !v.show_status_panel, ..v },
            ActionV::Redraw,
        ),
        Key::Char('g') => (TuiV { message_scroll: 0, ..v }, ActionV::Redraw),
        Key::Char('G') => (TuiV { message_scroll: 65535, ..v }, ActionV::Redraw),
        Key::Enter => opened(v, spaces),
        _ => (v, ActionV::Nothing),
    }
}

/// What a key does when keys are text. A line that is given out without a space to send it
/// to is lost.
pub open spec fn insert_key(v: TuiV, key: Key) -> (TuiV, ActionV) {
    match key {
        Key::Esc => (TuiV { input_mode: InputMode::Normal, ..v }, ActionV::Redraw),
        Key::Enter => if v.input.text().len() == 0 {
            (v, ActionV::Nothing)
        } else {
            (
                TuiV { input: InputV::empty(), ..v },
                match v.active_space {
                    Some(space_id) => ActionV::SendMessage {
                        space_id,
                        text: v.input.text(),
                        thread_id: v.active_thread,
                    },
                    None => ActionV::Nothing,
                },
            )
        },
        Key::Char(c) => (TuiV { input: v.input.typed(c), ..v }, ActionV::Redraw),
        Key::Backspace => (TuiV { input: v.input.erased(), ..v }, ActionV::Redraw),
        Key::Left => (TuiV { input: v.input.moved_left(), ..v }, ActionV::Redraw),
        Key::Right => (TuiV { input: v.input.moved_right(), ..v }, ActionV::Redraw),
        _ => (v, ActionV::Nothing),
    }
}

/// What a key does.
pub open spec fn pressed(v: TuiV, key: Key, spaces: Seq<SpaceV>) -> (TuiV, ActionV) {
    match v.input_mode {
        InputMode::Normal => normal_key(v, key, spaces),
        InputMode::Insert => insert_key(v, key),
    }
}

/// Do what a key asks for in the window, and say what else it asks for.
pub fn handle_key<S: StoreRead>(state: &mut TuiState, key: Key, store: &S) -> (r: Action)
    requires
        old(state).wf(),
        store.sound(),
    ensures
        final(state).wf(),
        (final(state)@, r@) == pressed(old(state)@, key, spaces_of(store.known())),
{
    match state.input_mode {
        InputMode::Normal => handle_normal_key(state, key, store),
        InputMode::Insert => handle_insert_key(state, key),
    }
}

/// Open the space under the cursor.
fn open_space<S: StoreRead>(state: &mut TuiState, store: &S) -> (r: Action)
    requires
        old(state).wf(),
        store.sound(),
    ensures
        final(state).wf(),
        (final(state)@, r@) == opened(old(state)@, spaces_of(store.known())),
{
    let ghost v = state@;
    match store.spaces_sorted().nth(state.space_cursor) {
        Some(space) => {
            let id: SpaceId = space.id;
            let known: bool = state.has_fetched(id);
            state.active_space = Some(id);
            state.message_scroll = 0;
            if known {
                proof {
                    assert(v.fetched_spaces.insert(id) =~= v.fetched_spaces);
                }
                Action::Redraw
            } else {
                let ghost was = state.fetched_spaces@;
                state.fetched_spaces.push(id);
                proof {
                    assert(!was.contains(id));
                    assert(state.fetched_spaces@.to_set() =~= was.to_set().insert(id)) by {
                        assert forall|x: SpaceId| #[trigger]
                            was.to_set().insert(id).contains(x) implies was.push(id).contains(x) by {
                            if x == id {
                                assert(was.push(id)[was.len() as int] == id);
                            } else {
                                let k = was.index_of(x);
                                assert(was.push(id)[k] == x);
                            }
                        }
                    }
                }
                Action::Send(
                    OutboundCommand::FetchHistory {
                        space_id: id,
                        before: Timestamp::latest(),
                        count: HISTORY_COUNT,
                    },
                )
            }
        },
        None => Action::Redraw,
    }
}

/// What a key does when keys are commands.
fn handle_normal_key<S: StoreRead>(state: &mut TuiState, key: Key, store: &S) -> (r: Action)
    requires
        old(state).wf(),
        store.sound(),
    ensures
        final(state).wf(),
        (final(state)@, r@) == normal_key(old(state)@, key, spaces_of(store.known())),
{
    match key {
        Key::Char('q') => Action::Quit,
        Key::Char('i') => {
            state.input_mode = InputMode::Insert;
            Action::Redraw
        },
        Key::Char('j') | Key::Down => {
            if state.message_scroll < 65535 {
                state.message_scroll = state.message_scroll + 1;
            }
            Action::Redraw
        },
        Key::Char('k') | Key::Up => {
            if state.message_scroll > 0 {
                state.message_scroll = state.message_scroll - 1;
            }
            Action::Redraw
        },
        Key::Char('J') => {
            if state.space_cursor < usize::MAX {
                state.space_cursor = state.space_cursor + 1;
            }
            Action::Redraw
        },
        Key::Char('K') => {
            if state.space_cursor > 0 {
                state.space_cursor = state.space_cursor - 1;
            }
            Action::Redraw
        },
        Key::Char('f') => {
            state.layout_mode = match state.layout_mode {
                LayoutMode::Focused => LayoutMode::Standard,
                _ => LayoutMode::Focused,
            };
            Action::Redraw
        },
        Key::Char('t') => {
            state.layout_mode = match state.layout_mode {
                LayoutMode::ThreadView => LayoutMode::Standard,
                _ => LayoutMode::ThreadView,
            };
            Action::Redraw
        },
        Key::Char('s') => {
            state.show_status_panel = !state.show_status_panel;
            Action::Redraw
        },
        Key::Enter => open_space(state, store),
        Key::Char('g') => {
            state.message_scroll = 0;
            Action::Redraw
        },
        Key::Char('G') => {
            state.message_scroll = 65535;
            Action::Redraw
        },
        _ => Action::Nothing,
    }
}

/// What a key does when keys are text.
fn handle_insert_key(state: &mut TuiState, key: Key) -> (r: Action)
    requires
        old(state).wf(),
    ensures
        final(state).wf(),
        (final(state)@, r@) == insert_key(old(state)@, key),
{
    match key {
        Key::Esc => {
            state.input_mode = InputMode::Normal;
            Action::Redraw
        },
        Key::Enter => {
            let (before, behind) = state.input.parts();
            if before.as_str().is_empty() && behind.as_str().is_empty() {
                return Action::Nothing;
            }
            let text = state.input.take();
            match state.active_space {
                Some(space_id) => Action::Send(
                    OutboundCommand::SendMessage { space_id, text, thread_id: state.active_thread },
                ),
                None => Action::Nothing,
            }
        },
        Key::Char(c) => {
            state.input.insert(c);
            Action::Redraw
        },
        Key::Backspace => {
            state.input.backspace();
            Action::Redraw
        },
        Key::Left => {
            state.input.left();
            Action::Redraw
        },
        Key::Right => {
            state.input.right();
            Action::Redraw
        },
        _ => Action::Nothing,
    }
}

// ───────────────────────── laws ─────────────────────────

/// A character that was just written is taken away by the backspace key, and the window is
/// as before.
pub proof fn law_backspace_undoes(v: TuiV, c: char, spaces: Seq<SpaceV>)
    requires
        v.input_mode == InputMode::Insert,
    ensures
        pressed(pressed(v, Key::Char(c), spaces).0, Key::Backspace, spaces).0 == v,
{
    assert(v.input.typed(c).erased() =~= v.input);
    assert(pressed(pressed(v, Key::Char(c), spaces).0, Key::Backspace, spaces).0 =~= v);
}

/// The arrow keys undo each other, unless the cursor stands at the end that the first leads
/// to.
pub proof fn law_arrows_undo(v: TuiV, spaces: Seq<SpaceV>)
    requires
        v.input_mode == InputMode::Insert,
    ensures
        v.input.before.len() > 0 ==> pressed(
            pressed(v, Key::Left, spaces).0,
            Key::Right,
            spaces,
        ).0 == v,
        v.input.behind.len() > 0 ==> pressed(
            pressed(v, Key::Right, spaces).0,
            Key::Left,
            spaces,
        ).0 == v,
{
    if v.input.before.len() > 0 {
        assert(v.input.moved_left().behind.drop_first() =~= v.input.behind);
        assert(v.input.moved_left().before.push(v.input.before.last()) =~= v.input.before);
        assert(pressed(pressed(v, Key::Left, spaces).0, Key::Right, spaces).0 =~= v);
    }
    if v.input.behind.len() > 0 {
        let m = v.input.moved_right();
        assert(m.before.drop_last() =~= v.input.before);
        assert(seq![m.before.last()] + m.behind =~= v.input.behind);
        assert(pressed(pressed(v, Key::Right, spaces).0, Key::Left, spaces).0 =~= v);
    }
}

/// The arrow keys do not change the line.
pub proof fn law_arrows_keep_the_line(v: TuiV, spaces: Seq<SpaceV>)
    requires
        v.input_mode == InputMode::Insert,
    ensures
        pressed(v, Key::Left, spaces).0.input.text() == v.input.text(),
        pressed(v, Key::Right, spaces).0.input.text() == v.input.text(),
{
    assert(v.input.moved_left().text() =~= v.input.text());
    assert(v.input.moved_right().text() =~= v.input.text());
}

/// The messages of a space are asked for once: opening it again asks for nothing.
pub proof fn law_history_is_asked_for_once(v: TuiV, spaces: Seq<SpaceV>)
    requires
        v.input_mode == InputMode::Normal,
    ensures
        pressed(pressed(v, Key::Enter, spaces).0, Key::Enter, spaces).1 == ActionV::Redraw,
{
}

/// A space whose messages have been asked for stays noted, whatever is pressed, and no key
/// asks for its messages again.
pub proof fn law_noted_spaces_stay(v: TuiV, key: Key, spaces: Seq<SpaceV>, s: SpaceId)
    requires
        v.fetched_spaces.contains(s),
    ensures
        pressed(v, key, spaces).0.fetched_spaces.contains(s),
        pressed(v, key, spaces).1 matches ActionV::FetchHistory { space_id, .. } ==> space_id != s,
{
}

/// No key changes what is known of the connections and of the session.
pub proof fn law_keys_leave_the_session(v: TuiV, key: Key, spaces: Seq<SpaceV>)
    ensures
        pressed(v, key, spaces).0.connections == v.connections,
        pressed(v, key, spaces).0.session_info == v.session_info,
        pressed(v, key, spaces).0.last_error == v.last_error,
        pressed(v, key, spaces).0.size == v.size,
{
}

/// A key that asks for nothing changes nothing, but that a line is lost that has no space to
/// go to.
pub proof fn law_no_action_no_change(v: TuiV, key: Key, spaces: Seq<SpaceV>)
    requires
        pressed(v, key, spaces).1 == ActionV::Nothing,
    ensures
        pressed(v, key, spaces).0 == v || (v.active_space is None && key == Key::Enter),
{
}

} // verus!
