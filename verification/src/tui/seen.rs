//! What the user sees and does: keys that undo one another, a line that is sent as it was
//! written, events that are taken in, and messages and spaces that are all shown.
use vstd::prelude::*;

use crate::event::inbound::EventV;
use crate::store::StoreV;
use crate::text;
use crate::text::decimal;
use crate::tui::inbound::{dms_in, learned, rooms_in, slot};
use crate::tui::keys::{pressed, ActionV, Key};
use crate::tui::layout::LayoutMode;
use crate::tui::line::{blank, LineV};
use crate::tui::state::{ConnectionStatus, InputMode, InputV, TuiV};
use crate::tui::theme::{strong, Color};
use crate::tui::widgets::input_box::input_line;
use crate::tui::widgets::message_list::{
    content_lines, known_names, lines_above, message_block, message_blocks, shown_emoji, shown_time,
    typing_lines, typing_text,
};
use crate::tui::widgets::space_list::{name_room, platform_line, shortened, space_line, space_lines};
use crate::tui::widgets::status_bar::{bar, unread_in_all};
use crate::tui::widgets::status_panel::panel;
use crate::types::ids::{PlatformId, SpaceId, UserId};
use crate::types::message::{MessageV, ReactionV};
use crate::types::space::{SpaceKind, SpaceV};

verus! {

// ───────────────────────── keys ─────────────────────────

/// Moving among the messages goes one step, the other key takes it back, and the arrows do
/// the same as the letters. Neither changes anything else.
pub proof fn law_scrolling_goes_both_ways(v: TuiV, spaces: Seq<SpaceV>)
    requires
        v.input_mode == InputMode::Normal,
    ensures
        ({
            let on = pressed(v, Key::Char('j'), spaces);
            let back = pressed(v, Key::Char('k'), spaces);
            &&& on == pressed(v, Key::Down, spaces)
            &&& back == pressed(v, Key::Up, spaces)
            &&& on.1 == ActionV::Redraw
            &&& back.1 == ActionV::Redraw
            &&& v.message_scroll < u16::MAX ==> on.0.message_scroll == v.message_scroll + 1
                && pressed(on.0, Key::Char('k'), spaces).0 == v
            &&& v.message_scroll == u16::MAX ==> on.0 == v
            &&& v.message_scroll > 0 ==> back.0.message_scroll == v.message_scroll - 1 && pressed(
                back.0,
                Key::Char('j'),
                spaces,
            ).0 == v
            &&& v.message_scroll == 0 ==> back.0 == v
        }),
{
}

/// Moving among the spaces goes one step, and the other key takes it back. Neither opens a
/// space nor changes anything else.
pub proof fn law_the_cursor_goes_both_ways(v: TuiV, spaces: Seq<SpaceV>)
    requires
        v.input_mode == InputMode::Normal,
    ensures
        ({
            let on = pressed(v, Key::Char('J'), spaces);
            let back = pressed(v, Key::Char('K'), spaces);
            &&& on.1 == ActionV::Redraw
            &&& back.1 == ActionV::Redraw
            &&& v.space_cursor < usize::MAX ==> on.0.space_cursor == v.space_cursor + 1 && pressed(
                on.0,
                Key::Char('K'),
                spaces,
            ).0 == v
            &&& v.space_cursor == usize::MAX ==> on.0 == v
            &&& v.space_cursor > 0 ==> back.0.space_cursor == v.space_cursor - 1 && pressed(
                back.0,
                Key::Char('J'),
                spaces,
            ).0 == v
            &&& v.space_cursor == 0 ==> back.0 == v
        }),
{
}

/// The keys for the two ends of the messages lead there from wherever the user is.
pub proof fn law_the_ends_are_reached(v: TuiV, w: TuiV, spaces: Seq<SpaceV>)
    requires
        v.input_mode == InputMode::Normal,
        w == (TuiV { message_scroll: w.message_scroll, ..v }),
    ensures
        pressed(v, Key::Char('g'), spaces) == pressed(w, Key::Char('g'), spaces),
        pressed(v, Key::Char('G'), spaces) == pressed(w, Key::Char('G'), spaces),
        pressed(v, Key::Char('g'), spaces).0.message_scroll <= v.message_scroll,
        pressed(v, Key::Char('G'), spaces).0.message_scroll >= v.message_scroll,
        v.message_scroll == 0 ==> pressed(v, Key::Char('g'), spaces).0 == v,
        v.message_scroll == u16::MAX ==> pressed(v, Key::Char('G'), spaces).0 == v,
{
}

/// A key that switches a view on switches it off again. From any other layout the key leads
/// to its own.
pub proof fn law_views_are_switched(v: TuiV, spaces: Seq<SpaceV>)
    requires
        v.input_mode == InputMode::Normal,
    ensures
        ({
            let f = pressed(v, Key::Char('f'), spaces).0;
            let t = pressed(v, Key::Char('t'), spaces).0;
            let s = pressed(v, Key::Char('s'), spaces).0;
            &&& v.layout_mode != LayoutMode::Focused ==> f.layout_mode == LayoutMode::Focused
            &&& v.layout_mode != LayoutMode::ThreadView ==> t.layout_mode == LayoutMode::ThreadView
            &&& v.layout_mode == LayoutMode::Standard ==> pressed(f, Key::Char('f'), spaces).0 == v
                && pressed(t, Key::Char('t'), spaces).0 == v
            &&& v.layout_mode == LayoutMode::Focused ==> f.layout_mode == LayoutMode::Standard
            &&& v.layout_mode == LayoutMode::ThreadView ==> t.layout_mode == LayoutMode::Standard
            &&& f == (TuiV { layout_mode: f.layout_mode, ..v })
            &&& t == (TuiV { layout_mode: t.layout_mode, ..v })
            &&& s.show_status_panel != v.show_status_panel
            &&& pressed(s, Key::Char('s'), spaces).0 == v
        }),
{
}

/// Going over to writing and back leaves the window as it was; only the one key leads there
/// and only the other back.
pub proof fn law_modes_change_by_their_keys(v: TuiV, key: Key, spaces: Seq<SpaceV>)
    ensures
        v.input_mode == InputMode::Normal ==> pressed(
            pressed(v, Key::Char('i'), spaces).0,
            Key::Esc,
            spaces,
        ).0 == v,
        v.input_mode == InputMode::Insert ==> pressed(
            pressed(v, Key::Esc, spaces).0,
            Key::Char('i'),
            spaces,
        ).0 == v,
        pressed(v, key, spaces).0.input_mode != v.input_mode <==> ((v.input_mode
            == InputMode::Normal && key == Key::Char('i')) || (v.input_mode == InputMode::Insert
            && key == Key::Esc)),
        pressed(v, key, spaces).1 == ActionV::Quit <==> (v.input_mode == InputMode::Normal && key
            == Key::Char('q')),
{
}

/// The space under the cursor is opened at its last messages. Its history is asked for just
/// where it has not been before. Where no space is under the cursor nothing changes.
pub proof fn law_the_space_under_the_cursor_is_opened(v: TuiV, spaces: Seq<SpaceV>)
    requires
        v.input_mode == InputMode::Normal,
    ensures
        ({
            let (w, a) = pressed(v, Key::Enter, spaces);
            if v.space_cursor < spaces.len() {
                let id = spaces[v.space_cursor as int].id;
                &&& w.active_space == Some(id)
                &&& w.message_scroll == 0
                &&& w.fetched_spaces.contains(id)
                &&& forall|s: SpaceId|
                    s != id ==> (w.fetched_spaces.contains(s) <==> v.fetched_spaces.contains(s))
                &&& (a matches ActionV::FetchHistory { space_id, before, count } && space_id == id
                    && before.0 == u64::MAX && count == 50) <==> !v.fetched_spaces.contains(id)
                &&& a == ActionV::Redraw <==> v.fetched_spaces.contains(id)
                &&& w == (TuiV {
                    active_space: w.active_space,
                    message_scroll: w.message_scroll,
                    fetched_spaces: w.fetched_spaces,
                    ..v
                })
            } else {
                w == v && a == ActionV::Redraw
            }
        }),
{
}

/// The window after the characters of a text were typed one after another.
pub open spec fn after_typing(v: TuiV, t: Seq<char>, spaces: Seq<SpaceV>) -> TuiV
    decreases t.len(),
{
    if t.len() == 0 {
        v
    } else {
        pressed(after_typing(v, t.drop_last(), spaces), Key::Char(t.last()), spaces).0
    }
}

/// What is typed goes in where the cursor stands, in the order in which it is typed.
pub proof fn law_what_is_typed_stands_at_the_cursor(v: TuiV, t: Seq<char>, spaces: Seq<SpaceV>)
    requires
        v.input_mode == InputMode::Insert,
    ensures
        after_typing(v, t, spaces) == (TuiV {
            input: InputV { before: v.input.before + t, behind: v.input.behind },
            ..v
        }),
    decreases t.len(),
{
    if t.len() == 0 {
        assert(v.input.before + t =~= v.input.before);
    } else {
        law_what_is_typed_stands_at_the_cursor(v, t.drop_last(), spaces);
        assert((v.input.before + t.drop_last()).push(t.last()) =~= v.input.before + t);
    }
}

/// A text that is typed into an empty line is sent as it was typed, to the open space and in
/// the open thread, and the line is empty again. Where no space is open nothing is sent.
pub proof fn law_what_is_typed_is_sent(v: TuiV, t: Seq<char>, spaces: Seq<SpaceV>)
    requires
        v.input_mode == InputMode::Insert,
        v.input.before.len() == 0,
        v.input.behind.len() == 0,
        t.len() > 0,
    ensures
        ({
            let (w, a) = pressed(after_typing(v, t, spaces), Key::Enter, spaces);
            &&& w == v
            &&& match v.active_space {
                Some(id) => a == (ActionV::SendMessage {
                    space_id: id,
                    text: t,
                    thread_id: v.active_thread,
                }),
                None => a == ActionV::Nothing,
            }
        }),
{
    law_what_is_typed_stands_at_the_cursor(v, t, spaces);
    assert(v.input.before + t + v.input.behind =~= t);
    let (w, a) = pressed(after_typing(v, t, spaces), Key::Enter, spaces);
    assert(w.input =~= v.input);
    assert(w =~= v);
}

/// The backspace key takes the character before the cursor and no other, and does nothing at
/// the beginning of the line.
pub proof fn law_one_character_is_taken_away(v: TuiV, spaces: Seq<SpaceV>)
    requires
        v.input_mode == InputMode::Insert,
    ensures
        ({
            let w = pressed(v, Key::Backspace, spaces).0;
            let n = v.input.before.len();
            &&& w.input.behind == v.input.behind
            &&& n > 0 ==> w.input.text() == v.input.text().remove(n - 1)
            &&& n == 0 ==> w == v
            &&& w == (TuiV { input: w.input, ..v })
        }),
{
    let n = v.input.before.len();
    let w = pressed(v, Key::Backspace, spaces).0;
    if n > 0 {
        assert(w.input.text() =~= v.input.text().remove(n - 1));
    }
}

/// An empty line is not sent, and a line that is sent leaves nothing behind.
pub proof fn law_lines_are_sent_once(v: TuiV, spaces: Seq<SpaceV>)
    requires
        v.input_mode == InputMode::Insert,
    ensures
        v.input.text().len() == 0 ==> pressed(v, Key::Enter, spaces) == (v, ActionV::Nothing),
        pressed(v, Key::Enter, spaces).0.input.text().len() == 0,
        pressed(pressed(v, Key::Enter, spaces).0, Key::Enter, spaces).1 == ActionV::Nothing,
        pressed(v, Key::Enter, spaces).0.active_space == v.active_space,
        pressed(v, Key::Enter, spaces).0.active_thread == v.active_thread,
{
}

// ───────────────────────── events ─────────────────────────

/// The state of a connection is that of the last event of its service. An end of a
/// connection is told as the last error; nothing else of the window changes.
pub proof fn law_the_last_state_counts(v: TuiV, e: EventV, p: PlatformId)
    requires
        v.connections.len() == 2,
        e matches EventV::Connected { platform } && platform == p || (
        e matches EventV::Disconnected { platform, .. } && platform == p) || (
        e matches EventV::Reconnecting { platform, .. } && platform == p),
    ensures
        ({
            let w = learned(v, e);
            let c = w.connections[slot(p)];
            &&& w.connections.len() == 2
            &&& e is Connected <==> c == ConnectionStatus::Connected
            &&& e is Disconnected <==> c == ConnectionStatus::Disconnected
            &&& e matches EventV::Reconnecting { attempt, .. } ==> c
                == ConnectionStatus::Reconnecting(attempt)
            &&& forall|q: PlatformId|
                q != p ==> w.connections[#[trigger] slot(q)] == v.connections[slot(q)]
            &&& e is Disconnected ==> w.last_error is Some
            &&& !(e is Disconnected) ==> w.last_error == v.last_error
            &&& w == (TuiV { connections: w.connections, last_error: w.last_error, ..v })
        }),
{
}

/// The rooms that are counted are the rooms there are, and so are the direct messages.
pub proof fn law_spaces_are_counted(s: Seq<SpaceV>)
    ensures
        rooms_in(s) == s.filter(
            |x: SpaceV| x.kind == SpaceKind::Room || x.kind == SpaceKind::ThreadedRoom,
        ).len(),
        dms_in(s) == s.filter(
            |x: SpaceV| x.kind == SpaceKind::DirectMessage || x.kind == SpaceKind::GroupDm,
        ).len(),
    decreases s.len(),
{
    reveal(Seq::filter);
    if s.len() > 0 {
        law_spaces_are_counted(s.drop_last());
    }
}

/// From the whole of the spaces the window takes the user's name and address and how many
/// spaces of which kind there are. The first of them is opened where none is open. Nothing
/// else changes.
pub proof fn law_the_session_is_learned(v: TuiV, e: EventV)
    requires
        e is WorldSync,
    ensures
        ({
            let w = learned(v, e);
            let s = e->WorldSync_spaces;
            let user = e->WorldSync_self_user;
            &&& w.session_info.self_user_name == user.display_name
            &&& user.email matches Some(m) ==> w.session_info.self_user_email == m
            &&& user.email is None ==> w.session_info.self_user_email.len() == 0
            &&& w.session_info.total_spaces == s.len()
            &&& w.session_info.total_rooms == s.filter(
                |x: SpaceV| x.kind == SpaceKind::Room || x.kind == SpaceKind::ThreadedRoom,
            ).len()
            &&& w.session_info.total_dms == s.filter(
                |x: SpaceV| x.kind == SpaceKind::DirectMessage || x.kind == SpaceKind::GroupDm,
            ).len()
            &&& w.session_info.auth_mode == v.session_info.auth_mode
            &&& w.session_info.xsrf_present == v.session_info.xsrf_present
            &&& w.session_info.browser_channel == v.session_info.browser_channel
            &&& w.session_info.platform_version == v.session_info.platform_version
            &&& v.active_space is None && s.len() > 0 ==> w.active_space == Some(s[0].id)
            &&& v.active_space is None && s.len() == 0 ==> w.active_space is None
            &&& v.active_space is Some ==> w.active_space == v.active_space
            &&& w == (TuiV { session_info: w.session_info, active_space: w.active_space, ..v })
        }),
{
    law_spaces_are_counted(e->WorldSync_spaces);
}

/// What happens in a space changes nothing of the window itself.
pub proof fn law_other_events_leave_the_window(v: TuiV, e: EventV)
    requires
        !(e is Connected),
        !(e is Disconnected),
        !(e is Reconnecting),
        !(e is WorldSync),
    ensures
        learned(v, e) == v,
{
}

// ───────────────────────── messages ─────────────────────────

/// A message is shown with its author, its time, every line of its text and every reaction,
/// in this order. The user's own name and own reactions stand out, and an edit is told.
pub proof fn law_a_message_is_shown(m: MessageV, k: StoreV, me: Option<UserId>)
    ensures
        ({
            let b = message_block(m, k, me);
            let n = text::lines(m.text).len() as int;
            let author = b[0].spans[1];
            let time = b[0].spans[2].text;
            &&& b.len() == 1 + n + if m.reactions.len() > 0 {
                1int
            } else {
                0
            }
            &&& k.users.dom().contains(m.sender) ==> author.text == k.users[m.sender].display_name
            &&& !k.users.dom().contains(m.sender) ==> author.text == "unknown"@
            &&& author.style == strong(Color::Cyan) <==> me == Some(m.sender)
            &&& m.edit_timestamp is None ==> time == " · "@ + shown_time(m.timestamp)
            &&& m.edit_timestamp is Some ==> time == " · "@ + shown_time(m.timestamp)
                + " (edited)"@
            &&& forall|i: int|
                0 <= i < n ==> (#[trigger] b[1 + i]).spans.len() == 2 && b[1 + i].spans[1].text
                    == text::lines(m.text)[i]
            &&& m.reactions.len() > 0 ==> b[1 + n].spans.len() == 1 + m.reactions.len()
            &&& forall|i: int|
                0 <= i < m.reactions.len() ==> {
                    let s = #[trigger] b[1 + n].spans[1 + i];
                    &&& s.text == shown_emoji(m.reactions[i].emoji) + " "@ + decimal(
                        m.reactions[i].count as nat,
                    ) + " "@
                    &&& s.style == strong(Color::Cyan) <==> m.reactions[i].includes_self
                }
        }),
{
    reveal_strlit("");
    let b = message_block(m, k, me);
    let t = " · "@ + shown_time(m.timestamp);
    assert(t + ""@ =~= t);
    let n = text::lines(m.text).len() as int;
    assert forall|i: int| 0 <= i < m.reactions.len() implies {
        let s = #[trigger] b[1 + n].spans[1 + i];
        &&& s.text == shown_emoji(m.reactions[i].emoji) + " "@ + decimal(
            m.reactions[i].count as nat,
        ) + " "@
        &&& s.style == strong(Color::Cyan) <==> m.reactions[i].includes_self
    } by {
        let shown = m.reactions.map_values(
            |x: ReactionV| crate::tui::widgets::message_list::shown_reaction(x),
        );
        assert(b[1 + n].spans[1 + i] == shown[i]);
    }
}

/// All messages are shown, one below the other and in their order: what is shown of two runs
/// of messages is what is shown of the first, an empty line, and what is shown of the second.
pub proof fn law_all_messages_are_shown(
    a: Seq<MessageV>,
    b: Seq<MessageV>,
    k: StoreV,
    me: Option<UserId>,
)
    requires
        a.len() > 0,
        b.len() > 0,
    ensures
        message_blocks(a + b, k, me) == message_blocks(a, k, me) + seq![blank()] + message_blocks(
            b,
            k,
            me,
        ),
        forall|m: MessageV| #[trigger]
            message_blocks(seq![m], k, me) == message_block(m, k, me),
    decreases b.len(),
{
    assert((a + b).drop_last() =~= a + b.drop_last());
    assert forall|m: MessageV| #[trigger]
        message_blocks(seq![m], k, me) == message_block(m, k, me) by {
        assert(seq![m].drop_last() =~= Seq::empty());
        assert(message_blocks(seq![m].drop_last(), k, me) =~= Seq::empty());
        assert(message_blocks(seq![m], k, me) =~= message_block(m, k, me));
    }
    if b.len() == 1 {
        assert(a + b.drop_last() =~= a);
        assert(b =~= seq![b[0]]);
    } else {
        law_all_messages_are_shown(a, b.drop_last(), k, me);
    }
}

/// Every message has its lines on the screen as they are shown of it alone.
pub proof fn law_no_message_is_left_out(
    ms: Seq<MessageV>,
    i: int,
    k: StoreV,
    me: Option<UserId>,
)
    requires
        0 <= i < ms.len(),
    ensures
        exists|at: int|
            0 <= at && at + message_block(ms[i], k, me).len() <= message_blocks(ms, k, me).len()
                && #[trigger] message_blocks(ms, k, me).subrange(
                at,
                at + message_block(ms[i], k, me).len(),
            ) == message_block(ms[i], k, me),
    decreases ms.len(),
{
    let all = message_blocks(ms, k, me);
    let own = message_block(ms[i], k, me);
    let before = message_blocks(ms.drop_last(), k, me);
    if i == ms.len() - 1 {
        let at = all.len() - own.len();
        assert(all.subrange(at, at + own.len()) =~= own);
    } else {
        law_no_message_is_left_out(ms.drop_last(), i, k, me);
        let at = choose|at: int|
            0 <= at && at + own.len() <= before.len() && #[trigger] before.subrange(
                at,
                at + own.len(),
            ) == own;
        assert(all.subrange(at, at + own.len()) =~= before.subrange(at, at + own.len()));
    }
}

/// The names of those who are typing are the names of the users among them who are known, in
/// their order.
pub proof fn law_known_typists_are_named(k: StoreV, ids: Seq<UserId>)
    ensures
        ({
            let known = ids.filter(|u: UserId| k.users.dom().contains(u));
            &&& known_names(k, ids).len() == known.len()
            &&& forall|i: int|
                0 <= i < known.len() ==> #[trigger] known_names(k, ids)[i]
                    == k.users[known[i]].display_name
        }),
    decreases ids.len(),
{
    reveal(Seq::filter);
    if ids.len() > 0 {
        law_known_typists_are_named(k, ids.drop_last());
    }
}

/// That somebody is typing is told just where somebody is, in one line below an empty one.
/// One who is known is named.
pub proof fn law_typing_is_told(k: StoreV, space: SpaceId)
    ensures
        ({
            let l = typing_lines(k, space);
            let typists = k.spaces[space].typing_users;
            let told = k.spaces.dom().contains(space) && typists.len() > 0;
            &&& l.len() == if told {
                2int
            } else {
                0
            }
            &&& told ==> l[0] == blank()
            &&& told && typists.len() == 1 && k.users.dom().contains(typists[0])
                ==> l[1].spans[1].text == k.users[typists[0]].display_name + " is typing…"@
        }),
{
    let typists = k.spaces[space].typing_users;
    if typists.len() == 1 {
        assert(typists.drop_last() =~= Seq::empty());
        assert(known_names(k, typists.drop_last()) =~= Seq::empty());
    }
}

/// Each step up shows one line more above, as long as there is one; the user never sees past
/// the first line or the last.
pub proof fn law_a_step_up_shows_a_line_more(total: nat, height: nat, up: nat)
    ensures
        lines_above(total, height, up) >= 0,
        lines_above(total, height, up) + height <= total || lines_above(total, height, up) == 0,
        lines_above(total, height, up) > 0 ==> lines_above(total, height, up + 1) == lines_above(
            total,
            height,
            up,
        ) - 1,
        lines_above(total, height, up) == 0 ==> lines_above(total, height, up + 1) == 0,
{
}

// ───────────────────────── spaces ─────────────────────────

/// How often another service begins among the spaces up to the one at `i`.
pub open spec fn services_before(s: Seq<SpaceV>, i: int) -> int
    decreases i,
{
    if i <= 0 {
        0
    } else {
        services_before(s, i - 1) + if s[i - 1].platform != s[i].platform {
            1int
        } else {
            0
        }
    }
}

/// The line that the space at `i` is shown in.
pub open spec fn row_of(s: Seq<SpaceV>, i: int) -> int {
    1 + i + 2 * services_before(s, i)
}

proof fn lemma_services_of_beginning(s: Seq<SpaceV>, t: Seq<SpaceV>, i: int)
    requires
        0 <= i < t.len() <= s.len(),
        t == s.take(t.len() as int),
    ensures
        services_before(s, i) == services_before(t, i),
        services_before(s, i) >= 0,
    decreases i,
{
    if i > 0 {
        lemma_services_of_beginning(s, t, i - 1);
    }
}

proof fn lemma_spaces_end(s: Seq<SpaceV>, active: Option<SpaceId>, cursor: int, width: u16)
    requires
        s.len() > 0,
    ensures
        space_lines(s, active, cursor, width).len() == row_of(s, s.len() - 1) + 1,
    decreases s.len(),
{
    let i = s.len() - 1;
    let t = s.drop_last();
    if i > 0 {
        lemma_spaces_end(t, active, cursor, width);
        assert(t =~= s.take(t.len() as int));
        lemma_services_of_beginning(s, t, i - 1);
    } else {
        assert(space_lines(t, active, cursor, width).len() == 0);
    }
}

/// Every space has its line: in the order of the list, the open one and the one under the
/// cursor marked, with the name of its service above where another service begins. There are
/// no other lines.
pub proof fn law_all_spaces_are_listed(
    s: Seq<SpaceV>,
    active: Option<SpaceId>,
    cursor: int,
    width: u16,
    i: int,
)
    requires
        0 <= i < s.len(),
    ensures
        ({
            let l = space_lines(s, active, cursor, width);
            let r = row_of(s, i);
            &&& 0 < r < l.len()
            &&& l[r] == space_line(s[i], active == Some(s[i].id), i == cursor, width)
            &&& i == 0 || s[i - 1].platform != s[i].platform ==> l[r - 1] == platform_line(
                s[i].platform,
            )
            &&& i > 0 && s[i - 1].platform != s[i].platform ==> r >= 2 && l[r - 2] == blank()
            &&& i > 0 && s[i - 1].platform == s[i].platform ==> r == row_of(s, i - 1) + 1
            &&& i == s.len() - 1 ==> l.len() == r + 1
        }),
    decreases s.len(),
{
    let t = s.drop_last();
    let last = s.len() - 1;
    lemma_spaces_end(s, active, cursor, width);
    assert(s.take(s.len() as int) =~= s);
    lemma_services_of_beginning(s, s, i);
    if last > 0 {
        lemma_spaces_end(t, active, cursor, width);
        assert(t =~= s.take(t.len() as int));
        lemma_services_of_beginning(s, t, last - 1);
    }
    if i < last {
        law_all_spaces_are_listed(t, active, cursor, width, i);
        lemma_services_of_beginning(s, t, i);
        if i > 0 {
            lemma_services_of_beginning(s, t, i - 1);
        }
    }
}

/// A space is listed with its name, the number of messages that have not been read where
/// there are any, and a mark where somebody is typing.
pub proof fn law_a_space_is_shown(s: SpaceV, open: bool, under_cursor: bool, width: u16)
    ensures
        ({
            let l = space_line(s, open, under_cursor, width);
            &&& l.spans[1].text == shortened(s.name, name_room(width))
            &&& l.spans.len() == 2 + (if s.unread_count > 0 {
                1int
            } else {
                0
            }) + (if s.typing_users.len() > 0 {
                1int
            } else {
                0
            })
            &&& s.unread_count > 0 ==> l.spans[2].text == " ["@ + decimal(s.unread_count as nat)
                + "]"@
            &&& s.typing_users.len() > 0 ==> l.spans.last().text == " …"@
            &&& l.spans[0].text.contains('●') <==> open
            &&& l.style.bg is Some <==> (under_cursor && !open)
            &&& l.spans[1].style.bold <==> (open || under_cursor)
        }),
{
    reveal_strlit("  ");
    reveal_strlit("●");
    reveal_strlit(" ");
    let l = space_line(s, open, under_cursor, width);
    if open {
        assert(l.spans[0].text[2] == '●');
    } else {
        assert forall|j: int| 0 <= j < l.spans[0].text.len() implies l.spans[0].text[j] != '●' by {
        }
    }
}

/// The messages that have not been read are counted over all spaces.
pub proof fn law_the_unread_add_up(a: Seq<SpaceV>, b: Seq<SpaceV>)
    ensures
        unread_in_all(a + b) == unread_in_all(a) + unread_in_all(b),
        forall|s: SpaceV| #[trigger] unread_in_all(seq![s]) == s.unread_count,
    decreases b.len(),
{
    assert forall|s: SpaceV| #[trigger] unread_in_all(seq![s]) == s.unread_count by {
        assert(seq![s].drop_last() =~= Seq::empty());
        assert(unread_in_all(seq![s].drop_last()) == 0);
    }
    if b.len() == 0 {
        assert(a + b =~= a);
    } else {
        assert((a + b).drop_last() =~= a + b.drop_last());
        law_the_unread_add_up(a, b.drop_last());
    }
}

// ───────────────────────── the bar and the panel ─────────────────────────

/// The line says the text, in a piece of its own.
pub open spec fn says(l: LineV, t: Seq<char>) -> bool {
    exists|i: int| 0 <= i < l.spans.len() && (#[trigger] l.spans[i]).text == t
}

proof fn lemma_says(l: LineV, i: int, t: Seq<char>)
    requires
        0 <= i < l.spans.len(),
        l.spans[i].text == t,
    ensures
        says(l, t),
{
}

/// The bar at the bottom says the name of the open space, how many messages have not been
/// read where there are any, and the last error.
pub proof fn law_the_bar_tells(v: TuiV, k: StoreV)
    ensures
        ({
            let l = bar(v, k);
            let n = unread_in_all(crate::store::spaces_of(k));
            &&& v.active_space is Some && k.spaces.dom().contains(v.active_space->0) ==> says(
                l,
                k.spaces[v.active_space->0].name,
            )
            &&& n > 0 ==> says(l, decimal(n) + " unread"@)
            &&& v.last_error matches Some(m) ==> l.spans.last().text == "err: "@ + m
            &&& says(l, " "@ + (if v.input_mode == InputMode::Insert {
                "INSERT"@
            } else {
                "NORMAL"@
            }) + " "@)
            &&& v.connections[0] == ConnectionStatus::Connected ==> says(l, "connected"@)
            &&& v.connections[0] == ConnectionStatus::Disconnected ==> says(l, "disconnected"@)
            &&& v.connections[0] matches ConnectionStatus::Reconnecting(a) ==> says(
                l,
                "reconnecting ("@ + decimal(a as nat) + ")"@,
            )
        }),
{
    let l = bar(v, k);
    let n = unread_in_all(crate::store::spaces_of(k));
    lemma_says(l, 2, l.spans[2].text);
    lemma_says(l, 4, l.spans[4].text);
    if v.active_space is Some {
        lemma_says(l, 6, l.spans[6].text);
        if n > 0 {
            lemma_says(l, 8, l.spans[8].text);
        }
    } else if n > 0 {
        lemma_says(l, 6, l.spans[6].text);
    }
}

/// The panel tells who is signed in, how many spaces there are, and the last error.
pub proof fn law_the_panel_tells(v: TuiV)
    ensures
        ({
            let p = panel(v);
            let s = v.session_info;
            &&& says(p[1], s.self_user_name)
            &&& says(p[2], s.self_user_email)
            &&& says(p[4], s.auth_mode)
            &&& says(p[6], "present"@) || says(p[6], "missing"@)
            &&& s.xsrf_present ==> says(p[6], "present"@)
            &&& !s.xsrf_present ==> says(p[6], "missing"@)
            &&& says(p[7], s.browser_channel)
            &&& says(
                p[9],
                decimal(s.total_spaces) + " ("@ + decimal(s.total_rooms) + " rooms, "@ + decimal(
                    s.total_dms,
                ) + " DMs)"@,
            )
            &&& v.last_error matches Some(m) ==> p.len() == 15 && says(p[12], m)
            &&& v.last_error is None ==> p.len() == 13
        }),
{
    let p = panel(v);
    lemma_says(p[1], 1, p[1].spans[1].text);
    lemma_says(p[2], 1, p[2].spans[1].text);
    lemma_says(p[4], 1, p[4].spans[1].text);
    lemma_says(p[6], 1, p[6].spans[1].text);
    lemma_says(p[7], 1, p[7].spans[1].text);
    lemma_says(p[9], 1, p[9].spans[1].text);
    if v.last_error is Some {
        lemma_says(p[12], 1, p[12].spans[1].text);
    }
}

// ───────────────────────── the whole of a space ─────────────────────────

/// Where two are typing both are named, and where more are the first is named and the others
/// are counted.
pub proof fn law_typists_are_named_or_counted(a: Seq<char>, b: Seq<char>, more: Seq<Seq<char>>)
    ensures
        typing_text(seq![a, b]) == a + " and "@ + b + " are typing…"@,
        more.len() > 0 ==> typing_text(seq![a, b] + more) == a + " and "@ + decimal(
            1 + more.len(),
        ) + " others are typing…"@,
{
    let all = seq![a, b] + more;
    assert(all[0] == a);
}

/// What is shown of a space is its messages, with the user's own marked as such, and then who
/// is typing.
pub proof fn law_own_messages_stand_out(ms: Seq<MessageV>, k: StoreV, space: SpaceId)
    requires
        ms.len() > 0,
    ensures
        ({
            let me = if k.self_users.dom().contains(space.platform) {
                Some(k.self_users[space.platform])
            } else {
                None
            };
            content_lines(ms, k, space) == message_blocks(ms, k, me) + typing_lines(k, space)
        }),
{
}

/// The line that is being written is shown with its cursor between what stands before it and
/// behind; nothing of it is lost.
pub proof fn law_the_line_is_shown(v: TuiV)
    requires
        v.input_mode == InputMode::Insert,
        v.input.text().len() > 0,
    ensures
        input_line(v).spans.len() == 3,
        input_line(v).spans[1].text + input_line(v).spans[2].text == v.input.text(),
        input_line(v).spans[1].text == v.input.before,
{
}

} // verus!
