//! What the window learns from events.
use vstd::prelude::*;

use crate::event::inbound::{DisconnectReason, EventV, InboundEvent, ReasonV};
use crate::store::{ingested, Store};
use crate::text;
use crate::text::or_empty;
use crate::tui::state::{ConnectionStatus, SessionV, TuiState, TuiV};
use crate::types::ids::PlatformId;
use crate::types::space::{spaces as spaces_view, Space, SpaceKind, SpaceV, User, UserV};

verus! {

broadcast use vstd::string::group_string_axioms;

/// A text between quotation marks, with what cannot be shown in escapes.
pub uninterp spec fn escaped_text(s: Seq<char>) -> Seq<char>;

/// `format!` of a text with `{:?}`: the text as `Debug` writes it.
#[verifier::external_body]
fn show_escaped(s: &str) -> (r: String)
    ensures
        r@ == escaped_text(s@),
{
    format!("{:?}", s)
}

/// Why a connection ended, in words.
pub open spec fn reason_text(r: ReasonV) -> Seq<char> {
    match r {
        ReasonV::AuthFailed(m) => "AuthFailed("@ + escaped_text(m) + ")"@,
        ReasonV::SessionExpired => "SessionExpired"@,
        ReasonV::MaxRetriesExceeded => "MaxRetriesExceeded"@,
        ReasonV::ServerError(m) => "ServerError("@ + escaped_text(m) + ")"@,
        ReasonV::Shutdown => "Shutdown"@,
    }
}

/// Why a connection ended, in words.
pub fn show_reason(reason: &DisconnectReason) -> (r: String)
    ensures
        r@ == reason_text(reason@),
{
    match reason {
        DisconnectReason::AuthFailed(m) => {
            let shown = show_escaped(m.as_str());
            text::join3("AuthFailed(", shown.as_str(), ")")
        },
        DisconnectReason::SessionExpired => "SessionExpired".to_owned(),
        DisconnectReason::MaxRetriesExceeded => "MaxRetriesExceeded".to_owned(),
        DisconnectReason::ServerError(m) => {
            let shown = show_escaped(m.as_str());
            text::join3("ServerError(", shown.as_str(), ")")
        },
        DisconnectReason::Shutdown => "Shutdown".to_owned(),
    }
}

/// The place of the connection to a service.
pub open spec fn slot(p: PlatformId) -> int {
    match p {
        PlatformId::GoogleChat => 0,
        PlatformId::Slack => 1,
    }
}

/// The connection to a service has another state.
pub open spec fn with_connection(v: TuiV, p: PlatformId, c: ConnectionStatus) -> TuiV {
    TuiV { connections: v.connections.update(slot(p), c), ..v }
}

/// A room, with topics or without.
pub open spec fn is_room(s: SpaceV) -> bool {
    s.kind == SpaceKind::Room || s.kind == SpaceKind::ThreadedRoom
}

/// A direct message, to one user or to more.
pub open spec fn is_dm(s: SpaceV) -> bool {
    s.kind == SpaceKind::DirectMessage || s.kind == SpaceKind::GroupDm
}

/// How many of the spaces are rooms.
pub open spec fn rooms_in(s: Seq<SpaceV>) -> nat
    decreases s.len(),
{
    if s.len() == 0 {
        0
    } else {
        rooms_in(s.drop_last()) + if is_room(s.last()) {
            1nat
        } else {
            0nat
        }
    }
}

/// How many of the spaces are direct messages.
pub open spec fn dms_in(s: Seq<SpaceV>) -> nat
    decreases s.len(),
{
    if s.len() == 0 {
        0
    } else {
        dms_in(s.drop_last()) + if is_dm(s.last()) {
            1nat
        } else {
            0nat
        }
    }
}

/// The spaces and the user became known. The first space is opened where none is.
pub open spec fn synced(v: TuiV, s: Seq<SpaceV>, user: UserV) -> TuiV {
    TuiV {
        active_space: if v.active_space is None && s.len() > 0 {
            Some(s[0].id)
        } else {
            v.active_space
        },
        session_info: SessionV {
            self_user_name: user.display_name,
            self_user_email: or_empty(user.email),
            total_spaces: s.len(),
            total_rooms: rooms_in(s),
            total_dms: dms_in(s),
            ..v.session_info
        },
        ..v
    }
}

/// What the window learns from an event.
pub open spec fn learned(v: TuiV, e: EventV) -> TuiV {
    match e {
        EventV::Connected { platform } => with_connection(v, platform, ConnectionStatus::Connected),
        EventV::Disconnected { platform, reason } => TuiV {
            last_error: Some(reason_text(reason)),
            ..with_connection(v, platform, ConnectionStatus::Disconnected)
        },
        EventV::Reconnecting { platform, attempt } => with_connection(
            v,
            platform,
            ConnectionStatus::Reconnecting(attempt),
        ),
        EventV::WorldSync { spaces, self_user, .. } => synced(v, spaces, self_user),
        _ => v,
    }
}

/// Note the state of the connection to a service.
pub fn set_connection(state: &mut TuiState, platform: PlatformId, status: ConnectionStatus)
    ensures
        final(state)@ == with_connection(old(state)@, platform, status),
        final(state).wf() == old(state).wf(),
{
    let ghost was = state.connections@;
    match platform {
        PlatformId::GoogleChat => {
            state.connections = [status, state.connections[1]];
        },
        PlatformId::Slack => {
            state.connections = [state.connections[0], status];
        },
    }
    proof {
        assert(state.connections@ =~= was.update(slot(platform), status));
    }
}

/// How many of the spaces are rooms, and how many are direct messages.
pub fn count_kinds(v: &Vec<Space>) -> (r: (usize, usize))
    ensures
        r.0 == rooms_in(spaces_view(v@)),
        r.1 == dms_in(spaces_view(v@)),
{
    let ghost s = spaces_view(v@);
    let mut rooms: usize = 0;
    let mut dms: usize = 0;
    let mut i: usize = 0;
    proof {
        assert(s.take(0) =~= Seq::<SpaceV>::empty());
    }
    while i < v.len()
        invariant
            i <= v@.len(),
            s == spaces_view(v@),
            rooms == rooms_in(s.take(i as int)),
            dms == dms_in(s.take(i as int)),
            rooms <= i,
            dms <= i,
        decreases v@.len() - i,
    {
        proof {
            assert(s.take(i + 1).drop_last() =~= s.take(i as int));
            assert(s[i as int] == v@[i as int]@);
        }
        match v[i].kind {
            SpaceKind::Room | SpaceKind::ThreadedRoom => {
                rooms = rooms + 1;
            },
            SpaceKind::DirectMessage | SpaceKind::GroupDm => {
                dms = dms + 1;
            },
            SpaceKind::Channel => {},
        }
        i += 1;
    }
    proof {
        assert(s.take(i as int) =~= s);
    }
    (rooms, dms)
}

fn note_world(state: &mut TuiState, spaces: &Vec<Space>, user: &User)
    requires
        old(state).wf(),
    ensures
        final(state).wf(),
        final(state)@ == synced(old(state)@, spaces_view(spaces@), user@),
{
    if state.active_space.is_none() && spaces.len() > 0 {
        state.active_space = Some(spaces[0].id);
    }
    let (rooms, dms) = count_kinds(spaces);
    state.session_info.self_user_name = user.display_name.clone();
    state.session_info.self_user_email = text::text_or_empty(&user.email);
    state.session_info.total_spaces = spaces.len();
    state.session_info.total_rooms = rooms;
    state.session_info.total_dms = dms;
}

/// Take in an event: the window learns from it, and it goes to the store.
pub fn handle_inbound(store: &mut Store, state: &mut TuiState, event: InboundEvent)
    requires
        old(store).wf(),
        old(state).wf(),
    ensures
        final(store).wf(),
        ingested(old(store)@, event@, final(store)@),
        final(store).pool() == old(store).pool(),
        final(state).wf(),
        final(state)@ == learned(old(state)@, event@),
{
    match &event {
        InboundEvent::Connected { platform } => {
            set_connection(state, *platform, ConnectionStatus::Connected);
        },
        InboundEvent::Disconnected { platform, reason } => {
            set_connection(state, *platform, ConnectionStatus::Disconnected);
            state.last_error = Some(show_reason(reason));
        },
        InboundEvent::Reconnecting { platform, attempt } => {
            set_connection(state, *platform, ConnectionStatus::Reconnecting(*attempt));
        },
        InboundEvent::WorldSync { platform: _, spaces, self_user } => {
            note_world(state, spaces, self_user);
        },
        _ => {},
    }
    store.ingest(event);
}

// ───────────────────────── laws ─────────────────────────

/// A space that the user has opened stays open, whatever happens.
pub proof fn law_open_space_stays(v: TuiV, e: EventV)
    requires
        v.active_space is Some,
    ensures
        learned(v, e).active_space == v.active_space,
{
}

/// No event touches the line that is being written, nor where the user is in the window.
pub proof fn law_events_leave_the_input(v: TuiV, e: EventV)
    ensures
        learned(v, e).input == v.input,
        learned(v, e).input_mode == v.input_mode,
        learned(v, e).layout_mode == v.layout_mode,
        learned(v, e).space_cursor == v.space_cursor,
        learned(v, e).message_scroll == v.message_scroll,
        learned(v, e).fetched_spaces == v.fetched_spaces,
{
}

/// An event of one service does not change the connection to the other.
pub proof fn law_connections_are_apart(v: TuiV, p: PlatformId, q: PlatformId, c: ConnectionStatus)
    requires
        v.connections.len() == 2,
        p != q,
    ensures
        with_connection(v, p, c).connections[slot(q)] == v.connections[slot(q)],
        with_connection(v, p, c).connections[slot(p)] == c,
{
}

/// Each space is counted at most once.
pub proof fn law_kinds_are_apart(s: Seq<SpaceV>)
    ensures
        rooms_in(s) + dms_in(s) <= s.len(),
    decreases s.len(),
{
    if s.len() > 0 {
        law_kinds_are_apart(s.drop_last());
    }
}

} // verus!
