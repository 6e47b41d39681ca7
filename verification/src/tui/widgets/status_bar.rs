//! The line at the bottom: the connection, the mode of the keys, the open space, and what
//! has not been read.
//!
//! ```text
//!  ● connected  NORMAL  team-eng  3 unread
//! ```
use vstd::prelude::*;

use crate::store::{spaces_of, StoreRead, StoreV};
use crate::text;
use crate::text::decimal;
use crate::tui::line::{no_spans, push_span, raw, span, spans, Line, LineV, Span, SpanV};
use crate::tui::state::{ConnectionStatus, InputMode, TuiState, TuiV};
use crate::tui::theme;
use crate::tui::theme::{badge, colored, link, strong, Color, Style};
use crate::types::space::{Space, SpaceV};

verus! {

broadcast use vstd::string::group_string_axioms;

// ───────────────────────── the model ─────────────────────────

/// The space between two parts.
pub open spec fn gap() -> SpanV {
    span("  "@, colored(Color::DarkGray))
}

/// The state of the connection.
pub open spec fn connection_spans(c: ConnectionStatus) -> Seq<SpanV> {
    match c {
        ConnectionStatus::Connected => seq![
            span("●"@ + " "@, link(true)),
            span("connected"@, link(true)),
            gap(),
        ],
        ConnectionStatus::Connecting => seq![
            span("◌"@ + " "@, colored(Color::Gray)),
            span("connecting"@, colored(Color::Gray)),
            gap(),
        ],
        ConnectionStatus::Reconnecting(n) => seq![
            span("◌ "@, link(false)),
            span("reconnecting ("@ + decimal(n as nat) + ")"@, link(false)),
            gap(),
        ],
        ConnectionStatus::Disconnected => seq![
            span("○"@ + " "@, link(false)),
            span("disconnected"@, link(false)),
            gap(),
        ],
    }
}

/// The name of a mode.
pub open spec fn mode_name(m: InputMode) -> Seq<char> {
    match m {
        InputMode::Normal => "NORMAL"@,
        InputMode::Insert => "INSERT"@,
    }
}

/// The mode of the keys.
pub open spec fn mode_spans(m: InputMode) -> Seq<SpanV> {
    seq![span(" "@ + mode_name(m) + " "@, badge(mode_name(m))), gap()]
}

/// The name of the open space.
pub open spec fn space_spans(v: TuiV, k: StoreV) -> Seq<SpanV> {
    match v.active_space {
        Some(id) => seq![
            span(
                if k.spaces.dom().contains(id) {
                    k.spaces[id].name
                } else {
                    "—"@
                },
                colored(Color::White),
            ),
            gap(),
        ],
        None => Seq::empty(),
    }
}

/// How many messages have not been read, in all spaces.
pub open spec fn unread_in_all(s: Seq<SpaceV>) -> nat
    decreases s.len(),
{
    if s.len() == 0 {
        0
    } else {
        unread_in_all(s.drop_last()) + s.last().unread_count as nat
    }
}

/// How many messages have not been read; nothing where all have.
pub open spec fn unread_spans(n: nat) -> Seq<SpanV> {
    if n > 0 {
        seq![span(decimal(n) + " unread"@, strong(Color::Yellow))]
    } else {
        Seq::empty()
    }
}

/// The connection to the other service, where there is one.
pub open spec fn slack_spans(c: ConnectionStatus) -> Seq<SpanV> {
    if c == ConnectionStatus::Connected {
        seq![gap(), span("● slack"@, colored(Color::Magenta))]
    } else {
        Seq::empty()
    }
}

/// The last error.
pub open spec fn error_spans(e: Option<Seq<char>>) -> Seq<SpanV> {
    match e {
        Some(m) => seq![gap(), span("err: "@ + m, colored(Color::Red))],
        None => Seq::empty(),
    }
}

/// The whole line.
pub open spec fn bar(v: TuiV, k: StoreV) -> LineV {
    LineV {
        spans: seq![raw(" "@)] + connection_spans(v.connections[0]) + mode_spans(v.input_mode)
            + space_spans(v, k) + unread_spans(unread_in_all(spaces_of(k))) + slack_spans(
            v.connections[1],
        ) + error_spans(v.last_error),
        style: Style { fg: Some(Color::Gray), bg: Some(Color::Black), bold: false },
    }
}

// ───────────────────────── building ─────────────────────────

fn push_status(v: &mut Vec<Span>, dot: &str, name: &str, style: Style)
    ensures
        spans(final(v)@) == spans(old(v)@) + seq![
            span(dot@ + " "@, style),
            span(name@, style),
            gap(),
        ],
{
    let ghost start = spans(v@);
    push_span(v, Span::owned(text::join2(dot, " "), style));
    push_span(v, Span::styled(name, style));
    push_span(v, Span::styled("  ", theme::dim()));
    proof {
        assert(spans(v@) =~= start + seq![span(dot@ + " "@, style), span(name@, style), gap()]);
    }
}

fn push_connection(v: &mut Vec<Span>, c: ConnectionStatus)
    ensures
        spans(final(v)@) == spans(old(v)@) + connection_spans(c),
{
    let ghost start = spans(v@);
    match c {
        ConnectionStatus::Connected => push_status(v, "●", "connected", theme::connection(true)),
        ConnectionStatus::Connecting => push_status(v, "◌", "connecting", theme::muted()),
        ConnectionStatus::Reconnecting(n) => {
            let shown = text::show(n as u64);
            push_span(v, Span::styled("◌ ", theme::connection(false)));
            push_span(
                v,
                Span::owned(
                    text::join3("reconnecting (", shown.as_str(), ")"),
                    theme::connection(false),
                ),
            );
            push_span(v, Span::styled("  ", theme::dim()));
            proof {
                assert(spans(v@) =~= start + connection_spans(c));
            }
        },
        ConnectionStatus::Disconnected => push_status(
            v,
            "○",
            "disconnected",
            theme::connection(false),
        ),
    }
}

fn push_mode(v: &mut Vec<Span>, m: InputMode)
    ensures
        spans(final(v)@) == spans(old(v)@) + mode_spans(m),
{
    let ghost start = spans(v@);
    let name: &str = match m {
        InputMode::Normal => "NORMAL",
        InputMode::Insert => "INSERT",
    };
    push_span(v, Span::owned(text::join3(" ", name, " "), theme::mode_badge(name)));
    push_span(v, Span::styled("  ", theme::dim()));
    proof {
        assert(spans(v@) =~= start + mode_spans(m));
    }
}

fn push_space<S: StoreRead>(v: &mut Vec<Span>, store: &S, state: &TuiState)
    requires
        store.sound(),
    ensures
        spans(final(v)@) == spans(old(v)@) + space_spans(state@, store.known()),
{
    let ghost start = spans(v@);
    match state.active_space {
        Some(id) => {
            let name = match store.space(id) {
                Some(s) => s.name.clone(),
                None => "—".to_owned(),
            };
            push_span(v, Span::owned(name, theme::text()));
            push_span(v, Span::styled("  ", theme::dim()));
        },
        None => {},
    }
    proof {
        assert(spans(v@) =~= start + space_spans(state@, store.known()));
    }
}

/// How many messages have not been read, in all spaces.
pub fn total_unread<S: StoreRead>(store: &S) -> (r: u128)
    requires
        store.sound(),
    ensures
        r == unread_in_all(spaces_of(store.known())),
{
    let it = store.spaces_sorted();
    let ghost ss = it@;
    let all = it.collect();
    proof {
        assert(all@.len() == ss.len());
        assert forall|i: int| 0 <= i < ss.len() implies (#[trigger] all@[i])@ == ss[i] by {
            assert(all@.map_values(|s: &Space| s@)[i] == ss[i]);
        }
        assert(ss.take(0) =~= Seq::<SpaceV>::empty());
    }
    let mut n: u128 = 0;
    let mut i: usize = 0;
    while i < all.len()
        invariant
            i <= all@.len(),
            all@.len() == ss.len(),
            forall|j: int| 0 <= j < ss.len() ==> (#[trigger] all@[j])@ == ss[j],
            n == unread_in_all(ss.take(i as int)),
            n <= i * 0x1_0000_0000,
        decreases all@.len() - i,
    {
        proof {
            assert(ss.take(i + 1).drop_last() =~= ss.take(i as int));
            assert(all@[i as int]@ == ss[i as int]);
        }
        n = n + all[i].unread_count as u128;
        i += 1;
    }
    proof {
        assert(ss.take(i as int) =~= ss);
    }
    n
}

fn push_rest(v: &mut Vec<Span>, unread: u128, state: &TuiState)
    ensures
        spans(final(v)@) == spans(old(v)@) + unread_spans(unread as nat) + slack_spans(
            state.connections@[1],
        ) + error_spans(state@.last_error),
{
    let ghost start = spans(v@);
    if unread > 0 {
        let n = text::show_wide(unread);
        push_span(v, Span::owned(text::join2(n.as_str(), " unread"), theme::unread()));
    }
    proof {
        assert(spans(v@) =~= start + unread_spans(unread as nat));
    }
    let ghost second = spans(v@);
    if state.connections[1] == ConnectionStatus::Connected {
        push_span(v, Span::styled("  ", theme::dim()));
        push_span(v, Span::styled("● slack", theme::fg(theme::PLATFORM_SLACK)));
    }
    proof {
        assert(spans(v@) =~= second + slack_spans(state.connections@[1]));
    }
    let ghost third = spans(v@);
    match &state.last_error {
        Some(e) => {
            push_span(v, Span::styled("  ", theme::dim()));
            push_span(v, Span::owned(text::join2("err: ", e.as_str()), theme::fg(theme::STATUS_ERR)));
        },
        None => {},
    }
    proof {
        assert(spans(v@) =~= third + error_spans(state@.last_error));
    }
}

/// The line at the bottom.
pub fn view<S: StoreRead>(store: &S, state: &TuiState) -> (r: Line)
    requires
        store.sound(),
    ensures
        r@ == bar(state@, store.known()),
{
    let mut pieces = no_spans();
    push_span(&mut pieces, Span::raw(" "));
    proof {
        assert(spans(pieces@) =~= seq![raw(" "@)]);
    }
    push_connection(&mut pieces, state.connections[0]);
    push_mode(&mut pieces, state.input_mode);
    push_space(&mut pieces, store, state);
    let unread: u128 = total_unread(store);
    push_rest(&mut pieces, unread, state);
    Line { spans: pieces, style: theme::status_bar() }
}

} // verus!
