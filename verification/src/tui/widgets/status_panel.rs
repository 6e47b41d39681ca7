//! The details of the session.
use vstd::prelude::*;

use crate::text;
use crate::text::decimal;
use crate::tui::line::{blank, line, lines, no_lines, push_line, span, whole, Line, LineV, Span};
use crate::tui::state::{ConnectionStatus, SessionV, TuiState, TuiV};
use crate::tui::theme;
use crate::tui::theme::{colored, link, strong, Color, Style};

verus! {

broadcast use vstd::string::group_string_axioms;

// ───────────────────────── the model ─────────────────────────

/// A label and what it says. The label has its own column.
pub open spec fn row(label: Seq<char>, value: Seq<char>, style: Style) -> LineV {
    line(seq![span("  "@ + label, colored(Color::DarkGray)), span(value, style)])
}

/// The state of the connection, in words.
pub open spec fn status_text(c: ConnectionStatus) -> Seq<char> {
    match c {
        ConnectionStatus::Connected => "●"@ + " "@ + "Connected"@,
        ConnectionStatus::Connecting => "◌"@ + " "@ + "Connecting..."@,
        ConnectionStatus::Reconnecting(_) => "◌"@ + " "@ + "Reconnecting"@,
        ConnectionStatus::Disconnected => "○"@ + " "@ + "Disconnected"@,
    }
}

/// The look of the state of the connection.
pub open spec fn status_style(c: ConnectionStatus) -> Style {
    match c {
        ConnectionStatus::Connected => link(true),
        ConnectionStatus::Connecting => colored(Color::Gray),
        ConnectionStatus::Reconnecting(_) => link(false),
        ConnectionStatus::Disconnected => link(false),
    }
}

/// How many spaces there are.
pub open spec fn count_text(s: SessionV) -> Seq<char> {
    decimal(s.total_spaces) + " ("@ + decimal(s.total_rooms) + " rooms, "@ + decimal(s.total_dms)
        + " DMs)"@
}

/// What is known of the session.
pub open spec fn session_lines(v: TuiV) -> Seq<LineV> {
    let s = v.session_info;
    seq![
        blank(),
        row("User      "@, s.self_user_name, strong(Color::White)),
        row("Email     "@, s.self_user_email, colored(Color::White)),
        blank(),
        row("Auth      "@, s.auth_mode, colored(Color::White)),
        row("Status    "@, status_text(v.connections[0]), status_style(v.connections[0])),
        row(
            "XSRF      "@,
            if s.xsrf_present {
                "present"@
            } else {
                "missing"@
            },
            link(s.xsrf_present),
        ),
        row("Events    "@, s.browser_channel, colored(Color::White)),
        blank(),
        row("Spaces    "@, count_text(s), colored(Color::White)),
        row("Version   "@, s.platform_version, colored(Color::White)),
    ]
}

/// The last error, below an empty line.
pub open spec fn error_lines(e: Option<Seq<char>>) -> Seq<LineV> {
    match e {
        Some(m) => seq![blank(), row("Error     "@, m, colored(Color::Red))],
        None => Seq::empty(),
    }
}

/// All that is shown.
pub open spec fn panel(v: TuiV) -> Seq<LineV> {
    session_lines(v) + error_lines(v.last_error) + seq![
        blank(),
        whole("  s to close"@, colored(Color::DarkGray)),
    ]
}

// ───────────────────────── building ─────────────────────────

fn labelled(label: &str, value: &str, style: Style) -> (r: Line)
    ensures
        r@ == row(label@, value@, style),
{
    Line::pair(Span::owned(text::join2("  ", label), theme::dim()), Span::styled(value, style))
}

fn status_row(c: ConnectionStatus) -> (r: Line)
    ensures
        r@ == row("Status    "@, status_text(c), status_style(c)),
{
    match c {
        ConnectionStatus::Connected => labelled(
            "Status    ",
            text::join3("●", " ", "Connected").as_str(),
            theme::connection(true),
        ),
        ConnectionStatus::Connecting => labelled(
            "Status    ",
            text::join3("◌", " ", "Connecting...").as_str(),
            theme::muted(),
        ),
        ConnectionStatus::Reconnecting(_) => labelled(
            "Status    ",
            text::join3("◌", " ", "Reconnecting").as_str(),
            theme::connection(false),
        ),
        ConnectionStatus::Disconnected => labelled(
            "Status    ",
            text::join3("○", " ", "Disconnected").as_str(),
            theme::connection(false),
        ),
    }
}

fn counts(spaces: usize, rooms: usize, dms: usize) -> (r: String)
    ensures
        r@ == decimal(spaces as nat) + " ("@ + decimal(rooms as nat) + " rooms, "@ + decimal(
            dms as nat,
        ) + " DMs)"@,
{
    let a = text::show(spaces as u64);
    let b = text::show(rooms as u64);
    let c = text::show(dms as u64);
    let head = text::join3(a.as_str(), " (", b.as_str());
    let mid = text::join3(head.as_str(), " rooms, ", c.as_str());
    text::join2(mid.as_str(), " DMs)")
}

/// What is shown in the panel with the details; nothing where it is closed.
pub fn view(state: &TuiState) -> (r: Option<Vec<Line>>)
    ensures
        match r {
            Some(v) => state.show_status_panel && lines(v@) == panel(state@),
            None => !state.show_status_panel,
        },
{
    if !state.show_status_panel {
        return None;
    }
    let s = &state.session_info;
    let mut v = no_lines();
    push_line(&mut v, Line::blank());
    push_line(&mut v, labelled("User      ", s.self_user_name.as_str(), theme::bold()));
    push_line(&mut v, labelled("Email     ", s.self_user_email.as_str(), theme::text()));
    push_line(&mut v, Line::blank());
    push_line(&mut v, labelled("Auth      ", s.auth_mode.as_str(), theme::text()));
    push_line(&mut v, status_row(state.connections[0]));
    let xsrf: &str = if s.xsrf_present {
        "present"
    } else {
        "missing"
    };
    push_line(&mut v, labelled("XSRF      ", xsrf, theme::connection(s.xsrf_present)));
    push_line(&mut v, labelled("Events    ", s.browser_channel.as_str(), theme::text()));
    push_line(&mut v, Line::blank());
    let count = counts(s.total_spaces, s.total_rooms, s.total_dms);
    push_line(&mut v, labelled("Spaces    ", count.as_str(), theme::text()));
    push_line(&mut v, labelled("Version   ", s.platform_version.as_str(), theme::text()));
    proof {
        assert(lines(v@) =~= session_lines(state@));
    }
    match &state.last_error {
        Some(e) => {
            push_line(&mut v, Line::blank());
            push_line(&mut v, labelled("Error     ", e.as_str(), theme::fg(theme::STATUS_ERR)));
        },
        None => {},
    }
    push_line(&mut v, Line::blank());
    push_line(&mut v, Line::whole("  s to close", theme::dim()));
    proof {
        assert(lines(v@) =~= panel(state@));
    }
    Some(v)
}

} // verus!
