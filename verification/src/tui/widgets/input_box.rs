//! The line that is being written.
//!
//! ```text
//!  ❯ type your message here
//! ```
use vstd::prelude::*;

use crate::text;
use crate::tui::layout::Area;
use crate::tui::line::{line, span, Line, LineV, Span};
use crate::tui::state::{InputMode, InputV, TuiState, TuiV};
use crate::tui::theme;
use crate::tui::theme::{colored, strong, Color};

verus! {

broadcast use vstd::string::group_string_axioms;

/// What is shown where keys are commands.
pub open spec fn hint() -> LineV {
    line(
        seq![
            span(" ❯ "@, colored(Color::DarkGray)),
            span("press i to compose, q to quit"@, colored(Color::DarkGray)),
        ],
    )
}

/// What is shown where keys are text.
pub open spec fn written(i: InputV) -> LineV {
    if i.text().len() == 0 {
        line(
            seq![
                span(" ❯ "@, strong(Color::Cyan)),
                span("type a message…"@, colored(Color::DarkGray)),
            ],
        )
    } else {
        line(
            seq![
                span(" ❯ "@, strong(Color::Cyan)),
                span(i.before, colored(Color::White)),
                span(i.behind, colored(Color::White)),
            ],
        )
    }
}

/// What is shown.
pub open spec fn input_line(v: TuiV) -> LineV {
    match v.input_mode {
        InputMode::Normal => hint(),
        InputMode::Insert => written(v.input),
    }
}

/// The line that is being written.
pub fn view(state: &TuiState) -> (r: Line)
    requires
        state.wf(),
    ensures
        r@ == input_line(state@),
{
    match state.input_mode {
        InputMode::Normal => Line::pair(
            Span::styled(" ❯ ", theme::dim()),
            Span::styled("press i to compose, q to quit", theme::dim()),
        ),
        InputMode::Insert => {
            let (before, behind) = state.input.parts();
            if before.as_str().is_empty() && behind.as_str().is_empty() {
                Line::pair(
                    Span::styled(" ❯ ", theme::prompt()),
                    Span::styled("type a message…", theme::dim()),
                )
            } else {
                Line::triple(
                    Span::styled(" ❯ ", theme::prompt()),
                    Span::owned(before, theme::text()),
                    Span::owned(behind, theme::text()),
                )
            }
        },
    }
}

/// The column of the cursor: behind the prompt, which is three columns wide, and the bytes
/// before it. The terminal counts them in sixteen bits.
pub open spec fn column(area: Area, cursor: usize) -> int {
    area.x + 3 + cursor % 65536
}

/// Where the terminal shows the cursor, in an area for the line; nowhere where keys are
/// commands or where it would lie outside.
pub fn cursor_at(state: &TuiState, area: Area) -> (r: Option<(u16, u16)>)
    ensures
        match r {
            Some(p) => state.input_mode == InputMode::Insert && column(area, state.input.cursor)
                < area.x + area.width && p.0 == column(area, state.input.cursor) && p.1 == area.y,
            None => state.input_mode == InputMode::Normal || column(area, state.input.cursor)
                >= area.x + area.width || column(area, state.input.cursor) > 65535,
        },
{
    match state.input_mode {
        InputMode::Normal => None,
        InputMode::Insert => {
            let x: u32 = area.x as u32 + 3 + (state.input.cursor % 65536) as u32;
            if x < area.x as u32 + area.width as u32 && x <= 65535 {
                Some((x as u16, area.y))
            } else {
                None
            }
        },
    }
}

} // verus!
