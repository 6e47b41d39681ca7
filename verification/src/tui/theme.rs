//! The look of the window: few colours, on a base of white and grey.
use vstd::prelude::*;

use crate::text;

verus! {

/// A colour of the terminal.
#[derive(Copy, Clone, Debug, PartialEq, Eq, Structural)]
pub enum Color {
    Black,
    White,
    Gray,
    DarkGray,
    Cyan,
    Magenta,
    Green,
    Yellow,
    Red,
}

/// How a piece of text looks. What is not said is as the terminal has it.
#[derive(Copy, Clone, Debug, PartialEq, Eq, Structural)]
pub struct Style {
    pub fg: Option<Color>,
    pub bg: Option<Color>,
    pub bold: bool,
}

/// What is said.
pub const FG: Color = Color::White;

/// What stands back.
pub const FG_DIM: Color = Color::DarkGray;

/// Hints.
pub const FG_MUTED: Color = Color::Gray;

/// Lines between areas.
pub const BORDER: Color = Color::DarkGray;

/// What is chosen.
pub const ACCENT: Color = Color::Cyan;

/// The ground of the line under the cursor.
pub const HIGHLIGHT_BG: Color = Color::DarkGray;

/// All is well.
pub const STATUS_OK: Color = Color::Green;

/// Something wants to be seen.
pub const STATUS_WARN: Color = Color::Yellow;

/// Something is wrong.
pub const STATUS_ERR: Color = Color::Red;

/// Google Chat.
pub const PLATFORM_GCHAT: Color = Color::Cyan;

/// Slack.
pub const PLATFORM_SLACK: Color = Color::Magenta;

pub open spec fn colored(fg: Color) -> Style {
    Style { fg: Some(fg), bg: None, bold: false }
}

pub open spec fn strong(fg: Color) -> Style {
    Style { fg: Some(fg), bg: None, bold: true }
}

pub open spec fn unstyled() -> Style {
    Style { fg: None, bg: None, bold: false }
}

/// Text in a colour.
pub fn fg(color: Color) -> (r: Style)
    ensures
        r == colored(color),
{
    Style { fg: Some(color), bg: None, bold: false }
}

/// Bold text in a colour.
pub fn bold_fg(color: Color) -> (r: Style)
    ensures
        r == strong(color),
{
    Style { fg: Some(color), bg: None, bold: true }
}

/// Text as the terminal has it.
pub fn plain() -> (r: Style)
    ensures
        r == unstyled(),
{
    Style { fg: None, bg: None, bold: false }
}

/// What is said.
pub fn text() -> (r: Style)
    ensures
        r == colored(Color::White),
{
    fg(FG)
}

/// What stands back, such as times.
pub fn dim() -> (r: Style)
    ensures
        r == colored(Color::DarkGray),
{
    fg(FG_DIM)
}

/// Hints.
pub fn muted() -> (r: Style)
    ensures
        r == colored(Color::Gray),
{
    fg(FG_MUTED)
}

/// What stands out, such as names.
pub fn bold() -> (r: Style)
    ensures
        r == strong(Color::White),
{
    bold_fg(FG)
}

/// What is chosen.
pub fn active() -> (r: Style)
    ensures
        r == strong(Color::Cyan),
{
    bold_fg(ACCENT)
}

/// What has not been read.
pub fn unread() -> (r: Style)
    ensures
        r == strong(Color::Yellow),
{
    bold_fg(STATUS_WARN)
}

/// The line at the bottom.
pub fn status_bar() -> (r: Style)
    ensures
        r == (Style { fg: Some(Color::Gray), bg: Some(Color::Black), bold: false }),
{
    Style { fg: Some(FG_MUTED), bg: Some(Color::Black), bold: false }
}

/// The name of the mode of the keys.
pub open spec fn badge(mode: Seq<char>) -> Style {
    if mode == "INSERT"@ {
        Style { fg: Some(Color::Black), bg: Some(Color::Cyan), bold: true }
    } else if mode == "NORMAL"@ {
        strong(Color::DarkGray)
    } else {
        colored(Color::Gray)
    }
}

/// The name of the mode of the keys.
pub fn mode_badge(mode: &str) -> (r: Style)
    ensures
        r == badge(mode@),
{
    if text::same(mode, "INSERT") {
        Style { fg: Some(Color::Black), bg: Some(ACCENT), bold: true }
    } else if text::same(mode, "NORMAL") {
        bold_fg(FG_DIM)
    } else {
        fg(FG_MUTED)
    }
}

pub open spec fn link(connected: bool) -> Style {
    if connected {
        colored(Color::Green)
    } else {
        colored(Color::Red)
    }
}

/// The state of a connection.
pub fn connection(connected: bool) -> (r: Style)
    ensures
        r == link(connected),
{
    if connected {
        fg(STATUS_OK)
    } else {
        fg(STATUS_ERR)
    }
}

/// The sign before the input.
pub fn prompt() -> (r: Style)
    ensures
        r == strong(Color::Cyan),
{
    bold_fg(ACCENT)
}

/// Lines between areas.
pub fn border() -> (r: Style)
    ensures
        r == colored(Color::DarkGray),
{
    fg(BORDER)
}

/// The chosen space.
pub fn space_selected() -> (r: Style)
    ensures
        r == strong(Color::Cyan),
{
    bold_fg(ACCENT)
}

/// Reactions.
pub fn reaction() -> (r: Style)
    ensures
        r == colored(Color::Gray),
{
    fg(FG_MUTED)
}

/// The head of a list.
pub fn section_header() -> (r: Style)
    ensures
        r == strong(Color::DarkGray),
{
    bold_fg(FG_DIM)
}

} // verus!
