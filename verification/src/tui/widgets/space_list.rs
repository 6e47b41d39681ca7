//! The spaces, service by service.
//!
//! ```text
//!   Google Chat
//!   ● team-eng                [3]
//!     general
//!
//!   Slack
//!     ops-alerts              [1]
//! ```
use vstd::prelude::*;

use crate::store::{spaces_of, StoreRead};
use crate::text;
use crate::text::{decimal, utf8_size, within};
use crate::tui::line::{
    blank, line, lines, no_lines, no_spans, push_line, push_span, raw, span, spans, whole, Line,
    LineV, Span,
};
use crate::tui::state::TuiState;
use crate::tui::theme;
use crate::tui::theme::{colored, strong, unstyled, Color, Style};
use crate::types::ids::{PlatformId, SpaceId};
use crate::types::space::{Space, SpaceV};

verus! {

broadcast use vstd::string::group_string_axioms;

// ───────────────────────── the model ─────────────────────────

/// The name of a service, in its colour.
pub open spec fn platform_line(p: PlatformId) -> LineV {
    match p {
        PlatformId::GoogleChat => line(
            seq![raw("  "@), span("Google Chat"@, colored(Color::Cyan))],
        ),
        PlatformId::Slack => line(seq![raw("  "@), span("Slack"@, colored(Color::Magenta))]),
    }
}

/// What of a name fits in that many bytes: all of it, or a beginning and dots.
pub open spec fn shortened(name: Seq<char>, room: nat) -> Seq<char> {
    if utf8_size(name) > room {
        within(
            name,
            if room == 0 {
                0
            } else {
                (room - 1) as nat
            },
        ) + "…"@
    } else {
        name
    }
}

/// The room for a name in a list that is `width` wide.
pub open spec fn name_room(width: u16) -> nat {
    if width >= 8 {
        (width - 8) as nat
    } else {
        0
    }
}

/// A space in the list. The open one has a dot, the one under the cursor another ground.
pub open spec fn space_line(s: SpaceV, open: bool, under_cursor: bool, width: u16) -> LineV {
    let pieces = seq![
        if open {
            span("  "@ + "●"@ + " "@, strong(Color::Cyan))
        } else {
            span("  "@ + " "@ + " "@, colored(Color::DarkGray))
        },
        span(
            shortened(s.name, name_room(width)),
            if open || under_cursor {
                strong(Color::Cyan)
            } else {
                colored(Color::White)
            },
        ),
    ];
    let counted = if s.unread_count > 0 {
        pieces.push(span(" ["@ + decimal(s.unread_count as nat) + "]"@, strong(Color::Yellow)))
    } else {
        pieces
    };
    let all = if s.typing_users.len() > 0 {
        counted.push(span(" …"@, colored(Color::Gray)))
    } else {
        counted
    };
    LineV {
        spans: all,
        style: if under_cursor && !open {
            Style { fg: None, bg: Some(Color::DarkGray), bold: false }
        } else {
            unstyled()
        },
    }
}

/// The spaces one below the other; where another service begins, its name, below an empty
/// line unless it is the first.
pub open spec fn space_lines(
    s: Seq<SpaceV>,
    active: Option<SpaceId>,
    cursor: int,
    width: u16,
) -> Seq<LineV>
    decreases s.len(),
{
    if s.len() == 0 {
        Seq::empty()
    } else {
        let i = s.len() - 1;
        let before = space_lines(s.drop_last(), active, cursor, width);
        let headed = if i == 0 {
            before.push(platform_line(s[i].platform))
        } else if s[i - 1].platform != s[i].platform {
            before.push(blank()).push(platform_line(s[i].platform))
        } else {
            before
        };
        headed.push(space_line(s[i], active == Some(s[i].id), i == cursor, width))
    }
}

/// All that is shown in a list that is `width` wide.
pub open spec fn list_lines(
    s: Seq<SpaceV>,
    active: Option<SpaceId>,
    cursor: int,
    width: u16,
) -> Seq<LineV> {
    if s.len() == 0 {
        seq![
            blank(),
            whole("  No spaces yet"@, colored(Color::Gray)),
            whole("  Waiting for sync…"@, colored(Color::DarkGray)),
        ]
    } else {
        space_lines(s, active, cursor, width)
    }
}

// ───────────────────────── building ─────────────────────────

fn platform_header(p: PlatformId) -> (r: Line)
    ensures
        r@ == platform_line(p),
{
    match p {
        PlatformId::GoogleChat => Line::pair(
            Span::raw("  "),
            Span::styled("Google Chat", theme::fg(theme::PLATFORM_GCHAT)),
        ),
        PlatformId::Slack => Line::pair(
            Span::raw("  "),
            Span::styled("Slack", theme::fg(theme::PLATFORM_SLACK)),
        ),
    }
}

/// What of a name fits in a list that is `width` wide.
pub fn shorten(name: &str, width: u16) -> (r: String)
    ensures
        r@ == shortened(name@, name_room(width)),
{
    let room: usize = if width >= 8 {
        (width - 8) as usize
    } else {
        0
    };
    if text::size_of(name) > room {
        let keep: usize = if room == 0 {
            0
        } else {
            room - 1
        };
        let start = text::cut_bytes(name, keep);
        text::join2(start.as_str(), "…")
    } else {
        name.to_owned()
    }
}

fn space_row(s: &Space, open: bool, under_cursor: bool, width: u16) -> (r: Line)
    ensures
        r@ == space_line(s@, open, under_cursor, width),
{
    let mut pieces = no_spans();
    if open {
        push_span(&mut pieces, Span::owned(text::join3("  ", "●", " "), theme::active()));
    } else {
        push_span(&mut pieces, Span::owned(text::join3("  ", " ", " "), theme::dim()));
    }
    let style = if open || under_cursor {
        theme::space_selected()
    } else {
        theme::text()
    };
    push_span(&mut pieces, Span::owned(shorten(s.name.as_str(), width), style));
    if s.unread_count > 0 {
        let n = text::show(s.unread_count as u64);
        push_span(&mut pieces, Span::owned(text::join3(" [", n.as_str(), "]"), theme::unread()));
    }
    if s.typing_users.len() > 0 {
        push_span(&mut pieces, Span::styled(" …", theme::muted()));
    }
    let ground = if under_cursor && !open {
        Style { fg: None, bg: Some(theme::HIGHLIGHT_BG), bold: false }
    } else {
        theme::plain()
    };
    let r = Line { spans: pieces, style: ground };
    proof {
        assert(r@.spans =~= space_line(s@, open, under_cursor, width).spans);
    }
    r
}

/// What is shown in a list of spaces that is `width` wide.
pub fn view<S: StoreRead>(store: &S, state: &TuiState, width: u16) -> (r: Vec<Line>)
    requires
        store.sound(),
    ensures
        lines(r@) == list_lines(
            spaces_of(store.known()),
            state.active_space,
            state.space_cursor as int,
            width,
        ),
{
    let it = store.spaces_sorted();
    let ghost ss = it@;
    let all = it.collect();
    proof {
        assert(all@.len() == ss.len());
        assert forall|i: int| 0 <= i < ss.len() implies (#[trigger] all@[i])@ == ss[i] by {
            assert(all@.map_values(|s: &Space| s@)[i] == ss[i]);
        }
    }
    let active = state.active_space;
    let cursor: usize = state.space_cursor;
    let mut out = no_lines();
    let mut i: usize = 0;
    proof {
        assert(ss.take(0) =~= Seq::<SpaceV>::empty());
    }
    while i < all.len()
        invariant
            i <= all@.len(),
            all@.len() == ss.len(),
            forall|j: int| 0 <= j < ss.len() ==> (#[trigger] all@[j])@ == ss[j],
            lines(out@) == space_lines(ss.take(i as int), active, cursor as int, width),
        decreases all@.len() - i,
    {
        let s = all[i];
        proof {
            assert(ss.take(i + 1).drop_last() =~= ss.take(i as int));
            assert(all@[i as int]@ == ss[i as int]);
        }
        if i == 0 {
            push_line(&mut out, platform_header(s.platform));
        } else {
            let last = all[i - 1];
            proof {
                assert(all@[i - 1]@ == ss[i - 1]);
            }
            if last.platform != s.platform {
                push_line(&mut out, Line::blank());
                push_line(&mut out, platform_header(s.platform));
            }
        }
        let open: bool = match active {
            Some(id) => id == s.id,
            None => false,
        };
        push_line(&mut out, space_row(s, open, i == cursor, width));
        i += 1;
    }
    proof {
        assert(ss.take(i as int) =~= ss);
    }
    if all.len() == 0 {
        push_line(&mut out, Line::blank());
        push_line(&mut out, Line::whole("  No spaces yet", theme::muted()));
        push_line(&mut out, Line::whole("  Waiting for sync…", theme::dim()));
        proof {
            assert(lines(out@) =~= list_lines(ss, active, cursor as int, width));
        }
    }
    out
}

// ───────────────────────── laws ─────────────────────────

/// There is a line for each space at the least, and no more than three.
pub proof fn law_each_space_has_its_line(
    s: Seq<SpaceV>,
    active: Option<SpaceId>,
    cursor: int,
    width: u16,
)
    ensures
        s.len() <= space_lines(s, active, cursor, width).len() <= 3 * s.len(),
    decreases s.len(),
{
    if s.len() > 0 {
        law_each_space_has_its_line(s.drop_last(), active, cursor, width);
    }
}

/// A name is not cut where it fits, and what is shown of a longer one takes no more bytes
/// than there is room for, but for the dots.
pub proof fn law_names_fit(name: Seq<char>, room: nat)
    ensures
        utf8_size(name) <= room ==> shortened(name, room) == name,
        utf8_size(name) > room ==> shortened(name, room).last() == "…"@.last() && utf8_size(
            shortened(name, room).drop_last(),
        ) <= room,
{
    if utf8_size(name) > room {
        let keep: nat = if room == 0 {
            0
        } else {
            (room - 1) as nat
        };
        text::lemma_within_is_beginning(name, keep);
        reveal_strlit("…");
        assert(shortened(name, room).drop_last() =~= within(name, keep));
    }
}

} // verus!
