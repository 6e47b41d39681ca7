//! The areas of the window.
use vstd::prelude::*;

verus! {

/// How the window is divided.
#[derive(Copy, Clone, Debug, PartialEq, Eq, Structural)]
pub enum LayoutMode {
    /// The spaces beside the messages.
    Standard,
    /// The messages alone.
    Focused,
    /// Two conversations; not there yet, and shown as the standard.
    Split,
    /// The messages beside a thread.
    ThreadView,
}

/// A rectangle of the terminal.
#[derive(Copy, Clone, Debug, PartialEq, Eq, Structural)]
pub struct Area {
    pub x: u16,
    pub y: u16,
    pub width: u16,
    pub height: u16,
}

/// How large a part should be.
#[derive(Copy, Clone, Debug, PartialEq, Eq, Structural)]
pub enum Limit {
    Min(u16),
    Length(u16),
    Percentage(u16),
}

/// The areas of the window.
#[derive(Copy, Clone, Debug, PartialEq, Eq, Structural)]
pub struct LayoutAreas {
    pub space_list: Option<Area>,
    pub messages: Area,
    pub members: Option<Area>,
    pub thread: Option<Area>,
    pub status: Area,
    pub input: Area,
}

/// The parts lie across the whole of the other direction: rows are as wide as the area,
/// columns as high, and they begin where it begins.
pub open spec fn parts_of(parts: Seq<Area>, vertical: bool, count: nat, area: Area) -> bool {
    &&& parts.len() == count
    &&& forall|i: int|
        0 <= i < count ==> if vertical {
            (#[trigger] parts[i]).x == area.x && parts[i].width == area.width
        } else {
            parts[i].y == area.y && parts[i].height == area.height
        }
}

/// Where a rectangle begins, from the top or from the left.
pub open spec fn start(a: Area, vertical: bool) -> int {
    if vertical {
        a.y as int
    } else {
        a.x as int
    }
}

/// How high or how wide a rectangle is.
pub open spec fn extent(a: Area, vertical: bool) -> int {
    if vertical {
        a.height as int
    } else {
        a.width as int
    }
}

/// What a limit asks for at the least, of a part whose size does not go by the whole.
pub open spec fn asked(l: Limit) -> int {
    match l {
        Limit::Min(n) => n as int,
        Limit::Length(n) => n as int,
        Limit::Percentage(_) => 0,
    }
}

/// What the limits ask for together.
pub open spec fn asked_in_all(limits: Seq<Limit>) -> int
    decreases limits.len(),
{
    if limits.len() == 0 {
        0
    } else {
        asked_in_all(limits.drop_last()) + asked(limits.last())
    }
}

/// The area lies on the terminal, and no limit is a share of it.
pub open spec fn measured(vertical: bool, limits: Seq<Limit>, area: Area) -> bool {
    &&& start(area, vertical) + extent(area, vertical) <= 65535
    &&& forall|i: int|
        0 <= i < limits.len() ==> !(#[trigger] limits[i] is Percentage) && asked(limits[i]) <= 32767
}

/// The area lies on the terminal, no limit is a share of it, and all can be met.
pub open spec fn can_be_met(vertical: bool, limits: Seq<Limit>, area: Area) -> bool {
    &&& measured(vertical, limits, area)
    &&& asked_in_all(limits) <= extent(area, vertical)
}

/// The parts follow one another from the start of the area.
pub open spec fn chained(parts: Seq<Area>, vertical: bool, area: Area) -> bool {
    &&& parts.len() > 0 ==> start(parts[0], vertical) == start(area, vertical)
    &&& forall|i: int, j: int|
        0 <= i && j == i + 1 && j < parts.len() ==> start(#[trigger] parts[j], vertical) == start(
            #[trigger] parts[i],
            vertical,
        ) + extent(parts[i], vertical)
}

/// The parts are as large as asked and follow one another from the start of the area.
pub open spec fn met(parts: Seq<Area>, vertical: bool, limits: Seq<Limit>, area: Area) -> bool {
    &&& forall|i: int|
        0 <= i < limits.len() ==> match limits[i] {
            Limit::Length(n) => extent(#[trigger] parts[i], vertical) == n,
            Limit::Min(n) => extent(parts[i], vertical) >= n,
            Limit::Percentage(_) => true,
        }
    &&& chained(parts, vertical, area)
}

/// One limit, and no other, is a least size: its part takes what the others leave.
pub open spec fn one_grows(limits: Seq<Limit>) -> bool {
    exists|i: int|
        0 <= i < limits.len() && #[trigger] limits[i] is Min && forall|j: int|
            0 <= j < limits.len() && j != i ==> limits[j] is Length
}

/// Up to three limits, one of them a least size, ask for more than there is.
pub open spec fn cramped(vertical: bool, limits: Seq<Limit>, area: Area) -> bool {
    &&& measured(vertical, limits, area)
    &&& one_grows(limits) && limits.len() <= 3
    &&& asked_in_all(limits) > extent(area, vertical)
}

/// The parts follow one another and fill the area. None is larger than asked, and the one with
/// the least size has that size, or the whole area where that is smaller.
pub open spec fn pressed(parts: Seq<Area>, vertical: bool, limits: Seq<Limit>, area: Area) -> bool {
    &&& chained(parts, vertical, area)
    &&& filled(parts, vertical, area)
    &&& forall|i: int|
        0 <= i < limits.len() ==> match limits[i] {
            Limit::Length(n) => extent(#[trigger] parts[i], vertical) <= n,
            Limit::Min(n) => extent(parts[i], vertical) == if n <= extent(area, vertical) {
                n as int
            } else {
                extent(area, vertical)
            },
            Limit::Percentage(_) => true,
        }
}

/// The last part ends where the area ends.
pub open spec fn filled(parts: Seq<Area>, vertical: bool, area: Area) -> bool {
    start(parts.last(), vertical) + extent(parts.last(), vertical) == start(area, vertical)
        + extent(area, vertical)
}

/// The area lies on the terminal, and is to be divided in two halves.
pub open spec fn halves(vertical: bool, limits: Seq<Limit>, area: Area) -> bool {
    &&& start(area, vertical) + extent(area, vertical) <= 65535
    &&& limits == seq![Limit::Percentage(50), Limit::Percentage(50)]
}

/// Two parts that follow one another and fill the area; where its size is odd, the first
/// one is larger by one.
pub open spec fn halved(parts: Seq<Area>, vertical: bool, area: Area) -> bool {
    &&& parts.len() == 2
    &&& start(parts[0], vertical) == start(area, vertical)
    &&& extent(parts[0], vertical) == (extent(area, vertical) + 1) / 2
    &&& start(parts[1], vertical) == start(area, vertical) + (extent(area, vertical) + 1) / 2
    &&& extent(parts[1], vertical) == extent(area, vertical) / 2
}

/// The area lies on the terminal, and two halves of it are asked for beside a first part
/// that takes no more than one of them.
pub open spec fn beside_halves(vertical: bool, limits: Seq<Limit>, area: Area) -> bool {
    &&& start(area, vertical) + extent(area, vertical) <= 65535
    &&& limits.len() == 3
    &&& limits[0] is Length && 2 * asked(limits[0]) <= extent(area, vertical)
    &&& limits[1] == Limit::Percentage(50) && limits[2] == Limit::Percentage(50)
}

/// Three parts that follow one another and fill the area: the first one as large as asked,
/// and neither of the others larger than the half of the area.
pub open spec fn first_met(parts: Seq<Area>, vertical: bool, first: int, area: Area) -> bool {
    let half = (extent(area, vertical) + 1) / 2;
    &&& parts.len() == 3
    &&& start(parts[0], vertical) == start(area, vertical)
    &&& extent(parts[0], vertical) == first
    &&& start(parts[1], vertical) == start(area, vertical) + first
    &&& start(parts[2], vertical) == start(parts[1], vertical) + extent(parts[1], vertical)
    &&& filled(parts, vertical, area)
    &&& extent(parts[1], vertical) <= half && extent(parts[2], vertical) <= half
}

/// `Layout::split` of ratatui, of a layout without margins and with nothing between its
/// parts. There is one part for each limit, and each lies across the whole of the other
/// direction. Where the limits can all be met they are, and the parts follow one another;
/// where just one of them is a least size its part takes the rest. Where a least size and at
/// most two lengths ask for too much, the parts still follow one another and fill the area,
/// and the least size is kept first, as the stronger limit; how the lengths share what is left
/// is not claimed, but that none is exceeded. Two halves meet in the middle, which is rounded
/// up. Beside two halves a length is kept, as the stronger limit, and the halves share what is
/// left; the outside crate calls their shares indeterminate, and nothing is claimed of them
/// but that neither is more than a half. Nothing is claimed of the sizes along the direction
/// with other shares of the area, or where the limits cannot all be met otherwise.
#[verifier::external_body]
fn split_area(vertical: bool, limits: &Vec<Limit>, area: Area) -> (r: Vec<Area>)
    ensures
        parts_of(r@, vertical, limits@.len(), area),
        can_be_met(vertical, limits@, area) ==> met(r@, vertical, limits@, area),
        can_be_met(vertical, limits@, area) && one_grows(limits@) ==> filled(r@, vertical, area),
        cramped(vertical, limits@, area) ==> pressed(r@, vertical, limits@, area),
        halves(vertical, limits@, area) ==> halved(r@, vertical, area),
        beside_halves(vertical, limits@, area) ==> first_met(
            r@,
            vertical,
            asked(limits@[0]),
            area,
        ),
{
    let rect = ratatui::layout::Rect { x: area.x, y: area.y, width: area.width, height: area.height };
    let wanted = limits.iter().map(|l| match l {
        Limit::Min(n) => ratatui::layout::Constraint::Min(*n),
        Limit::Length(n) => ratatui::layout::Constraint::Length(*n),
        Limit::Percentage(n) => ratatui::layout::Constraint::Percentage(*n),
    });
    let layout = if vertical {
        ratatui::layout::Layout::vertical(wanted)
    } else {
        ratatui::layout::Layout::horizontal(wanted)
    };
    layout.split(rect).iter().map(|p| Area { x: p.x, y: p.y, width: p.width, height: p.height }).collect()
}

/// The rows of the window: the content, the line at the bottom, and the input.
pub open spec fn rows_wanted() -> Seq<Limit> {
    seq![Limit::Min(4), Limit::Length(1), Limit::Length(2)]
}

/// The columns of a content that is `width` wide; none where it is not divided. A narrow
/// content has no list of spaces.
pub open spec fn columns_wanted(mode: LayoutMode, width: u16) -> Seq<Limit> {
    match mode {
        LayoutMode::Focused => Seq::empty(),
        LayoutMode::ThreadView => if width >= 80 {
            seq![Limit::Length(24), Limit::Percentage(50), Limit::Percentage(50)]
        } else {
            seq![Limit::Percentage(50), Limit::Percentage(50)]
        },
        _ => if width >= 60 {
            seq![Limit::Length(24), Limit::Min(30)]
        } else {
            Seq::empty()
        },
    }
}

/// The rows of the window.
pub fn rows() -> (r: Vec<Limit>)
    ensures
        r@ == rows_wanted(),
{
    let mut v: Vec<Limit> = Vec::new();
    v.push(Limit::Min(4));
    v.push(Limit::Length(1));
    v.push(Limit::Length(2));
    proof {
        assert(v@ =~= rows_wanted());
    }
    v
}

/// The columns of a content that is `width` wide; none where it is not divided.
pub fn columns(mode: LayoutMode, width: u16) -> (r: Vec<Limit>)
    ensures
        r@ == columns_wanted(mode, width),
{
    let mut v: Vec<Limit> = Vec::new();
    match mode {
        LayoutMode::Focused => {},
        LayoutMode::ThreadView => {
            if width >= 80 {
                v.push(Limit::Length(24));
            }
            v.push(Limit::Percentage(50));
            v.push(Limit::Percentage(50));
        },
        _ => {
            if width >= 60 {
                v.push(Limit::Length(24));
                v.push(Limit::Min(30));
            }
        },
    }
    proof {
        assert(v@ =~= columns_wanted(mode, width));
    }
    v
}

/// What is shown where: in the content, or in the columns that it is divided in.
pub open spec fn placed(
    mode: LayoutMode,
    content: Area,
    cols: Seq<Area>,
    status: Area,
    input: Area,
) -> LayoutAreas {
    let whole = LayoutAreas {
        space_list: None,
        messages: content,
        members: None,
        thread: None,
        status,
        input,
    };
    match mode {
        LayoutMode::Focused => whole,
        LayoutMode::ThreadView => if content.width >= 80 {
            LayoutAreas {
                space_list: Some(cols[0]),
                messages: cols[1],
                thread: Some(cols[2]),
                ..whole
            }
        } else {
            LayoutAreas { messages: cols[0], thread: Some(cols[1]), ..whole }
        },
        _ => if content.width >= 60 {
            LayoutAreas { space_list: Some(cols[0]), messages: cols[1], ..whole }
        } else {
            whole
        },
    }
}

/// What is shown where, given the columns that the content was divided in.
pub fn place(mode: LayoutMode, content: Area, cols: &Vec<Area>, status: Area, input: Area) -> (r:
    LayoutAreas)
    requires
        cols@.len() == columns_wanted(mode, content.width).len(),
    ensures
        r == placed(mode, content, cols@, status, input),
{
    let mut space_list: Option<Area> = None;
    let mut messages: Area = content;
    let mut thread: Option<Area> = None;
    match mode {
        LayoutMode::Focused => {},
        LayoutMode::ThreadView => {
            if content.width >= 80 {
                space_list = Some(cols[0]);
                messages = cols[1];
                thread = Some(cols[2]);
            } else {
                messages = cols[0];
                thread = Some(cols[1]);
            }
        },
        _ => {
            if content.width >= 60 {
                space_list = Some(cols[0]);
                messages = cols[1];
            }
        },
    }
    LayoutAreas { space_list, messages, members: None, thread, status, input }
}

proof fn lemma_rows(area: Area)
    requires
        area.y + area.height <= 65535,
    ensures
        measured(true, rows_wanted(), area),
        asked_in_all(rows_wanted()) == 7,
        one_grows(rows_wanted()),
{
    let w = rows_wanted();
    reveal_with_fuel(asked_in_all, 4);
    assert(w.drop_last().drop_last().drop_last() =~= Seq::<Limit>::empty());
    assert(w[0] is Min);
}

proof fn lemma_columns(content: Area)
    requires
        content.x + content.width <= 65535,
        content.width >= 60,
    ensures
        can_be_met(false, columns_wanted(LayoutMode::Standard, content.width), content),
        one_grows(columns_wanted(LayoutMode::Standard, content.width)),
{
    let w = columns_wanted(LayoutMode::Standard, content.width);
    reveal_with_fuel(asked_in_all, 3);
    assert(w.drop_last().drop_last() =~= Seq::<Limit>::empty());
    assert(w[1] is Min);
}

/// The areas of a window of this size. The content, the line at the bottom and the input lie
/// one below the other and fill the window, and a low window keeps the content before the
/// other two. Those two are always as wide as the window; there is a list of spaces unless the
/// window is too narrow or the messages are shown alone, a thread where the window shows one,
/// and never a list of members.
pub fn compute_areas(mode: LayoutMode, area: Area) -> (r: LayoutAreas)
    ensures
        r.status.x == area.x && r.status.width == area.width,
        r.input.x == area.x && r.input.width == area.width,
        r.members is None,
        r.thread is Some <==> mode == LayoutMode::ThreadView,
        r.space_list is Some <==> match mode {
            LayoutMode::Focused => false,
            LayoutMode::ThreadView => area.width >= 80,
            _ => area.width >= 60,
        },
        area.y + area.height <= 65535 ==> r.messages.y == area.y && r.status.y == r.messages.y
            + r.messages.height && r.input.y == r.status.y + r.status.height && r.input.y
            + r.input.height == area.y + area.height,
        area.y + area.height <= 65535 && area.height >= 7 ==> r.status.height == 1 && r.input.height
            == 2,
        area.y + area.height <= 65535 && area.height < 7 ==> r.status.height <= 1 && r.input.height
            <= 2 && r.messages.height == if area.height < 4 {
            area.height
        } else {
            4u16
        },
        area.x + area.width <= 65535 && area.width >= 60 && (mode == LayoutMode::Standard || mode
            == LayoutMode::Split) ==> r.space_list == Some(
            (Area { x: area.x, y: r.messages.y, width: 24, height: r.messages.height }),
        ) && r.messages.x == area.x + 24 && r.messages.width + 24 == area.width,
        area.x + area.width <= 65535 && area.width < 80 && mode == LayoutMode::ThreadView ==> {
            let middle = area.x + (area.width + 1) / 2;
            &&& r.messages.x == area.x && area.x + r.messages.width == middle
            &&& r.thread matches Some(t) && t.x == middle && t.x + t.width == area.x + area.width
                && t.y == r.messages.y && t.height == r.messages.height
        },
        area.x + area.width <= 65535 && area.width >= 80 && mode == LayoutMode::ThreadView ==> {
            &&& r.space_list == Some(
                (Area { x: area.x, y: r.messages.y, width: 24, height: r.messages.height }),
            )
            &&& r.messages.x == area.x + 24
            &&& r.thread matches Some(t) && t.x == r.messages.x + r.messages.width && t.x + t.width
                == area.x + area.width && t.y == r.messages.y && t.height == r.messages.height
        },
        area.x + area.width <= 65535 && area.width >= 80 && r.thread is Some ==> r.messages.width
            <= (area.width + 1) / 2 && r.thread->0.width <= (area.width + 1) / 2,
        exists|content: Area, cols: Seq<Area>|
            content.x == area.x && content.width == area.width && (columns_wanted(
                mode,
                area.width,
            ).len() > 0 ==> parts_of(
                cols,
                false,
                columns_wanted(mode, area.width).len(),
                content,
            )) && r == #[trigger] placed(mode, content, cols, r.status, r.input),
{
    let wanted_rows = rows();
    let parts = split_area(true, &wanted_rows, area);
    proof {
        if area.y + area.height <= 65535 {
            lemma_rows(area);
        }
    }
    let content = parts[0];
    let status = parts[1];
    let input = parts[2];
    let wanted = columns(mode, content.width);
    let cols = if wanted.len() > 0 {
        split_area(false, &wanted, content)
    } else {
        Vec::new()
    };
    proof {
        if content.x + content.width <= 65535 && content.width >= 60 {
            lemma_columns(content);
        }
    }
    let r = place(mode, content, &cols, status, input);
    proof {
        assert(r == placed(mode, content, cols@, r.status, r.input));
    }
    r
}

/// A window that shows two conversations is divided as the standard one.
pub proof fn law_split_is_standard(
    width: u16,
    content: Area,
    cols: Seq<Area>,
    status: Area,
    input: Area,
)
    ensures
        columns_wanted(LayoutMode::Split, width) == columns_wanted(LayoutMode::Standard, width),
        placed(LayoutMode::Split, content, cols, status, input) == placed(
            LayoutMode::Standard,
            content,
            cols,
            status,
            input,
        ),
{
}

} // verus!
