//! The messages of a space.
//!
//! ```text
//!   Alice · 10:42
//!   Hey, has anyone looked at the change?
//!
//!   Bob · 10:44
//!   Looks good to me
//!   👍 2
//! ```
use vstd::prelude::*;

use crate::store::{messages_of, StoreRead, StoreV};
use crate::text;
use crate::text::decimal;
use crate::tui::line::{
    blank, line, lines, no_lines, no_spans, push_line, push_span, raw, span, spans, whole, Line,
    LineV, Span, SpanV,
};
use crate::tui::state::TuiState;
use crate::tui::theme;
use crate::tui::theme::{colored, strong, Color};
use crate::types::ids::{SpaceId, UserId};
use crate::types::message::{Emoji, EmojiV, Message, MessageV, Reaction, ReactionV};
use crate::types::message::reactions as reactions_of;
use crate::types::timestamp::{clock, Timestamp};

verus! {

broadcast use vstd::string::group_string_axioms;

// ───────────────────────── the model ─────────────────────────

/// The name that is shown of a user.
pub open spec fn shown_name(k: StoreV, id: UserId) -> Seq<char> {
    if k.users.dom().contains(id) {
        k.users[id].display_name
    } else {
        "unknown"@
    }
}

/// The time of day; a dash where there is no time.
pub open spec fn shown_time(t: Timestamp) -> Seq<char> {
    if t.0 / 1_000_000 == 0 {
        "—"@
    } else {
        clock((t.0 / 1_000_000) as nat)
    }
}

/// Who wrote a message, and when. The user's own name stands out.
pub open spec fn sender_line(m: MessageV, k: StoreV, me: Option<UserId>) -> LineV {
    line(
        seq![
            raw("  "@),
            span(
                shown_name(k, m.sender),
                if me == Some(m.sender) {
                    strong(Color::Cyan)
                } else {
                    strong(Color::White)
                },
            ),
            span(
                " · "@ + shown_time(m.timestamp) + if m.edit_timestamp is Some {
                    " (edited)"@
                } else {
                    ""@
                },
                colored(Color::DarkGray),
            ),
        ],
    )
}

/// A line of the text of a message.
pub open spec fn text_line(t: Seq<char>) -> LineV {
    line(seq![raw("  "@), span(t, colored(Color::White))])
}

/// The text of a message, line by line.
pub open spec fn text_lines(t: Seq<char>) -> Seq<LineV> {
    text::lines(t).map_values(|l: Seq<char>| text_line(l))
}

/// How an emoji is shown.
pub open spec fn shown_emoji(e: EmojiV) -> Seq<char> {
    match e {
        EmojiV::Unicode(s) => s,
        EmojiV::Custom { shortcode, .. } => shortcode,
    }
}

/// A reaction and how many users had it. It stands out where the user is one of them.
pub open spec fn shown_reaction(r: ReactionV) -> SpanV {
    span(
        shown_emoji(r.emoji) + " "@ + decimal(r.count as nat) + " "@,
        if r.includes_self {
            strong(Color::Cyan)
        } else {
            colored(Color::Gray)
        },
    )
}

/// The reactions to a message, in one line; none where there are none.
pub open spec fn reaction_lines(r: Seq<ReactionV>) -> Seq<LineV> {
    if r.len() == 0 {
        Seq::empty()
    } else {
        seq![line(seq![raw("  "@)] + r.map_values(|x: ReactionV| shown_reaction(x)))]
    }
}

/// All of a message.
pub open spec fn message_block(m: MessageV, k: StoreV, me: Option<UserId>) -> Seq<LineV> {
    seq![sender_line(m, k, me)] + text_lines(m.text) + reaction_lines(m.reactions)
}

/// The messages one below the other, with an empty line between them.
pub open spec fn message_blocks(ms: Seq<MessageV>, k: StoreV, me: Option<UserId>) -> Seq<LineV>
    decreases ms.len(),
{
    if ms.len() == 0 {
        Seq::empty()
    } else {
        message_blocks(ms.drop_last(), k, me) + if ms.len() > 1 {
            seq![blank()]
        } else {
            Seq::empty()
        } + message_block(ms.last(), k, me)
    }
}

/// The names of the users that are known.
pub open spec fn known_names(k: StoreV, ids: Seq<UserId>) -> Seq<Seq<char>>
    decreases ids.len(),
{
    if ids.len() == 0 {
        Seq::empty()
    } else if k.users.dom().contains(ids.last()) {
        known_names(k, ids.drop_last()).push(k.users[ids.last()].display_name)
    } else {
        known_names(k, ids.drop_last())
    }
}

/// Who is typing.
pub open spec fn typing_text(names: Seq<Seq<char>>) -> Seq<char> {
    if names.len() == 0 {
        "Someone is typing…"@
    } else if names.len() == 1 {
        names[0] + " is typing…"@
    } else if names.len() == 2 {
        names[0] + " and "@ + names[1] + " are typing…"@
    } else {
        names[0] + " and "@ + decimal((names.len() - 1) as nat) + " others are typing…"@
    }
}

/// Who is typing, below an empty line; nothing where nobody is.
pub open spec fn typing_lines(k: StoreV, space: SpaceId) -> Seq<LineV> {
    if k.spaces.dom().contains(space) && k.spaces[space].typing_users.len() > 0 {
        seq![
            blank(),
            line(
                seq![
                    raw("  "@),
                    span(
                        typing_text(known_names(k, k.spaces[space].typing_users)),
                        colored(Color::Gray),
                    ),
                ],
            ),
        ]
    } else {
        Seq::empty()
    }
}

/// The user who is signed in where the space is.
pub open spec fn me_in(k: StoreV, space: SpaceId) -> Option<UserId> {
    if k.self_users.dom().contains(space.platform) {
        Some(k.self_users[space.platform])
    } else {
        None
    }
}

/// All that is shown of a space with these messages.
pub open spec fn content_lines(ms: Seq<MessageV>, k: StoreV, space: SpaceId) -> Seq<LineV> {
    let all = message_blocks(ms, k, me_in(k, space)) + typing_lines(k, space);
    if all.len() == 0 {
        seq![blank(), whole("  No messages yet"@, colored(Color::Gray))]
    } else {
        all
    }
}

/// What is shown where no space is open.
pub open spec fn welcome_lines() -> Seq<LineV> {
    seq![
        blank(),
        blank(),
        whole("  tchat"@, strong(Color::White)),
        blank(),
        whole("  Terminal chat client"@, colored(Color::Gray)),
        whole("  Select a space to begin"@, colored(Color::DarkGray)),
        blank(),
        whole("  j/k  scroll    J/K  switch space"@, colored(Color::DarkGray)),
        whole("  i    compose   q    quit"@, colored(Color::DarkGray)),
        whole("  f    focus     t    threads"@, colored(Color::DarkGray)),
    ]
}

/// The name of a space, above its messages.
pub open spec fn title_of(k: StoreV, space: SpaceId) -> Seq<char> {
    " "@ + if k.spaces.dom().contains(space) {
        k.spaces[space].name
    } else {
        "unknown"@
    } + " "@
}

/// The number of lines above those that are shown: the last lines are, unless the user has
/// gone up from them.
pub open spec fn lines_above(total: nat, height: nat, up: nat) -> int {
    if total > height && total - height > up {
        total - height - up
    } else {
        0
    }
}

// ───────────────────────── building ─────────────────────────

/// The time of day; a dash where there is no time.
pub fn format_relative_time(t: Timestamp) -> (r: String)
    ensures
        r@ == shown_time(t),
{
    if t.as_secs() == 0 {
        "—".to_owned()
    } else {
        t.time_of_day()
    }
}

fn name_of<S: StoreRead>(store: &S, id: UserId) -> (r: String)
    requires
        store.sound(),
    ensures
        r@ == shown_name(store.known(), id),
{
    match store.user(id) {
        Some(u) => u.display_name.clone(),
        None => "unknown".to_owned(),
    }
}

fn sender<S: StoreRead>(m: &Message, store: &S, me: Option<UserId>) -> (r: Line)
    requires
        store.sound(),
    ensures
        r@ == sender_line(m@, store.known(), me),
{
    let own: bool = match me {
        Some(u) => u == m.sender,
        None => false,
    };
    let style = if own {
        theme::active()
    } else {
        theme::bold()
    };
    let time = format_relative_time(m.timestamp);
    let edited: &str = if m.edit_timestamp.is_some() {
        " (edited)"
    } else {
        ""
    };
    Line::triple(
        Span::raw("  "),
        Span::owned(name_of(store, m.sender), style),
        Span::owned(text::join3(" · ", time.as_str(), edited), theme::dim()),
    )
}

fn push_text(v: &mut Vec<Line>, t: &str)
    ensures
        lines(final(v)@) == lines(old(v)@) + text_lines(t@),
{
    let parts = text::split_lines(t);
    let ghost start = lines(v@);
    let ghost all = text_lines(t@);
    let mut i: usize = 0;
    proof {
        assert(lines(v@) =~= start + all.take(0));
    }
    while i < parts.len()
        invariant
            i <= parts@.len(),
            text::texts(parts@) == text::lines(t@),
            all == text_lines(t@),
            lines(v@) == start + all.take(i as int),
        decreases parts@.len() - i,
    {
        proof {
            assert(text::texts(parts@)[i as int] == parts@[i as int]@);
        }
        push_line(
            v,
            Line::pair(Span::raw("  "), Span::styled(parts[i].as_str(), theme::text())),
        );
        proof {
            assert(all.take(i + 1) =~= all.take(i as int).push(all[i as int]));
            assert(lines(v@) =~= start + all.take(i + 1));
        }
        i += 1;
    }
    proof {
        assert(text::texts(parts@).len() == parts@.len());
        assert(all.take(i as int) =~= all);
    }
}

fn reaction_span(r: &Reaction) -> (s: Span)
    ensures
        s@ == shown_reaction(r@),
{
    let emoji = match &r.emoji {
        Emoji::Unicode(s) => s.as_str(),
        Emoji::Custom { id, shortcode } => shortcode.as_str(),
    };
    let count = text::show(r.count as u64);
    let style = if r.includes_self {
        theme::active()
    } else {
        theme::reaction()
    };
    let head = text::join3(emoji, " ", count.as_str());
    Span::owned(text::join2(head.as_str(), " "), style)
}

fn push_reactions(v: &mut Vec<Line>, rs: &Vec<Reaction>)
    ensures
        lines(final(v)@) == lines(old(v)@) + reaction_lines(reactions_of(rs@)),
{
    let ghost model = reactions_of(rs@);
    if rs.len() == 0 {
        proof {
            assert(lines(v@) =~= lines(v@) + reaction_lines(model));
        }
        return;
    }
    let mut pieces = no_spans();
    push_span(&mut pieces, Span::raw("  "));
    let ghost shown = model.map_values(|x: ReactionV| shown_reaction(x));
    let ghost first = seq![raw("  "@)];
    proof {
        assert(spans(pieces@) =~= first + shown.take(0));
    }
    let mut i: usize = 0;
    while i < rs.len()
        invariant
            i <= rs@.len(),
            model == reactions_of(rs@),
            shown == model.map_values(|x: ReactionV| shown_reaction(x)),
            spans(pieces@) == first + shown.take(i as int),
        decreases rs@.len() - i,
    {
        push_span(&mut pieces, reaction_span(&rs[i]));
        proof {
            assert(shown[i as int] == shown_reaction(rs@[i as int]@));
            assert(first + shown.take(i + 1) =~= (first + shown.take(i as int)).push(
                shown[i as int],
            ));
        }
        i += 1;
    }
    proof {
        assert(shown.take(i as int) =~= shown);
    }
    let ghost before = lines(v@);
    push_line(v, Line::of(pieces));
    proof {
        assert(before.push(line(first + shown)) =~= before + reaction_lines(model));
    }
}

fn push_message<S: StoreRead>(v: &mut Vec<Line>, m: &Message, store: &S, me: Option<UserId>)
    requires
        store.sound(),
    ensures
        lines(final(v)@) == lines(old(v)@) + message_block(m@, store.known(), me),
{
    let ghost start = lines(v@);
    push_line(v, sender(m, store, me));
    push_text(v, m.text.as_str());
    push_reactions(v, &m.reactions);
    proof {
        assert(lines(v@) =~= start + message_block(m@, store.known(), me));
    }
}

fn names_of<S: StoreRead>(store: &S, ids: &Vec<UserId>) -> (r: Vec<String>)
    requires
        store.sound(),
    ensures
        text::texts(r@) == known_names(store.known(), ids@),
{
    let mut out: Vec<String> = Vec::new();
    let mut i: usize = 0;
    proof {
        assert(text::texts(out@) =~= Seq::<Seq<char>>::empty());
        assert(ids@.take(0) =~= Seq::<UserId>::empty());
    }
    while i < ids.len()
        invariant
            i <= ids@.len(),
            store.sound(),
            text::texts(out@) == known_names(store.known(), ids@.take(i as int)),
        decreases ids@.len() - i,
    {
        let ghost before = out@;
        proof {
            assert(ids@.take(i + 1).drop_last() =~= ids@.take(i as int));
        }
        match store.user(ids[i]) {
            Some(u) => {
                out.push(u.display_name.clone());
                proof {
                    assert(text::texts(out@) =~= text::texts(before).push(u.display_name@));
                }
            },
            None => {},
        }
        i += 1;
    }
    proof {
        assert(ids@.take(i as int) =~= ids@);
    }
    out
}

fn typing(names: &Vec<String>) -> (r: String)
    ensures
        r@ == typing_text(text::texts(names@)),
{
    let ghost t = text::texts(names@);
    proof {
        assert(t.len() == names@.len());
        assert(forall|i: int| 0 <= i < t.len() ==> t[i] == names@[i]@);
    }
    if names.len() == 0 {
        "Someone is typing…".to_owned()
    } else if names.len() == 1 {
        text::join2(names[0].as_str(), " is typing…")
    } else if names.len() == 2 {
        let two = text::join3(names[0].as_str(), " and ", names[1].as_str());
        text::join2(two.as_str(), " are typing…")
    } else {
        let others = text::show((names.len() - 1) as u64);
        let some = text::join3(names[0].as_str(), " and ", others.as_str());
        text::join2(some.as_str(), " others are typing…")
    }
}

fn push_typing<S: StoreRead>(v: &mut Vec<Line>, store: &S, space: SpaceId)
    requires
        store.sound(),
    ensures
        lines(final(v)@) == lines(old(v)@) + typing_lines(store.known(), space),
{
    let ghost start = lines(v@);
    match store.space(space) {
        Some(s) => {
            if s.typing_users.len() > 0 {
                push_line(v, Line::blank());
                let names = names_of(store, &s.typing_users);
                push_line(
                    v,
                    Line::pair(Span::raw("  "), Span::owned(typing(&names), theme::muted())),
                );
            }
        },
        None => {},
    }
    proof {
        assert(lines(v@) =~= start + typing_lines(store.known(), space));
    }
}

/// All that is shown of a space.
pub fn content<S: StoreRead>(store: &S, space: SpaceId) -> (r: Vec<Line>)
    requires
        store.sound(),
    ensures
        exists|ms: Seq<MessageV>|
            messages_of(store.known().messages, space, ms) && lines(r@) == #[trigger] content_lines(
                ms,
                store.known(),
                space,
            ),
{
    let me = store.self_user(space.platform);
    let it = store.messages_in_space(space);
    let ghost ms = it@;
    let all = it.collect();
    let ghost k = store.known();
    proof {
        assert(me == me_in(k, space));
        assert(all@.len() == ms.len());
        assert(forall|i: int| 0 <= i < ms.len() ==> (#[trigger] all@[i])@ == ms[i]) by {
            assert forall|i: int| 0 <= i < ms.len() implies (#[trigger] all@[i])@ == ms[i] by {
                assert(all@.map_values(|m: &Message| m@)[i] == ms[i]);
            }
        }
    }
    let mut out = no_lines();
    let mut i: usize = 0;
    proof {
        assert(ms.take(0) =~= Seq::<MessageV>::empty());
    }
    while i < all.len()
        invariant
            i <= all@.len(),
            store.sound(),
            k == store.known(),
            all@.len() == ms.len(),
            forall|j: int| 0 <= j < ms.len() ==> (#[trigger] all@[j])@ == ms[j],
            lines(out@) == message_blocks(ms.take(i as int), k, me),
        decreases all@.len() - i,
    {
        let ghost start = lines(out@);
        if i > 0 {
            push_line(&mut out, Line::blank());
        }
        push_message(&mut out, all[i], store, me);
        proof {
            assert(ms.take(i + 1).drop_last() =~= ms.take(i as int));
            assert(all@[i as int]@ == ms[i as int]);
            assert(lines(out@) =~= message_blocks(ms.take(i + 1), k, me));
        }
        i += 1;
    }
    proof {
        assert(ms.take(i as int) =~= ms);
    }
    push_typing(&mut out, store, space);
    if out.len() == 0 {
        push_line(&mut out, Line::blank());
        push_line(&mut out, Line::whole("  No messages yet", theme::muted()));
        proof {
            assert(lines(out@) =~= content_lines(ms, k, space));
        }
    } else {
        proof {
            assert(lines(out@).len() == out@.len());
        }
    }
    proof {
        assert(lines(out@) == content_lines(ms, k, space));
    }
    out
}

/// What is shown where no space is open.
pub fn welcome() -> (r: Vec<Line>)
    ensures
        lines(r@) == welcome_lines(),
{
    let mut v = no_lines();
    push_line(&mut v, Line::blank());
    push_line(&mut v, Line::blank());
    push_line(&mut v, Line::whole("  tchat", theme::bold()));
    push_line(&mut v, Line::blank());
    push_line(&mut v, Line::whole("  Terminal chat client", theme::muted()));
    push_line(&mut v, Line::whole("  Select a space to begin", theme::dim()));
    push_line(&mut v, Line::blank());
    push_line(&mut v, Line::whole("  j/k  scroll    J/K  switch space", theme::dim()));
    push_line(&mut v, Line::whole("  i    compose   q    quit", theme::dim()));
    push_line(&mut v, Line::whole("  f    focus     t    threads", theme::dim()));
    proof {
        assert(lines(v@) =~= welcome_lines());
    }
    v
}

/// The name of a space, above its messages.
pub fn title<S: StoreRead>(store: &S, space: SpaceId) -> (r: String)
    requires
        store.sound(),
    ensures
        r@ == title_of(store.known(), space),
{
    match store.space(space) {
        Some(s) => text::join3(" ", s.name.as_str(), " "),
        None => text::join3(" ", "unknown", " "),
    }
}

/// What is shown of the open space, below its name; where none is open, a welcome without a
/// name above it.
pub fn view<S: StoreRead>(store: &S, state: &TuiState) -> (r: (Option<String>, Vec<Line>))
    requires
        store.sound(),
    ensures
        match state.active_space {
            Some(space) => {
                &&& r.0 is Some
                &&& r.0->Some_0@ == title_of(store.known(), space)
                &&& exists|ms: Seq<MessageV>|
                    messages_of(store.known().messages, space, ms) && lines(r.1@)
                        == #[trigger] content_lines(ms, store.known(), space)
            },
            None => r.0 is None && lines(r.1@) == welcome_lines(),
        },
{
    match state.active_space {
        Some(space) => (Some(title(store, space)), content(store, space)),
        None => (None, welcome()),
    }
}

/// The number of lines above those that are shown, where `total` lines stand in an area of
/// this height. The terminal counts them in sixteen bits.
pub fn scroll(total: usize, height: u16, message_scroll: u16) -> (r: u16)
    ensures
        r == lines_above(total as nat, height as nat, message_scroll as nat) % 65536,
{
    let h: usize = height as usize;
    let up: usize = message_scroll as usize;
    if total > h && total - h > up {
        ((total - h - up) % 65536) as u16
    } else {
        0
    }
}

// ───────────────────────── laws ─────────────────────────

/// Something is always shown.
pub proof fn law_something_is_shown(ms: Seq<MessageV>, k: StoreV, space: SpaceId)
    ensures
        content_lines(ms, k, space).len() > 0,
{
}

/// Where the user has not gone up, the last line that is shown is the last line there is.
pub proof fn law_the_end_is_shown(total: nat, height: nat)
    ensures
        total > height ==> lines_above(total, height, 0) + height == total,
        total <= height ==> lines_above(total, height, 0) == 0,
{
}

/// However far the user goes up, no line is hidden below the first.
pub proof fn law_the_beginning_stays(total: nat, height: nat, up: nat)
    requires
        total <= up,
    ensures
        lines_above(total, height, up) == 0,
{
}

} // verus!
