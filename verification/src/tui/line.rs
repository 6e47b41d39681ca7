//! Lines of styled text.
use vstd::prelude::*;

use crate::tui::theme;
use crate::tui::theme::{unstyled, Style};

verus! {

broadcast use vstd::string::group_string_axioms;

/// A piece of text that looks the same throughout.
#[derive(Debug)]
pub struct Span {
    pub text: String,
    pub style: Style,
}

/// A line. What its pieces do not say of their look, it says.
#[derive(Debug)]
pub struct Line {
    pub spans: Vec<Span>,
    pub style: Style,
}

/// The mathematical form of a [`Span`].
#[verifier::ext_equal]
pub ghost struct SpanV {
    pub text: Seq<char>,
    pub style: Style,
}

/// The mathematical form of a [`Line`].
#[verifier::ext_equal]
pub ghost struct LineV {
    pub spans: Seq<SpanV>,
    pub style: Style,
}

impl View for Span {
    type V = SpanV;

    open spec fn view(&self) -> SpanV {
        SpanV { text: self.text@, style: self.style }
    }
}

pub open spec fn spans(v: Seq<Span>) -> Seq<SpanV> {
    v.map_values(|s: Span| s@)
}

impl View for Line {
    type V = LineV;

    open spec fn view(&self) -> LineV {
        LineV { spans: spans(self.spans@), style: self.style }
    }
}

pub open spec fn lines(v: Seq<Line>) -> Seq<LineV> {
    v.map_values(|l: Line| l@)
}

/// A piece of text as the terminal has it.
pub open spec fn raw(text: Seq<char>) -> SpanV {
    SpanV { text, style: unstyled() }
}

pub open spec fn span(text: Seq<char>, style: Style) -> SpanV {
    SpanV { text, style }
}

/// A line of these pieces.
pub open spec fn line(spans: Seq<SpanV>) -> LineV {
    LineV { spans, style: unstyled() }
}

/// An empty line.
pub open spec fn blank() -> LineV {
    line(Seq::empty())
}

/// A line that looks the same throughout.
pub open spec fn whole(text: Seq<char>, style: Style) -> LineV {
    LineV { spans: seq![raw(text)], style }
}

impl Span {
    pub fn styled(text: &str, style: Style) -> (r: Span)
        ensures
            r@ == span(text@, style),
    {
        Span { text: text.to_owned(), style }
    }

    pub fn owned(text: String, style: Style) -> (r: Span)
        ensures
            r@ == span(text@, style),
    {
        Span { text, style }
    }

    /// A piece of text as the terminal has it.
    pub fn raw(text: &str) -> (r: Span)
        ensures
            r@ == raw(text@),
    {
        Span { text: text.to_owned(), style: theme::plain() }
    }
}

impl Line {
    /// An empty line.
    pub fn blank() -> (r: Line)
        ensures
            r@ == blank(),
    {
        let r = Line { spans: Vec::new(), style: theme::plain() };
        proof {
            assert(spans(r.spans@) =~= Seq::<SpanV>::empty());
        }
        r
    }

    /// A line that looks the same throughout.
    pub fn whole(text: &str, style: Style) -> (r: Line)
        ensures
            r@ == whole(text@, style),
    {
        let mut v: Vec<Span> = Vec::new();
        push_span(&mut v, Span::raw(text));
        let r = Line { spans: v, style };
        proof {
            assert(r@.spans =~= seq![raw(text@)]);
        }
        r
    }

    /// A line of these pieces.
    pub fn of(pieces: Vec<Span>) -> (r: Line)
        ensures
            r@ == line(spans(pieces@)),
    {
        Line { spans: pieces, style: theme::plain() }
    }

    /// A line of two pieces.
    pub fn pair(a: Span, b: Span) -> (r: Line)
        ensures
            r@ == line(seq![a@, b@]),
    {
        let mut v: Vec<Span> = Vec::new();
        let ghost (av, bv) = (a@, b@);
        push_span(&mut v, a);
        push_span(&mut v, b);
        proof {
            assert(spans(v@) =~= seq![av, bv]);
        }
        Line::of(v)
    }

    /// A line of three pieces.
    pub fn triple(a: Span, b: Span, c: Span) -> (r: Line)
        ensures
            r@ == line(seq![a@, b@, c@]),
    {
        let mut v: Vec<Span> = Vec::new();
        let ghost (av, bv, cv) = (a@, b@, c@);
        push_span(&mut v, a);
        push_span(&mut v, b);
        push_span(&mut v, c);
        proof {
            assert(spans(v@) =~= seq![av, bv, cv]);
        }
        Line::of(v)
    }
}

/// Put a piece at the end.
pub fn push_span(v: &mut Vec<Span>, s: Span)
    ensures
        spans(final(v)@) == spans(old(v)@).push(s@),
{
    v.push(s);
    proof {
        assert(spans(v@) =~= spans(old(v)@).push(s@));
    }
}

/// Put a line at the end.
pub fn push_line(v: &mut Vec<Line>, l: Line)
    ensures
        lines(final(v)@) == lines(old(v)@).push(l@),
{
    v.push(l);
    proof {
        assert(lines(v@) =~= lines(old(v)@).push(l@));
    }
}

/// No pieces yet.
pub fn no_spans() -> (r: Vec<Span>)
    ensures
        spans(r@) == Seq::<SpanV>::empty(),
{
    let r: Vec<Span> = Vec::new();
    proof {
        assert(spans(r@) =~= Seq::<SpanV>::empty());
    }
    r
}

/// No lines yet.
pub fn no_lines() -> (r: Vec<Line>)
    ensures
        lines(r@) == Seq::<LineV>::empty(),
{
    let r: Vec<Line> = Vec::new();
    proof {
        assert(lines(r@) =~= Seq::<LineV>::empty());
    }
    r
}

} // verus!
