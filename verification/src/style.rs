//! Styled text: what a screen is made of.

use vstd::prelude::*;

use crate::text::owned;
use crate::theme::Color;

verus! {

/// How a text looks.
#[derive(Debug, Clone, Copy, PartialEq, Eq, Structural)]
pub struct Style {
    pub fg: Option<Color>,
    pub bold: bool,
    pub dim: bool,
    pub underlined: bool,
    pub crossed_out: bool,
    pub reversed: bool,
}

impl Style {
    /// No style.
    pub open spec fn none() -> Style {
        Style {
            fg: None,
            bold: false,
            dim: false,
            underlined: false,
            crossed_out: false,
            reversed: false,
        }
    }

    /// In a colour.
    pub open spec fn in_color(color: Color) -> Style {
        Style { fg: Some(color), ..Style::none() }
    }

    /// In a colour, and bold.
    pub open spec fn bold_color(color: Color) -> Style {
        Style { fg: Some(color), bold: true, ..Style::none() }
    }

    /// Bold.
    pub open spec fn in_bold() -> Style {
        Style { bold: true, ..Style::none() }
    }

    /// Dim.
    pub open spec fn in_dim() -> Style {
        Style { dim: true, ..Style::none() }
    }

    /// No style.
    pub fn plain() -> (r: Style)
        ensures
            r == Style::none(),
    {
        Style {
            fg: None,
            bold: false,
            dim: false,
            underlined: false,
            crossed_out: false,
            reversed: false,
        }
    }

    /// In a colour.
    pub fn color(color: Color) -> (r: Style)
        ensures
            r == Style::in_color(color),
    {
        let mut style = Style::plain();
        style.fg = Some(color);
        style
    }

    /// In a colour, and bold.
    pub fn strong(color: Color) -> (r: Style)
        ensures
            r == Style::bold_color(color),
    {
        let mut style = Style::color(color);
        style.bold = true;
        style
    }

    /// Bold.
    pub fn bold() -> (r: Style)
        ensures
            r == Style::in_bold(),
    {
        let mut style = Style::plain();
        style.bold = true;
        style
    }

    /// Dim.
    pub fn dim() -> (r: Style)
        ensures
            r == Style::in_dim(),
    {
        let mut style = Style::plain();
        style.dim = true;
        style
    }
}

/// A text in one style.
#[derive(Debug, PartialEq, Eq)]
pub struct Span {
    pub text: String,
    pub style: Style,
}

/// What a styled text holds.
#[verifier::ext_equal]
pub ghost struct SpanV {
    pub text: Seq<char>,
    pub style: Style,
}

impl View for Span {
    type V = SpanV;

    open spec fn view(&self) -> SpanV {
        SpanV { text: self.text@, style: self.style }
    }
}

/// A text in a style.
pub open spec fn styled(text: Seq<char>, style: Style) -> SpanV {
    SpanV { text, style }
}

/// A text without style.
pub open spec fn raw(text: Seq<char>) -> SpanV {
    SpanV { text, style: Style::none() }
}

/// What a line holds.
pub open spec fn line_view(line: Seq<Span>) -> Seq<SpanV> {
    line.map_values(|s: Span| s@)
}

/// What lines hold.
pub open spec fn lines_view(lines: Seq<Vec<Span>>) -> Seq<Seq<SpanV>> {
    lines.map_values(|l: Vec<Span>| line_view(l@))
}

/// Puts a styled text behind a line.
pub fn put(line: &mut Vec<Span>, text: &str, style: Style)
    ensures
        line_view(final(line)@) == line_view(old(line)@).push(styled(text@, style)),
{
    let ghost before = line@;
    line.push(Span { text: owned(text), style });
    assert(line_view(line@) =~= line_view(before).push(styled(text@, style)));
}

/// Puts a line behind lines.
pub fn put_line(lines: &mut Vec<Vec<Span>>, line: Vec<Span>)
    ensures
        lines_view(final(lines)@) == lines_view(old(lines)@).push(line_view(line@)),
{
    let ghost before = lines@;
    lines.push(line);
    assert(lines_view(lines@) =~= lines_view(before).push(line_view(line@)));
}

/// A line without anything.
pub fn new_line() -> (r: Vec<Span>)
    ensures
        line_view(r@) == Seq::<SpanV>::empty(),
{
    let line: Vec<Span> = Vec::new();
    assert(line_view(line@) =~= Seq::<SpanV>::empty());
    line
}

/// No lines.
pub fn no_lines() -> (r: Vec<Vec<Span>>)
    ensures
        lines_view(r@) == Seq::<Seq<SpanV>>::empty(),
{
    let lines: Vec<Vec<Span>> = Vec::new();
    assert(lines_view(lines@) =~= Seq::<Seq<SpanV>>::empty());
    lines
}

} // verus!
