//! Styled text lines, the output of the chat and markdown layout code.
//!
//! A `Line` is a sequence of `Span`s; a span is text with a `Style` made of an
//! optional foreground and background colour and a set of modifier bits.
//! The bit values are those of the terminal backend's modifier flags, so the
//! application draws these lines by a one-to-one conversion.
use vstd::prelude::*;

verus! {

/// A colour of the palette.
#[derive(Debug, Clone, Copy, PartialEq, Eq, Structural)]
pub enum Color {
    Reset,
    Red,
    DarkGray,
    LightBlue,
    Rgb(u8, u8, u8),
}

/// Modifier bit: bold.
pub const BOLD: u16 = 0b0000_0000_0001;
/// Modifier bit: dim.
pub const DIM: u16 = 0b0000_0000_0010;
/// Modifier bit: italic.
pub const ITALIC: u16 = 0b0000_0000_0100;
/// Modifier bit: underlined.
pub const UNDERLINED: u16 = 0b0000_0000_1000;
/// Modifier bit: reversed.
pub const REVERSED: u16 = 0b0000_0100_0000;
/// Modifier bit: crossed out.
pub const CROSSED_OUT: u16 = 0b0001_0000_0000;

/// Colours and modifiers of a span.
#[derive(Debug, Clone, Copy, PartialEq, Eq, Structural)]
pub struct Style {
    pub fg: Option<Color>,
    pub bg: Option<Color>,
    pub add_modifier: u16,
}

/// The style with nothing set.
pub open spec fn plain_style() -> Style {
    Style { fg: None, bg: None, add_modifier: 0 }
}

/// `plain_style()` with foreground `c`.
pub open spec fn fg_style(c: Color) -> Style {
    Style { fg: Some(c), bg: None, add_modifier: 0 }
}

/// `s` with modifier bits `m` added.
pub open spec fn with_mod(s: Style, m: u16) -> Style {
    Style { add_modifier: s.add_modifier | m, ..s }
}

impl Style {
    /// The style with nothing set.
    pub fn new() -> (s: Style)
        ensures
            s == plain_style(),
    {
        Style { fg: None, bg: None, add_modifier: 0 }
    }

    /// This style with foreground `c`.
    pub fn fg(self, c: Color) -> (s: Style)
        ensures
            s == (Style { fg: Some(c), ..self }),
    {
        Style { fg: Some(c), ..self }
    }

    /// This style with background `c`.
    pub fn bg(self, c: Color) -> (s: Style)
        ensures
            s == (Style { bg: Some(c), ..self }),
    {
        Style { bg: Some(c), ..self }
    }

    /// This style with the modifier bits `m` added.
    pub fn add(self, m: u16) -> (s: Style)
        ensures
            s == with_mod(self, m),
    {
        Style { add_modifier: self.add_modifier | m, ..self }
    }
}

/// A run of text in one style.
#[derive(Debug, Clone, PartialEq, Eq)]
pub struct Span {
    pub content: String,
    pub style: Style,
}

/// Abstract span: its characters and its style.
pub type SpanV = (Seq<char>, Style);

impl View for Span {
    type V = SpanV;

    open spec fn view(&self) -> SpanV {
        (self.content@, self.style)
    }
}

/// One display line.
#[derive(Debug, Clone, PartialEq, Eq)]
pub struct Line {
    pub spans: Vec<Span>,
}

/// Abstract line: its spans.
pub type LineV = Seq<SpanV>;

impl View for Line {
    type V = LineV;

    open spec fn view(&self) -> LineV {
        self.spans@.map_values(|s: Span| s@)
    }
}

/// The abstract value of a list of lines.
pub open spec fn lines_view(v: Seq<Line>) -> Seq<LineV> {
    v.map_values(|l: Line| l@)
}

/// The abstract value of a list of spans.
pub open spec fn spans_view(v: Seq<Span>) -> Seq<SpanV> {
    v.map_values(|s: Span| s@)
}

/// A span of `text` in `style`.
pub fn span(text: String, style: Style) -> (s: Span)
    ensures
        s@ == (text@, style),
{
    Span { content: text, style }
}

/// A span of the literal `text` in `style`.
pub fn span_str(text: &str, style: Style) -> (s: Span)
    ensures
        s@ == (text@, style),
{
    Span { content: text.to_owned(), style }
}

/// A line made of `spans`.
pub fn line(spans: Vec<Span>) -> (l: Line)
    ensures
        l@ == spans_view(spans@),
{
    Line { spans }
}

/// The line with no spans (an empty row).
pub fn empty_line() -> (l: Line)
    ensures
        l@ == Seq::<SpanV>::empty(),
{
    let l = Line { spans: Vec::new() };
    assert(l@ =~= Seq::<SpanV>::empty());
    l
}

/// Appends `b` to `a`.
pub fn append_spans(a: &mut Vec<Span>, b: Vec<Span>)
    ensures
        final(a)@ == old(a)@ + b@,
        spans_view(final(a)@) == spans_view(old(a)@) + spans_view(b@),
{
    let mut b = b;
    let ghost bb = b@;
    a.append(&mut b);
    assert(spans_view(old(a)@ + bb) =~= spans_view(old(a)@) + spans_view(bb));
}

/// Appends `b` to `a`.
pub fn append_lines(a: &mut Vec<Line>, b: Vec<Line>)
    ensures
        final(a)@ == old(a)@ + b@,
        lines_view(final(a)@) == lines_view(old(a)@) + lines_view(b@),
{
    let mut b = b;
    let ghost bb = b@;
    a.append(&mut b);
    assert(lines_view(old(a)@ + bb) =~= lines_view(old(a)@) + lines_view(bb));
}

} // verus!
