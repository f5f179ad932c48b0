//! What is put on the screen: styled text in lines, and the frames around it.

use ratatui::style::Color;
use vstd::prelude::*;

verus! {

/// How a piece of text looks. What is not set is left as it is.
#[derive(Clone, Copy)]
pub struct Style {
    pub fg: Option<Color>,
    pub bg: Option<Color>,
    pub bold: bool,
    pub dim: bool,
    pub underlined: bool,
}

/// A style that changes nothing.
pub open spec fn plain() -> Style {
    Style { fg: None, bg: None, bold: false, dim: false, underlined: false }
}

/// A style that sets the colour of the text.
pub open spec fn colored(c: Color) -> Style {
    Style { fg: Some(c), ..plain() }
}

/// A style that sets the colour of the text and makes it bold.
pub open spec fn strong(c: Color) -> Style {
    Style { fg: Some(c), bold: true, ..plain() }
}

/// A chip: bold text on a background of its own.
pub open spec fn chip(bg: Color, fg: Color) -> Style {
    Style { fg: Some(fg), bg: Some(bg), bold: true, ..plain() }
}

impl Style {
    pub fn plain() -> (r: Style)
        ensures
            r == plain(),
    {
        Style { fg: None, bg: None, bold: false, dim: false, underlined: false }
    }

    pub fn colored(c: Color) -> (r: Style)
        ensures
            r == colored(c),
    {
        Style { fg: Some(c), ..Style::plain() }
    }

    pub fn strong(c: Color) -> (r: Style)
        ensures
            r == strong(c),
    {
        Style { fg: Some(c), bold: true, ..Style::plain() }
    }

    pub fn chip(bg: Color, fg: Color) -> (r: Style)
        ensures
            r == chip(bg, fg),
    {
        Style { fg: Some(fg), bg: Some(bg), bold: true, ..Style::plain() }
    }

    pub fn dim(self) -> (r: Style)
        ensures
            r == (Style { dim: true, ..self }),
    {
        Style { dim: true, ..self }
    }

    pub fn underlined(self) -> (r: Style)
        ensures
            r == (Style { underlined: true, ..self }),
    {
        Style { underlined: true, ..self }
    }
}

/// A piece of text in one style.
pub struct Span {
    pub text: String,
    pub style: Style,
}

/// A piece of text in one style.
#[verifier::ext_equal]
pub struct SpanView {
    pub text: Seq<char>,
    pub style: Style,
}

/// A piece of text in one style.
pub open spec fn span(text: Seq<char>, style: Style) -> SpanView {
    SpanView { text, style }
}

impl Span {
    pub open spec fn view(&self) -> SpanView {
        span(self.text@, self.style)
    }

    pub fn new(text: &str, style: Style) -> (r: Span)
        ensures
            r.view() == span(text@, style),
    {
        Span { text: text.to_owned(), style }
    }

    pub fn raw(text: &str) -> (r: Span)
        ensures
            r.view() == span(text@, plain()),
    {
        Span { text: text.to_owned(), style: Style::plain() }
    }
}

/// A row of text: pieces, one after the other.
pub type LineView = Seq<SpanView>;

/// A row of text: pieces, one after the other.
pub struct Line {
    pub spans: Vec<Span>,
}

impl Line {
    pub open spec fn view(&self) -> LineView {
        Seq::new(self.spans@.len(), |i: int| self.spans@[i].view())
    }

    pub fn new() -> (r: Line)
        ensures
            r.view() == Seq::<SpanView>::empty(),
    {
        Line { spans: Vec::new() }
    }

    /// Appends one piece.
    pub fn push(&mut self, s: Span)
        ensures
            final(self).view() == old(self).view().push(s.view()),
    {
        self.spans.push(s);
    }

    /// The line with one more piece of text.
    pub fn with(self, text: &str, style: Style) -> (r: Line)
        ensures
            r.view() == self.view().push(span(text@, style)),
    {
        let mut r = self;
        r.push(Span::new(text, style));
        r
    }

    /// The line with one more piece of unstyled text.
    pub fn raw(self, text: &str) -> (r: Line)
        ensures
            r.view() == self.view().push(span(text@, plain())),
    {
        self.with(text, Style::plain())
    }
}

/// A row that holds one piece of text.
pub open spec fn one(text: Seq<char>, style: Style) -> LineView {
    seq![span(text, style)]
}

/// How many characters a row is wide.
pub open spec fn row_width(l: LineView) -> nat
    decreases l.len(),
{
    if l.len() == 0 {
        0
    } else {
        row_width(l.drop_last()) + l.last().text.len()
    }
}

/// A row with one more piece is that much wider.
pub proof fn lemma_row_width_push(l: LineView, s: SpanView)
    ensures
        row_width(l.push(s)) == row_width(l) + s.text.len(),
{
    assert(l.push(s).drop_last() =~= l);
}

/// A row without anything in it.
pub open spec fn blank() -> LineView {
    Seq::empty()
}

/// Rows, from the top down.
pub type TextView = Seq<LineView>;

/// Rows, from the top down.
pub struct Text {
    pub lines: Vec<Line>,
}

impl Text {
    pub open spec fn view(&self) -> TextView {
        Seq::new(self.lines@.len(), |i: int| self.lines@[i].view())
    }

    pub fn new() -> (r: Text)
        ensures
            r.view() == Seq::<LineView>::empty(),
    {
        Text { lines: Vec::new() }
    }

    pub fn len(&self) -> (r: usize)
        ensures
            r == self.view().len(),
    {
        self.lines.len()
    }

    /// Appends one row.
    pub fn push(&mut self, l: Line)
        ensures
            final(self).view() == old(self).view().push(l.view()),
    {
        self.lines.push(l);
    }

    /// The text with one more row.
    pub fn with(self, l: Line) -> (r: Text)
        ensures
            r.view() == self.view().push(l.view()),
    {
        let mut r = self;
        r.push(l);
        r
    }

    /// The text with one more row, which holds one piece of text.
    pub fn one(self, text: &str, style: Style) -> (r: Text)
        ensures
            r.view() == self.view().push(one(text@, style)),
    {
        let l = Line::new().with(text, style);
        assert(l.view() =~= one(text@, style));
        self.with(l)
    }

    /// The text with one more row, which is empty.
    pub fn blank(self) -> (r: Text)
        ensures
            r.view() == self.view().push(blank()),
    {
        self.with(Line::new())
    }

    /// Appends the rows of `more`.
    pub fn append(&mut self, more: Text)
        ensures
            final(self).view() == old(self).view() + more.view(),
    {
        let mut more = more;
        self.lines.append(&mut more.lines);
    }

    /// Keeps the first `len` rows.
    pub fn truncate(&mut self, len: usize)
        requires
            len <= old(self).view().len(),
        ensures
            final(self).view() == old(self).view().take(len as int),
    {
        self.lines.truncate(len);
    }
}

/// The entries of a list, each of them a few rows.
pub struct Items {
    pub items: Vec<Text>,
}

impl Items {
    pub open spec fn view(&self) -> Seq<TextView> {
        Seq::new(self.items@.len(), |i: int| self.items@[i].view())
    }

    pub fn new() -> (r: Items)
        ensures
            r.view() == Seq::<TextView>::empty(),
    {
        Items { items: Vec::new() }
    }

    pub fn is_empty(&self) -> (r: bool)
        ensures
            r == (self.view().len() == 0),
    {
        self.items.len() == 0
    }

    /// Appends one entry.
    pub fn push(&mut self, t: Text)
        ensures
            final(self).view() == old(self).view().push(t.view()),
    {
        self.items.push(t);
    }
}

/// A rounded border in one colour, with what is written on it: on the top
/// edge, on the bottom edge, and at the right end of the bottom edge.
pub struct Frame {
    pub border: Color,
    pub title: Option<Line>,
    pub bottom: Option<Line>,
    pub bottom_right: Option<Line>,
}

/// A rounded border in one colour, with what is written on it.
pub struct FrameView {
    pub border: Color,
    pub title: Option<LineView>,
    pub bottom: Option<LineView>,
    pub bottom_right: Option<LineView>,
}

/// A row that may be left out.
pub open spec fn line_view(l: Option<Line>) -> Option<LineView> {
    match l {
        Some(l) => Some(l.view()),
        None => None,
    }
}

/// A border with nothing written on it.
pub open spec fn bare(border: Color) -> FrameView {
    FrameView { border, title: None, bottom: None, bottom_right: None }
}

/// A border with one title on its top edge.
pub open spec fn titled(border: Color, title: LineView) -> FrameView {
    FrameView { border, title: Some(title), bottom: None, bottom_right: None }
}

impl Frame {
    pub open spec fn view(&self) -> FrameView {
        FrameView {
            border: self.border,
            title: line_view(self.title),
            bottom: line_view(self.bottom),
            bottom_right: line_view(self.bottom_right),
        }
    }

    pub fn bare(border: Color) -> (r: Frame)
        ensures
            r.view() == bare(border),
    {
        Frame { border, title: None, bottom: None, bottom_right: None }
    }

    /// A border with one piece of text on its top edge.
    pub fn titled(border: Color, title: &str, style: Style) -> (r: Frame)
        ensures
            r.view() == titled(border, one(title@, style)),
    {
        let title = Line::new().with(title, style);
        assert(title.view() =~= one(title@[0].text, title@[0].style));
        Frame { border, title: Some(title), bottom: None, bottom_right: None }
    }
}

/// What is said of a row, of rows, of a list and of a frame is said of every
/// piece of them, as it is written and styled.
pub proof fn law_what_is_painted_is_seen_whole(l: Line, t: Text, list: Items, f: Frame, i: int)
    ensures
        l.view().len() == l.spans@.len(),
        0 <= i < l.spans@.len() ==> l.view()[i].text == l.spans@[i].text@ && l.view()[i].style
            == l.spans@[i].style,
        t.view().len() == t.lines@.len(),
        0 <= i < t.lines@.len() ==> t.view()[i] == t.lines@[i].view(),
        list.view().len() == list.items@.len(),
        0 <= i < list.items@.len() ==> list.view()[i] == list.items@[i].view(),
        f.view().border == f.border,
        f.title matches Some(x) ==> f.view().title == Some(x.view()),
        f.title is None ==> f.view().title is None,
        f.bottom matches Some(x) ==> f.view().bottom == Some(x.view()),
        f.bottom is None ==> f.view().bottom is None,
        f.bottom_right matches Some(x) ==> f.view().bottom_right == Some(x.view()),
        f.bottom_right is None ==> f.view().bottom_right is None,
{
}

} // verus!
