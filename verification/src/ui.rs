//! What is drawn: styled texts, titles and areas.
use vstd::prelude::*;

verus! {

/// A colour.
#[derive(Clone, Copy, Debug, PartialEq, Eq, Structural)]
pub enum Color {
    Yellow,
    Red,
    Green,
    Blue,
    Cyan,
    DarkGray,
    Rgb(u8, u8, u8),
}

/// How a text is drawn.
#[derive(Clone, Copy, Debug, PartialEq, Eq, Structural)]
pub struct Style {
    /// The colour, if it is not the terminal's.
    pub fg: Option<Color>,
    pub bold: bool,
}

/// A text and how it is drawn.
#[derive(Debug, PartialEq, Eq)]
pub struct Span {
    pub text: String,
    pub style: Style,
}

/// What a span shows.
pub struct Shown {
    pub text: Seq<char>,
    pub style: Style,
}

impl View for Span {
    type V = Shown;

    open spec fn view(&self) -> Shown {
        Shown { text: self.text@, style: self.style }
    }
}

/// What a line of spans shows.
pub open spec fn shown(line: Seq<Span>) -> Seq<Shown> {
    line.map_values(|s: Span| s@)
}

/// `text` in the terminal's colour.
pub open spec fn plain(text: Seq<char>) -> Shown {
    Shown { text, style: Style { fg: None, bold: false } }
}

/// `text` in a colour.
pub open spec fn colored(text: Seq<char>, color: Color) -> Shown {
    Shown { text, style: Style { fg: Some(color), bold: false } }
}

/// `text` in a colour and in bold type.
pub open spec fn bold(text: Seq<char>, color: Color) -> Shown {
    Shown { text, style: Style { fg: Some(color), bold: true } }
}

impl Span {
    /// A text in the terminal's colour.
    pub fn plain(text: &str) -> (s: Span)
        ensures
            s@ == plain(text@),
    {
        Span { text: text.to_owned(), style: Style { fg: None, bold: false } }
    }

    /// A text in a colour.
    pub fn colored(text: &str, color: Color) -> (s: Span)
        ensures
            s@ == colored(text@, color),
    {
        Span { text: text.to_owned(), style: Style { fg: Some(color), bold: false } }
    }

    /// A text in a colour and in bold type.
    pub fn bold(text: &str, color: Color) -> (s: Span)
        ensures
            s@ == bold(text@, color),
    {
        Span { text: text.to_owned(), style: Style { fg: Some(color), bold: true } }
    }
}

/// Where a title stands on its edge.
#[derive(Clone, Copy, Debug, PartialEq, Eq, Structural)]
pub enum Align {
    Left,
    Center,
    Right,
}

/// The edge that a title stands on.
#[derive(Clone, Copy, Debug, PartialEq, Eq, Structural)]
pub enum Edge {
    Top,
    Bottom,
}

/// A title on the edge of a block.
#[derive(Debug, PartialEq, Eq)]
pub struct Title {
    pub spans: Vec<Span>,
    pub align: Align,
    pub edge: Edge,
}

/// What a title shows, and where.
pub struct Heading {
    pub spans: Seq<Shown>,
    pub align: Align,
    pub edge: Edge,
}

impl View for Title {
    type V = Heading;

    open spec fn view(&self) -> Heading {
        Heading { spans: shown(self.spans@), align: self.align, edge: self.edge }
    }
}

/// What a list of titles shows.
pub open spec fn headings(titles: Seq<Title>) -> Seq<Heading> {
    titles.map_values(|t: Title| t@)
}

/// An area of the screen.
#[derive(Clone, Copy, Debug, PartialEq, Eq, Structural)]
pub struct Rect {
    pub x: u16,
    pub y: u16,
    pub width: u16,
    pub height: u16,
}

/// The part of `r` that is left inside margins; nothing where `r` is too small for them. No margin
/// takes more than the largest coordinate of a side.
pub open spec fn inside(r: Rect, horizontal: nat, vertical: nat) -> Rect {
    let columns = at_most_max(2 * horizontal as int);
    let rows = at_most_max(2 * vertical as int);
    if r.width < columns || r.height < rows {
        Rect { x: 0, y: 0, width: 0, height: 0 }
    } else {
        Rect {
            x: at_most_max(r.x + horizontal),
            y: at_most_max(r.y + vertical),
            width: (r.width - columns) as u16,
            height: (r.height - rows) as u16,
        }
    }
}

/// `n`, or the largest coordinate if `n` is past it.
pub open spec fn at_most_max(n: int) -> u16 {
    if n <= u16::MAX {
        n as u16
    } else {
        u16::MAX
    }
}

/// `a - b`, or 0 if `b` is the larger one.
pub open spec fn less(a: u16, b: u16) -> u16 {
    if a >= b {
        (a - b) as u16
    } else {
        0
    }
}

impl Rect {
    /// The part that is left inside margins; nothing where there is no room for them.
    pub fn inner(self, horizontal: u16, vertical: u16) -> (r: Rect)
        ensures
            r == inside(self, horizontal as nat, vertical as nat),
    {
        let columns: u16 = horizontal.saturating_add(horizontal);
        let rows: u16 = vertical.saturating_add(vertical);
        if self.width < columns || self.height < rows {
            Rect { x: 0, y: 0, width: 0, height: 0 }
        } else {
            Rect {
                x: self.x.saturating_add(horizontal),
                y: self.y.saturating_add(vertical),
                width: self.width - columns,
                height: self.height - rows,
            }
        }
    }
}

/// The gray of borders and scrollbars.
pub open spec fn gray() -> Color {
    Color::Rgb(100, 100, 100)
}

/// What a list of lines shows.
pub open spec fn lines_shown(lines: Seq<Vec<Span>>) -> Seq<Seq<Shown>> {
    lines.map_values(|line: Vec<Span>| shown(line@))
}

impl Title {
    /// A title.
    pub fn new(spans: Vec<Span>, align: Align, edge: Edge) -> (t: Title)
        ensures
            t@ == (Heading { spans: shown(spans@), align, edge }),
    {
        Title { spans, align, edge }
    }
}

/// What a span and a title show is what they hold; a line shows its spans one by one.
pub proof fn law_spans_as_shown(line: Seq<Span>, i: int, titles: Seq<Title>, k: int)
    requires
        0 <= i < line.len(),
        0 <= k < titles.len(),
    ensures
        shown(line).len() == line.len(),
        shown(line)[i].text == line[i].text@,
        shown(line)[i].style == line[i].style,
        headings(titles).len() == titles.len(),
        headings(titles)[k].spans == shown(titles[k].spans@),
        headings(titles)[k].align == titles[k].align,
        headings(titles)[k].edge == titles[k].edge,
{
}

/// A plain text has no colour of its own and is not bold, a coloured one has its colour, and a bold one is
/// bold besides.
pub proof fn law_styles(text: Seq<char>, color: Color)
    ensures
        plain(text).text == text,
        plain(text).style.fg is None && !plain(text).style.bold,
        colored(text, color).text == text,
        colored(text, color).style.fg == Some(color) && !colored(text, color).style.bold,
        bold(text, color).text == text,
        bold(text, color).style.fg == Some(color) && bold(text, color).style.bold,
        gray() == Color::Rgb(100, 100, 100),
{
}

/// What is left inside margins lies in the area: it starts behind them and ends before them, and where
/// they take all of it nothing is left.
pub proof fn law_inside_margins(r: Rect, horizontal: nat, vertical: nat)
    requires
        r.x + r.width <= u16::MAX,
        r.y + r.height <= u16::MAX,
    ensures
        2 * horizontal <= r.width && 2 * vertical <= r.height ==> ({
            let i = inside(r, horizontal, vertical);
            &&& i.x == r.x + horizontal
            &&& i.y == r.y + vertical
            &&& i.x + i.width + horizontal == r.x + r.width
            &&& i.y + i.height + vertical == r.y + r.height
        }),
        (2 * horizontal > r.width || 2 * vertical > r.height) && r.width < u16::MAX && r.height
            < u16::MAX ==> inside(r, horizontal, vertical).width == 0 && inside(
            r,
            horizontal,
            vertical,
        ).height == 0,
{
}

} // verus!
