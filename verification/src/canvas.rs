//! What is drawn where, before a terminal library draws it.
use crate::seqs::least;
use crate::style::{Line, LineView, Style};
use ratatui::layout::{Constraint, Direction, Layout, Rect};
use vstd::prelude::*;

verus! {

/// A part of the screen.
#[derive(Clone, Copy, Debug, PartialEq, Eq, Structural)]
pub struct Area {
    pub x: u16,
    pub y: u16,
    pub width: u16,
    pub height: u16,
}

/// The way in which an area is split.
#[derive(Clone, Copy, Debug, PartialEq, Eq, Structural)]
pub enum Axis {
    Rows,
    Columns,
}

/// How much of an area a part of it wants.
#[derive(Clone, Copy, Debug, PartialEq, Eq, Structural)]
pub enum Bound {
    Length(u16),
    AtLeast(u16),
    Percent(u16),
}

/// One step of drawing.
#[derive(Debug)]
pub enum Paint {
    /// Erase what is there.
    Clear(Area),
    /// Give an area a style.
    Fill { area: Area, style: Style },
    /// Draw lines, from the `scroll`-th row on; those that are too long are cut,
    /// or go on in the next row.
    Text {
        area: Area,
        lines: Vec<Line>,
        style: Style,
        wrap: bool,
        scroll: u16,
        centered: bool,
    },
    /// Draw a list so that the selected row shows.
    List {
        area: Area,
        title: Option<String>,
        rows: Vec<Line>,
        style: Style,
        highlight: Option<Style>,
        selected: Option<usize>,
        offset: usize,
    },
    /// Put the cursor somewhere.
    Cursor { x: u16, y: u16 },
}

#[verifier::ext_equal]
pub enum PaintView {
    Clear(Area),
    Fill { area: Area, style: Style },
    Text {
        area: Area,
        lines: Seq<LineView>,
        style: Style,
        wrap: bool,
        scroll: u16,
        centered: bool,
    },
    List {
        area: Area,
        title: Option<Seq<char>>,
        rows: Seq<LineView>,
        style: Style,
        highlight: Option<Style>,
        selected: Option<usize>,
        offset: usize,
    },
    Cursor { x: u16, y: u16 },
}

impl DeepView for Paint {
    type V = PaintView;

    open spec fn deep_view(&self) -> PaintView {
        match self {
            Paint::Clear(area) => PaintView::Clear(*area),
            Paint::Fill { area, style } => PaintView::Fill { area: *area, style: *style },
            Paint::Text { area, lines, style, wrap, scroll, centered } => PaintView::Text {
                area: *area,
                lines: lines.deep_view(),
                style: *style,
                wrap: *wrap,
                scroll: *scroll,
                centered: *centered,
            },
            Paint::List { area, title, rows, style, highlight, selected, offset } =>
                PaintView::List {
                area: *area,
                title: title.deep_view(),
                rows: rows.deep_view(),
                style: *style,
                highlight: *highlight,
                selected: *selected,
                offset: *offset,
            },
            Paint::Cursor { x, y } => PaintView::Cursor { x: *x, y: *y },
        }
    }
}

/// A picture: steps of drawing, one after the other.
pub type PictureView = Seq<PaintView>;

/// Parts that `ratatui`'s `Layout::split` may give for an area and bounds.
pub uninterp spec fn may_split(
    area: Area,
    axis: Axis,
    bounds: Seq<Bound>,
    parts: Seq<Area>,
) -> bool;

/// A part lies in an area, and reaches from one side of it to the other.
pub open spec fn part_of(area: Area, axis: Axis, part: Area) -> bool {
    match axis {
        Axis::Rows => {
            &&& part.x == area.x
            &&& part.width == area.width
            &&& area.y <= part.y
            &&& part.y + part.height <= area.y + area.height
        },
        Axis::Columns => {
            &&& part.y == area.y
            &&& part.height == area.height
            &&& area.x <= part.x
            &&& part.x + part.width <= area.x + area.width
        },
    }
}

/// `ratatui`'s `Layout::split`: the parts of an area, one for each bound, that lie
/// in the area and reach from one side of it to the other.  How bounds that do not
/// fit are met rests on the order in which its solver walks hash maps, so of where
/// a part ends nothing is claimed but that `split` may give it for this area and
/// these bounds.
#[verifier::external_body]
pub(crate) fn split(area: Area, axis: Axis, bounds: &Vec<Bound>) -> (r: Vec<Area>)
    ensures
        may_split(area, axis, bounds@, r@),
        r@.len() == bounds@.len(),
        forall|i: int| 0 <= i < r@.len() ==> part_of(area, axis, #[trigger] r@[i]),
{
    let direction = match axis {
        Axis::Rows => Direction::Vertical,
        Axis::Columns => Direction::Horizontal,
    };
    let limits = bounds.iter().map(|b| match b {
        Bound::Length(n) => Constraint::Length(*n),
        Bound::AtLeast(n) => Constraint::Min(*n),
        Bound::Percent(n) => Constraint::Percentage(*n),
    });
    let whole = Rect { x: area.x, y: area.y, width: area.width, height: area.height };
    let parts = Layout::new(direction, limits).split(whole);
    parts.iter().map(|p| Area { x: p.x, y: p.y, width: p.width, height: p.height }).collect()
}

/// A position further on; the last one is the end.
pub open spec fn beyond(x: u16, n: int) -> u16 {
    least(x + n, u16::MAX as int) as u16
}

/// A position further on.
pub fn shift(x: u16, n: usize) -> (r: u16)
    ensures
        r == beyond(x, n as int),
{
    if n >= 65535 {
        65535
    } else {
        x.saturating_add(n as u16)
    }
}

/// A number as far as it fits.
pub open spec fn fitted(n: int) -> u16 {
    least(n, u16::MAX as int) as u16
}

/// A number as far as it fits.
pub fn fit(n: usize) -> (r: u16)
    ensures
        r == fitted(n as int),
{
    if n >= 65535 {
        65535
    } else {
        n as u16
    }
}

/// Less, and not below zero.
#[verifier::allow_in_spec]
pub fn less(a: u16, b: u16) -> u16
    returns
        (if a >= b {
            (a - b) as u16
        } else {
            0
        }),
{
    if a >= b {
        a - b
    } else {
        0
    }
}

/// The smaller of two.
#[verifier::allow_in_spec]
pub fn smaller(a: u16, b: u16) -> u16
    returns
        (if a <= b {
            a
        } else {
            b
        }),
{
    if a <= b {
        a
    } else {
        b
    }
}

/// The larger of two.
#[verifier::allow_in_spec]
pub fn larger(a: u16, b: u16) -> u16
    returns
        (if a >= b {
            a
        } else {
            b
        }),
{
    if a >= b {
        a
    } else {
        b
    }
}

/// An area without the cells at its edges.
pub open spec fn inside(area: Area) -> Area {
    Area {
        x: beyond(area.x, 1),
        y: beyond(area.y, 1),
        width: less(area.width, 2),
        height: less(area.height, 2),
    }
}

/// An area without the cells at its edges.
pub fn inner(area: Area) -> (r: Area)
    ensures
        r == inside(area),
{
    Area {
        x: shift(area.x, 1),
        y: shift(area.y, 1),
        width: less(area.width, 2),
        height: less(area.height, 2),
    }
}

/// One row of an area, `row` rows below its top.
pub open spec fn row_in(area: Area, row: int) -> Area {
    Area { x: area.x, y: beyond(area.y, row), width: area.width, height: 1 }
}

/// One row of an area.
pub fn row_of(area: Area, row: usize) -> (r: Area)
    ensures
        r == row_in(area, row as int),
{
    Area { x: area.x, y: shift(area.y, row), width: area.width, height: 1 }
}

/// Lines in a style, cut where they are too long.
pub open spec fn text_paint(area: Area, lines: Seq<LineView>, style: Style) -> PaintView {
    PaintView::Text { area, lines, style, wrap: false, scroll: 0, centered: false }
}

/// One line in a style.
pub open spec fn line_paint(area: Area, line: LineView, style: Style) -> PaintView {
    text_paint(area, seq![line], style)
}

/// A list in a style, with a row selected.
pub open spec fn list_paint(
    area: Area,
    rows: Seq<LineView>,
    style: Style,
    selected: Option<usize>,
) -> PaintView {
    PaintView::List { area, title: None, rows, style, highlight: None, selected, offset: 0 }
}

impl Paint {
    /// Lines in a style, cut where they are too long.
    pub fn text(area: Area, lines: Vec<Line>, style: Style) -> (r: Paint)
        ensures
            r.deep_view() == text_paint(area, lines.deep_view(), style),
    {
        Paint::Text { area, lines, style, wrap: false, scroll: 0, centered: false }
    }

    /// One line in a style.
    pub fn line(area: Area, line: Line, style: Style) -> (r: Paint)
        ensures
            r.deep_view() == line_paint(area, line.deep_view(), style),
    {
        let mut lines: Vec<Line> = Vec::new();
        lines.push(line);
        assert(lines.deep_view() =~= seq![line.deep_view()]);
        Paint::text(area, lines, style)
    }

    /// A list in a style, with a row selected.
    pub fn list(area: Area, rows: Vec<Line>, style: Style, selected: Option<usize>) -> (r: Paint)
        ensures
            r.deep_view() == list_paint(area, rows.deep_view(), style, selected),
    {
        Paint::List { area, title: None, rows, style, highlight: None, selected, offset: 0 }
    }
}

/// Puts a step of drawing behind others.
pub fn paint(out: &mut Vec<Paint>, p: Paint)
    ensures
        final(out).deep_view() == old(out).deep_view().push(p.deep_view()),
{
    let ghost before = out.deep_view();
    out.push(p);
    assert(out.deep_view() =~= before.push(p.deep_view()));
}

/// Puts steps of drawing behind others.
pub fn paint_all(out: &mut Vec<Paint>, more: Vec<Paint>)
    ensures
        final(out).deep_view() == old(out).deep_view() + more.deep_view(),
{
    let ghost before = out.deep_view();
    let ghost mv = more.deep_view();
    let mut more = more;
    out.append(&mut more);
    assert(out.deep_view() =~= before + mv);
}

/// An area was split into parts.
pub open spec fn split_into(area: Area, axis: Axis, bounds: Seq<Bound>, parts: Seq<Area>) -> bool {
    &&& may_split(area, axis, bounds, parts)
    &&& parts.len() == bounds.len()
    &&& forall|i: int| 0 <= i < parts.len() ==> part_of(area, axis, #[trigger] parts[i])
}

/// The bounds of a part in the middle.
pub open spec fn around(percent: int) -> Seq<Bound> {
    let rest = ((100 - percent) / 2) as u16;
    seq![Bound::Percent(rest), Bound::Percent(percent as u16), Bound::Percent(rest)]
}

/// A part in the middle of an area, of the given shares of its width and of its
/// height: the middle column of its middle row.
pub open spec fn centered(percent_x: int, percent_y: int, area: Area, part: Area) -> bool {
    exists|rows: Seq<Area>, columns: Seq<Area>|
        #[trigger] split_into(area, Axis::Rows, around(percent_y), rows) && #[trigger] split_into(
            rows[1],
            Axis::Columns,
            around(percent_x),
            columns,
        ) && part == columns[1]
}

/// A part in the middle of an area: of the given share of its width and of its
/// height, as far as `split` meets the shares.
pub(crate) fn centered_rect(percent_x: u16, percent_y: u16, area: Area) -> (r: Area)
    requires
        percent_x <= 100,
        percent_y <= 100,
    ensures
        centered(percent_x as int, percent_y as int, area, r),
{
    let above: u16 = (100 - percent_y) / 2;
    let by_height = vec![Bound::Percent(above), Bound::Percent(percent_y), Bound::Percent(above)];
    let rows = split(area, Axis::Rows, &by_height);
    let beside: u16 = (100 - percent_x) / 2;
    let by_width = vec![Bound::Percent(beside), Bound::Percent(percent_x), Bound::Percent(beside)];
    let columns = split(rows[1], Axis::Columns, &by_width);
    assert(by_height@ =~= around(percent_y as int));
    assert(by_width@ =~= around(percent_x as int));
    assert(split_into(area, Axis::Rows, around(percent_y as int), rows@));
    assert(split_into(rows@[1], Axis::Columns, around(percent_x as int), columns@));
    columns[1]
}

} // verus!
