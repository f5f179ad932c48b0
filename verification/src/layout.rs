//! Where things are on the screen.

use ratatui::layout::{Constraint, Layout};
use ratatui::widgets::Block;
use vstd::prelude::*;

verus! {

pub const SIDEBAR_WIDTH: u16 = 36;

/// A rectangle of cells.
#[derive(Clone, Copy, Debug, PartialEq, Eq, Structural)]
pub struct Rect {
    pub x: u16,
    pub y: u16,
    pub width: u16,
    pub height: u16,
}

/// The smaller of two numbers.
pub open spec fn least(a: int, b: int) -> int {
    if a < b {
        a
    } else {
        b
    }
}

/// What is left of `a` after taking `b`, but nothing below zero.
pub open spec fn less(a: int, b: int) -> int {
    if a < b {
        0
    } else {
        a - b
    }
}

/// How far a rectangle reaches from `start`: what lies beyond the largest
/// coordinate is not there.
pub open spec fn extent(start: u16, size: u16) -> int {
    least(size as int, u16::MAX - start)
}

/// The length that a part of fixed length gets beside one that is to have at
/// least `min`: its own, as long as the other part has enough.
pub open spec fn fixed_part(min: u16, length: u16, all: int) -> int {
    least(length as int, less(all, min as int))
}

/// An area split into a part above that is to have at least `min` rows, and a
/// part of `length` rows below it.
pub open spec fn rows_of(min: u16, length: u16, area: Rect) -> (Rect, Rect) {
    let all = extent(area.y, area.height);
    let below = fixed_part(min, length, all);
    (
        Rect { height: (all - below) as u16, ..area },
        Rect { y: (area.y + all - below) as u16, height: below as u16, ..area },
    )
}

/// An area split into a part of `length` columns on the left, and a part on
/// the right that is to have at least `min`.
pub open spec fn columns_of(length: u16, min: u16, area: Rect) -> (Rect, Rect) {
    let all = extent(area.x, area.width);
    let left = fixed_part(min, length, all);
    (
        Rect { width: left as u16, ..area },
        Rect { x: (area.x + left) as u16, width: (all - left) as u16, ..area },
    )
}

/// The area inside a border of one cell on each side.
pub open spec fn inside(area: Rect) -> Rect {
    Rect {
        x: least(area.x + 1, area.x + extent(area.x, area.width)) as u16,
        y: least(area.y + 1, area.y + extent(area.y, area.height)) as u16,
        width: less(area.width as int, 2) as u16,
        height: less(area.height as int, 2) as u16,
    }
}

/// `ratatui::layout::Layout::vertical` of `Constraint::Min(min)` and
/// `Constraint::Length(length)`, and `Layout::areas` of it: the lower part gets
/// its length as far as the upper one keeps its minimum, the upper part gets
/// everything else, and the columns stay as they are. A minimum of more than
/// `i16::MAX` is left out: it is read as a negative number there.
#[verifier::external_body]
fn split_rows(min: u16, length: u16, area: Rect) -> (r: (Rect, Rect))
    requires
        min <= i16::MAX,
    ensures
        r == rows_of(min, length, area),
{
    let Rect { x, y, width, height } = area;
    let whole = ratatui::layout::Rect { x, y, width, height };
    let layout = Layout::vertical([Constraint::Min(min), Constraint::Length(length)]);
    let [a, b] = layout.areas(whole);
    (
        Rect { x: a.x, y: a.y, width: a.width, height: a.height },
        Rect { x: b.x, y: b.y, width: b.width, height: b.height },
    )
}

/// `ratatui::layout::Layout::horizontal` of `Constraint::Length(length)` and
/// `Constraint::Min(min)`, and `Layout::areas` of it: the left part gets its
/// length as far as the right one keeps its minimum, the right part gets
/// everything else, and the rows stay as they are. A minimum of more than
/// `i16::MAX` is left out: it is read as a negative number there.
#[verifier::external_body]
fn split_columns(length: u16, min: u16, area: Rect) -> (r: (Rect, Rect))
    requires
        min <= i16::MAX,
    ensures
        r == columns_of(length, min, area),
{
    let Rect { x, y, width, height } = area;
    let whole = ratatui::layout::Rect { x, y, width, height };
    let layout = Layout::horizontal([Constraint::Length(length), Constraint::Min(min)]);
    let [a, b] = layout.areas(whole);
    (
        Rect { x: a.x, y: a.y, width: a.width, height: a.height },
        Rect { x: b.x, y: b.y, width: b.width, height: b.height },
    )
}

/// `ratatui::widgets::Block::inner` of `Block::bordered()`: the area without
/// one cell on each side. An area too small for a border has nothing inside.
#[verifier::external_body]
fn bordered_inner(area: Rect) -> (r: Rect)
    ensures
        r == inside(area),
{
    let Rect { x, y, width, height } = area;
    let i = Block::bordered().inner(ratatui::layout::Rect { x, y, width, height });
    Rect { x: i.x, y: i.y, width: i.width, height: i.height }
}

/// The three parts of the screen: the sidebar on the left, the pane beside it,
/// and the status bar below both.
#[derive(Clone, Copy, Debug, PartialEq, Eq, Structural)]
pub struct Screen {
    pub sidebar: Rect,
    pub pane: Rect,
    pub status: Rect,
}

/// The parts of a screen.
pub open spec fn parts(full: Rect) -> Screen {
    let (body, status) = rows_of(1, 1, full);
    let (sidebar, pane) = columns_of(SIDEBAR_WIDTH, 20, body);
    Screen { sidebar, pane, status }
}

/// The parts of a screen.
pub fn screen(full: Rect) -> (r: Screen)
    ensures
        r == parts(full),
{
    let (body, status) = split_rows(1, 1, full);
    let (sidebar, pane) = split_columns(SIDEBAR_WIDTH, 20, body);
    Screen { sidebar, pane, status }
}

/// The pane rectangle for a given terminal size, so the event loop can resize
/// PTYs without waiting for a render.
pub fn pane_area(full: Rect) -> (r: Rect)
    ensures
        r == parts(full).pane,
{
    screen(full).pane
}

/// The pane's inner rectangle, borders excluded. A mouse event carries screen
/// coordinates, and a child that tracks the mouse wants them pane-relative.
pub fn pane_inner_rect(area: Rect) -> (r: Rect)
    ensures
        r == inside(area),
{
    bordered_inner(area)
}

/// Inner size of the terminal pane, which is what a PTY must be resized to:
/// rows and columns, at least one of each.
pub fn pane_inner(area: Rect) -> (r: (u16, u16))
    ensures
        r.0 == if inside(area).height == 0 {
            1
        } else {
            inside(area).height
        },
        r.1 == if inside(area).width == 0 {
            1
        } else {
            inside(area).width
        },
{
    let inner = pane_inner_rect(area);
    (
        if inner.height == 0 {
            1
        } else {
            inner.height
        },
        if inner.width == 0 {
            1
        } else {
            inner.width
        },
    )
}

/// The foot of the sidebar: an area split into what is above its lowest
/// `reserved` rows, and those rows.
pub fn footer(reserved: u16, area: Rect) -> (r: (Rect, Rect))
    ensures
        r == rows_of(0, reserved, area),
{
    split_rows(0, reserved, area)
}

/// A rectangle of the given size in the middle of an area, or as much of it as
/// the area holds.
pub open spec fn middle(width: u16, height: u16, area: Rect) -> Rect {
    let w = least(width as int, area.width as int);
    let h = least(height as int, area.height as int);
    Rect {
        x: (area.x + (area.width - w) / 2) as u16,
        y: (area.y + (area.height - h) / 2) as u16,
        width: w as u16,
        height: h as u16,
    }
}

/// The middle of an area has coordinates.
pub open spec fn has_middle(width: u16, height: u16, area: Rect) -> bool {
    &&& area.x + (area.width - least(width as int, area.width as int)) / 2 <= u16::MAX
    &&& area.y + (area.height - least(height as int, area.height as int)) / 2 <= u16::MAX
}

/// Whether the middle of an area has coordinates.
pub fn can_center(width: u16, height: u16, area: Rect) -> (r: bool)
    ensures
        r == has_middle(width, height, area),
{
    let w: u16 = if width < area.width {
        width
    } else {
        area.width
    };
    let h: u16 = if height < area.height {
        height
    } else {
        area.height
    };
    (area.width - w) / 2 <= u16::MAX - area.x && (area.height - h) / 2 <= u16::MAX - area.y
}

/// A rectangle of the given size in the middle of an area.
pub fn centered(width: u16, height: u16, area: Rect) -> (r: Rect)
    requires
        has_middle(width, height, area),
    ensures
        r == middle(width, height, area),
{
    let w: u16 = if width < area.width {
        width
    } else {
        area.width
    };
    let h: u16 = if height < area.height {
        height
    } else {
        area.height
    };
    Rect {
        x: area.x + (area.width - w) / 2,
        y: area.y + (area.height - h) / 2,
        width: w,
        height: h,
    }
}

// ---------------------------------------------------------------------------
// What holds of the screen as a whole.

/// A rectangle lies on the screen: its right and bottom edges have
/// coordinates.
pub open spec fn on_screen(r: Rect) -> bool {
    r.x + r.width <= u16::MAX && r.y + r.height <= u16::MAX
}

/// A rectangle lies inside another.
pub open spec fn within(r: Rect, area: Rect) -> bool {
    &&& area.x <= r.x && r.x + r.width <= area.x + area.width
    &&& area.y <= r.y && r.y + r.height <= area.y + area.height
}

/// The three parts lie side by side and cover the screen: the sidebar and the
/// pane share its width, the status bar takes the row below them, and none of
/// them reaches into another.
pub proof fn law_the_parts_tile_the_screen(full: Rect)
    requires
        on_screen(full),
    ensures
        ({
            let s = parts(full);
            &&& within(s.sidebar, full) && within(s.pane, full) && within(s.status, full)
            &&& s.sidebar.x == full.x && s.pane.x == s.sidebar.x + s.sidebar.width
            &&& s.sidebar.width + s.pane.width == full.width
            &&& s.sidebar.y == full.y && s.pane.y == full.y
            &&& s.sidebar.height == s.pane.height
            &&& s.status.y == full.y + s.pane.height
            &&& s.pane.height + s.status.height == full.height
            &&& s.status.x == full.x && s.status.width == full.width
        }),
{
}

/// On a screen that has room for them the sidebar has its width, the pane has
/// at least its minimum and the status bar has its row. A narrower screen
/// takes from the sidebar first, a lower one from the status bar.
pub proof fn law_the_pane_keeps_its_minimum(full: Rect)
    requires
        on_screen(full),
    ensures
        full.width >= SIDEBAR_WIDTH + 20 ==> parts(full).sidebar.width == SIDEBAR_WIDTH,
        full.width >= 20 ==> parts(full).pane.width >= 20,
        full.width < 20 ==> parts(full).pane.width == full.width,
        full.height >= 2 ==> parts(full).status.height == 1,
        full.height >= 1 ==> parts(full).pane.height >= 1,
{
}

/// A dialog lies inside the area it is centred in, is never larger than asked
/// for, and has the same room on both sides, give or take a cell.
pub proof fn law_a_dialog_is_centered(width: u16, height: u16, area: Rect)
    requires
        on_screen(area),
    ensures
        has_middle(width, height, area),
        ({
            let m = middle(width, height, area);
            let right = (area.x + area.width) - (m.x + m.width);
            let below = (area.y + area.height) - (m.y + m.height);
            &&& within(m, area)
            &&& m.width == least(width as int, area.width as int)
            &&& m.height == least(height as int, area.height as int)
            &&& 0 <= right - (m.x - area.x) <= 1
            &&& 0 <= below - (m.y - area.y) <= 1
        }),
{
}

/// What is inside a border lies inside it, one cell away from each edge.
pub proof fn law_the_inside_leaves_out_the_border(area: Rect)
    requires
        on_screen(area),
        area.width >= 2,
        area.height >= 2,
    ensures
        within(inside(area), area),
        inside(area).x == area.x + 1 && inside(area).y == area.y + 1,
        inside(area).width == area.width - 2 && inside(area).height == area.height - 2,
{
}

} // verus!
