//! The screen's layout: the sidebar, the main pane and the player bar, as
//! ratatui's layout solver places them.

use vstd::prelude::*;
use crate::cover::CellArea;
use crate::panes::{COVER_H, COVER_W};
use crate::schedule::sat_sub;
use ratatui::layout::{Constraint, Direction, Layout, Rect};

verus! {

/// The direction an area is split in.
#[derive(Clone, Copy, PartialEq, Eq, Debug, Structural)]
pub enum Axis {
    /// Top to bottom.
    Vertical,
    /// Left to right.
    Horizontal,
}

/// What a part of a split asks for.
#[derive(Clone, Copy, PartialEq, Eq, Debug, Structural)]
pub enum Extent {
    /// Exactly this many cells.
    Length(u16),
    /// At least this many cells.
    Min(u16),
}

/// The two parts ratatui's layout solver makes of `area` along `axis` for the
/// constraints `first` and `second`.
pub uninterp spec fn split_two(area: CellArea, axis: Axis, first: Extent, second: Extent) -> (CellArea, CellArea);

/// Splits `area` in two with ratatui's `Layout::split` (no margin, no
/// spacing). Claimed: the result is what the name `split_two` gives for the
/// same arguments; nothing more is stated of the solver.
#[verifier::external_body]
fn solve_two(area: CellArea, axis: Axis, first: Extent, second: Extent) -> (r: (CellArea, CellArea))
    ensures
        r == split_two(area, axis, first, second),
{
    let d = match axis { Axis::Vertical => Direction::Vertical, Axis::Horizontal => Direction::Horizontal };
    let c = [first, second].map(|e| match e { Extent::Length(n) => Constraint::Length(n), Extent::Min(n) => Constraint::Min(n) });
    let r = Layout::default().direction(d).constraints(c).split(Rect::new(area.x, area.y, area.width, area.height));
    let [p, q] = [r[0], r[1]].map(|t| CellArea { x: t.x, y: t.y, width: t.width, height: t.height });
    (p, q)
}

/// The three regions of the screen.
#[derive(Clone, Copy, PartialEq, Eq, Debug, Structural)]
pub struct LayoutAreas {
    pub sidebar: CellArea,
    pub main: CellArea,
    pub player: CellArea,
}

/// Height of the player bar.
pub const PLAYER_H: u16 = 3;

/// Width of the sidebar.
pub const SIDEBAR_W: u16 = 30;

/// The screen split into the player bar (three lines at the bottom) and,
/// above it, the sidebar (thirty columns on the left) beside the main pane.
pub open spec fn screen_layout(area: CellArea) -> LayoutAreas {
    let rows = split_two(area, Axis::Vertical, Extent::Min(1), Extent::Length(PLAYER_H));
    let cols = split_two(rows.0, Axis::Horizontal, Extent::Length(SIDEBAR_W), Extent::Min(1));
    LayoutAreas { sidebar: cols.0, main: cols.1, player: rows.1 }
}

/// Splits the screen into its regions.
pub fn split(area: CellArea) -> (a: LayoutAreas)
    ensures
        a == screen_layout(area),
{
    let rows = solve_two(area, Axis::Vertical, Extent::Min(1), Extent::Length(PLAYER_H));
    let cols = solve_two(rows.0, Axis::Horizontal, Extent::Length(SIDEBAR_W), Extent::Min(1));
    LayoutAreas { sidebar: cols.0, main: cols.1, player: rows.1 }
}

/// The row of a playlist in the sidebar box `inner`, cut into the cover
/// column (the cover and a blank) and the text.
pub open spec fn playlist_columns_of(inner: CellArea) -> (CellArea, CellArea) {
    let row = CellArea { x: inner.x, y: inner.y, width: inner.width, height: COVER_H };
    split_two(row, Axis::Horizontal, Extent::Length((COVER_W + 1) as u16), Extent::Min(0))
}

/// The cover column and the text column of a playlist row.
pub fn playlist_columns(inner: CellArea) -> (cols: (CellArea, CellArea))
    ensures
        cols == playlist_columns_of(inner),
{
    let row = CellArea { x: inner.x, y: inner.y, width: inner.width, height: COVER_H };
    solve_two(row, Axis::Horizontal, Extent::Length(COVER_W + 1), Extent::Min(0))
}

/// The width left for a playlist's text in the sidebar box `inner`: what
/// the cover column (the cover and a blank) leaves, less one blank.
pub open spec fn playlist_text_width_of(inner: CellArea) -> int {
    sat_sub(playlist_columns_of(inner).1.width as int, 1)
}

/// The width left for a playlist's text in the sidebar box `inner`.
pub fn playlist_text_width(inner: CellArea) -> (w: u16)
    ensures
        w == playlist_text_width_of(inner),
{
    let cols = playlist_columns(inner);
    cols.1.width.saturating_sub(1)
}

} // verus!
