//! What the panes show, worked out from the state: the rows in view, the
//! text of each cell, what is highlighted, and where the covers go. The
//! drawing itself is left to the terminal front end.

use vstd::prelude::*;
use vstd::string::StringSliceAdditionalSpecFns;
use crate::api::text_of;
use crate::cover::CellArea;
use crate::model::TrackSummary;
use crate::schedule::{cached_urls, sat_sub, window};
use crate::state::{AppState, AppView, ExplorerNode, Focus, SCROLL_SETTLE_MS, elapsed_ms};
use crate::text::{
    clock_text, decimal, fmt_ms, padded_left, right_aligned, string_push, text_eq, trunc, truncated,
};

verus! {

// ── The bars ────────────────────────────────────────────────────────────────

/// Where the explorer stands, as the status and player bars show it.
pub open spec fn breadcrumb_text(v: AppView) -> Seq<char> {
    if v.explorer_stack.len() == 0 {
        "Library"@
    } else {
        match v.explorer_stack.last() {
            ExplorerNode::PlaylistTracks(_, name, _) => "Library › Playlist › "@ + name@,
            ExplorerNode::LikedTracks => "Library › Liked Songs"@,
        }
    }
}

/// The breadcrumb of the explorer's listing.
pub fn breadcrumb(state: &AppState) -> (s: String)
    ensures
        s@ == breadcrumb_text(state@),
{
    let n = state.explorer_stack.len();
    if n == 0 {
        return String::from_str("Library");
    }
    match &state.explorer_stack[n - 1] {
        ExplorerNode::PlaylistTracks(_, name, _) => {
            let mut s = String::from_str("Library › Playlist › ");
            s.append(name.as_str());
            s
        },
        ExplorerNode::LikedTracks => String::from_str("Library › Liked Songs"),
    }
}

/// The name of the pane that has the keyboard.
pub fn focus_label(focus: Focus) -> (s: &'static str)
    ensures
        s@ == match focus {
            Focus::Sidebar => "SIDEBAR"@,
            Focus::Explorer => "EXPLORER"@,
        },
{
    match focus {
        Focus::Sidebar => "SIDEBAR",
        Focus::Explorer => "EXPLORER",
    }
}

/// The numeric prefix typed so far, empty when none.
pub fn pending_text(state: &AppState) -> (s: String)
    ensures
        s@ == match state.pending_count {
            Some(n) => decimal(n as nat),
            None => Seq::empty(),
        },
{
    match state.pending_count {
        Some(n) => crate::text::decimal_string(n as u64),
        None => String::new(),
    }
}

/// The visualiser's glyph for step `i` of its cycle of ten.
pub open spec fn bar_glyph(i: int) -> char {
    if i == 0 || i == 5 || i == 9 {
        '▂'
    } else if i == 1 || i == 7 {
        '▅'
    } else if i == 2 || i == 6 {
        '▇'
    } else if i == 3 {
        '▆'
    } else {
        '▃'
    }
}

/// The ten glyphs the visualiser shows at `phase`.
pub open spec fn visualizer_text(phase: nat) -> Seq<char> {
    Seq::new(10, |i: int| bar_glyph((phase + i) % 10))
}

fn glyph(i: usize) -> (c: char)
    requires
        i < 10,
    ensures
        c == bar_glyph(i as int),
{
    if i == 0 || i == 5 || i == 9 {
        '▂'
    } else if i == 1 || i == 7 {
        '▅'
    } else if i == 2 || i == 6 {
        '▇'
    } else if i == 3 {
        '▆'
    } else {
        '▃'
    }
}

/// The visualiser's glyphs at the state's phase.
pub fn visualizer(phase: usize) -> (s: String)
    requires
        phase + 10 <= usize::MAX,
    ensures
        s@ == visualizer_text(phase as nat),
{
    let mut s = String::new();
    let mut i: usize = 0;
    while i < 10
        invariant
            i <= 10,
            phase + 10 <= usize::MAX,
            s@ == visualizer_text(phase as nat).take(i as int),
        decreases 10 - i,
    {
        string_push(&mut s, glyph((phase + i) % 10));
        i = i + 1;
        assert(s@ =~= visualizer_text(phase as nat).take(i as int));
    }
    assert(visualizer_text(phase as nat).take(10) =~= visualizer_text(phase as nat));
    s
}

// ── The sidebar ─────────────────────────────────────────────────────────────

/// Width of a playlist cover in the sidebar, in cells.
pub const COVER_W: u16 = 8;

/// Height of a playlist row in the sidebar, in cells.
pub const COVER_H: u16 = 4;

/// The first playlist in view: the cursor kept on the last row in view when
/// it goes below, and the view never running past the end of the list.
pub open spec fn sidebar_scroll_of(sel: int, total: int, vis: int) -> int {
    let s = if sel >= vis { sel + 1 - vis } else { 0 };
    if s + vis > total { sat_sub(total, vis) } else { s }
}

/// The first playlist in view.
pub fn sidebar_scroll(sel: usize, total: usize, visible_rows: usize) -> (s: usize)
    requires
        sel < usize::MAX,
    ensures
        s == sidebar_scroll_of(sel as int, total as int, visible_rows as int),
{
    let mut scroll: usize = 0;
    if sel >= visible_rows {
        scroll = sel + 1 - visible_rows;
    }
    if scroll + visible_rows > total {
        scroll = total.saturating_sub(visible_rows);
    }
    scroll
}

/// One playlist row of the sidebar.
#[derive(Debug)]
pub struct SidebarRow {
    /// The playlist's position in the list.
    pub index: usize,
    /// The row's top line.
    pub y: u16,
    /// The cursor's row while the sidebar has the keyboard.
    pub highlighted: bool,
    /// The row number column.
    pub number: String,
    pub name: String,
    /// The track count, and a mark on playlists of other users.
    pub detail: String,
    /// The cover URL, when the cover cache holds it.
    pub cover: Option<String>,
}

/// What the playlists box shows.
#[derive(Debug)]
pub enum PlaylistsPane {
    Loading,
    Empty,
    Rows(Vec<SidebarRow>),
}

/// The row number column of entry `i` (counted from 0).
pub open spec fn row_number(i: int) -> Seq<char> {
    padded_left(decimal((i + 1) as nat), 3) + " │ "@
}

/// The second line of a playlist row.
pub open spec fn playlist_detail(count: u32, owner: bool) -> Seq<char> {
    decimal(count as nat) + " tracks"@ + if owner { Seq::empty() } else { "  ⊘"@ }
}

/// The cover shown for an image URL: the URL when the cache holds it.
pub open spec fn cover_shown(v: AppView, url: Option<String>) -> Option<Seq<char>> {
    match url {
        Some(u) => if cached_urls(v.cover_cache).contains(u@) { Some(u@) } else { None },
        None => None,
    }
}

/// How many playlist rows fit in a box of the given inner height.
pub open spec fn sidebar_visible(height: u16) -> int {
    if height / COVER_H == 0 { 1 } else { (height / COVER_H) as int }
}

/// How many rows the sidebar draws.
pub open spec fn sidebar_row_count(v: AppView, inner: CellArea) -> int {
    let vis = sidebar_visible(inner.height);
    let scroll = sidebar_scroll_of(v.navigation.selected_index as int, v.playlists.len() as int, vis);
    if inner.height < COVER_H {
        0
    } else if scroll + vis <= v.playlists.len() {
        vis
    } else {
        v.playlists.len() - scroll
    }
}

/// Row `k` of the sidebar is the playlist it should be, where it should be.
pub open spec fn sidebar_row_ok(v: AppView, inner: CellArea, text_width: u16, k: int, r: SidebarRow) -> bool {
    let vis = sidebar_visible(inner.height);
    let scroll = sidebar_scroll_of(v.navigation.selected_index as int, v.playlists.len() as int, vis);
    let i = scroll + k;
    let pl = v.playlists[i];
    &&& r.index == i
    &&& r.y == inner.y + k * (COVER_H as int)
    &&& r.highlighted == (i == v.navigation.selected_index && v.focus == Focus::Sidebar)
    &&& r.number@ == row_number(i)
    &&& r.name@ == truncated(pl.name@, (text_width - 6) as nat)
    &&& r.detail@ == playlist_detail(pl.track_count, pl.owner)
    &&& text_of(r.cover) == cover_shown(v, pl.image_url)
}

/// What the playlists box shows for the given inner area: a notice while
/// loading or when the list is empty, otherwise the rows in view.
pub open spec fn playlists_pane_ok(v: AppView, inner: CellArea, text_width: u16, p: PlaylistsPane) -> bool {
    if !v.loaded_playlists {
        p is Loading
    } else if v.playlists.len() == 0 {
        p is Empty
    } else {
        &&& p is Rows
        &&& p->0@.len() == sidebar_row_count(v, inner)
        &&& forall|k: int| 0 <= k < p->0@.len() ==> sidebar_row_ok(v, inner, text_width, k, #[trigger] p->0@[k])
    }
}

/// What drawing the sidebar demands: the box within the screen's
/// coordinates, a cursor below the largest index, and room for names.
pub open spec fn sidebar_fits(v: AppView, inner: CellArea, text_width: u16) -> bool {
    &&& inner.y + inner.height <= u16::MAX
    &&& v.navigation.selected_index < usize::MAX
    &&& v.playlists.len() < u64::MAX
    &&& v.playlists.len() < usize::MAX
    &&& (sidebar_row_count(v, inner) > 0 ==> text_width >= 6)
}

fn cover_of(state: &AppState, url: &Option<String>) -> (r: Option<String>)
    ensures
        text_of(r) == cover_shown(state@, *url),
{
    match url {
        Some(u) => {
            if crate::schedule::cache_has(&state.cover_cache, u.as_str()) {
                Some(u.clone())
            } else {
                None
            }
        },
        None => None,
    }
}

fn number_column(i: usize) -> (s: String)
    requires
        i < usize::MAX,
        i + 1 <= u64::MAX,
    ensures
        s@ == row_number(i as int),
{
    let mut s = right_aligned((i + 1) as u64, 3);
    s.append(" │ ");
    s
}

fn detail_line(count: u32, owner: bool) -> (s: String)
    ensures
        s@ == playlist_detail(count, owner),
{
    let mut s = crate::text::decimal_string(count as u64);
    s.append(" tracks");
    if !owner {
        s.append("  ⊘");
    }
    assert(s@ =~= playlist_detail(count, owner));
    s
}

/// The playlists box for the given inner area; `text_width` is the width of
/// the text beside the covers.
pub fn playlists_pane(state: &AppState, inner: CellArea, text_width: u16) -> (p: PlaylistsPane)
    requires
        sidebar_fits(state@, inner, text_width),
    ensures
        playlists_pane_ok(state@, inner, text_width, p),
{
    if !state.loaded_playlists {
        return PlaylistsPane::Loading;
    }
    if state.playlists.len() == 0 {
        return PlaylistsPane::Empty;
    }
    let sel = state.navigation.selected_index;
    let total = state.playlists.len();
    let vis0 = (inner.height / COVER_H) as usize;
    let vis = if vis0 == 0 { 1 } else { vis0 };
    let scroll = sidebar_scroll(sel, total, vis);
    let ghost count = sidebar_row_count(state@, inner);
    let mut rows: Vec<SidebarRow> = Vec::new();
    if inner.height < COVER_H {
        return PlaylistsPane::Rows(rows);
    }
    let end = if scroll + vis <= total { scroll + vis } else { total };
    let mut i = scroll;
    while i < end
        invariant
            scroll <= i <= end <= total,
            total == state.playlists.len(),
            end - scroll == count,
            end <= scroll + vis,
            inner.height >= COVER_H,
            vis == sidebar_visible(inner.height),
            vis * 4 <= inner.height,
            scroll == sidebar_scroll_of(sel as int, total as int, vis as int),
            sel == state.navigation.selected_index,
            sidebar_fits(state@, inner, text_width),
            count > 0,
            rows@.len() == i - scroll,
            forall|k: int| 0 <= k < rows@.len() ==> sidebar_row_ok(state@, inner, text_width, k, #[trigger] rows@[k]),
        decreases end - i,
    {
        let pl = &state.playlists[i];
        let k = i - scroll;
        assert(k < vis);
        assert(k * 4 < inner.height) by (nonlinear_arith)
            requires
                k < vis,
                vis * 4 <= inner.height,
        ;
        let y = inner.y + (k as u16) * COVER_H;
        let row = SidebarRow {
            index: i,
            y,
            highlighted: i == sel && state.focus == Focus::Sidebar,
            number: number_column(i),
            name: trunc(pl.name.as_str(), (text_width - 6) as usize),
            detail: detail_line(pl.track_count, pl.owner),
            cover: cover_of(state, &pl.image_url),
        };
        rows.push(row);
        i = i + 1;
    }
    PlaylistsPane::Rows(rows)
}

/// The liked songs entry below the playlists.
#[derive(Debug)]
pub struct LikedEntry {
    /// The row number column.
    pub number: String,
    /// The sidebar cursor stands on it.
    pub selected: bool,
    /// It is selected and the sidebar has the keyboard.
    pub highlighted: bool,
}

/// The liked songs entry: numbered after the playlists.
pub fn liked_entry(state: &AppState) -> (e: LikedEntry)
    requires
        state.playlists@.len() < u64::MAX,
        state.playlists@.len() < usize::MAX,
    ensures
        e.number@ == row_number(state.playlists@.len() as int),
        e.selected == (state.navigation.selected_index == state.playlists@.len()),
        e.highlighted == (e.selected && state.focus == Focus::Sidebar),
{
    let n = state.playlists.len();
    let selected = state.navigation.selected_index == n;
    LikedEntry { number: number_column(n), selected, highlighted: selected && state.focus == Focus::Sidebar }
}

/// The account box's text: the user's name, or a notice while connecting.
pub fn account_name(state: &AppState) -> (s: String)
    ensures
        s@ == match state.user_name {
            Some(n) => n@,
            None => "Connecting…"@,
        },
{
    match &state.user_name {
        Some(n) => n.clone(),
        None => String::from_str("Connecting…"),
    }
}

// ── The explorer ────────────────────────────────────────────────────────────

/// What the explorer shows.
#[derive(Clone, Copy, PartialEq, Eq, Debug, Structural)]
pub enum ExplorerBody {
    /// Nothing opened yet.
    NoListing,
    /// A playlist of another user, whose tracks cannot be listed.
    NotOwned,
    /// The listing is being fetched.
    Loading,
    /// The tracks.
    Tracks,
}

/// What the explorer shows for the state.
pub open spec fn explorer_body_of(v: AppView) -> ExplorerBody {
    if v.explorer_stack.len() == 0 {
        ExplorerBody::NoListing
    } else if v.explorer_stack.last() matches ExplorerNode::PlaylistTracks(_, _, owner) && !owner {
        ExplorerBody::NotOwned
    } else if v.explorer_items.len() == 0 {
        ExplorerBody::Loading
    } else {
        ExplorerBody::Tracks
    }
}

/// What the explorer shows.
pub fn explorer_body(state: &AppState) -> (b: ExplorerBody)
    ensures
        b == explorer_body_of(state@),
{
    let n = state.explorer_stack.len();
    if n == 0 {
        return ExplorerBody::NoListing;
    }
    if let ExplorerNode::PlaylistTracks(_, _, owner) = &state.explorer_stack[n - 1] {
        if !*owner {
            return ExplorerBody::NotOwned;
        }
    }
    if state.explorer_items.len() == 0 {
        ExplorerBody::Loading
    } else {
        ExplorerBody::Tracks
    }
}

/// Whether the explorer stacks the detail panel under the table instead of
/// beside it.
pub fn is_compact(width: u16) -> (r: bool)
    ensures
        r == (width < 120),
{
    width < 120
}

/// The width of the title column in a table of the given width: what the
/// other columns leave, at least 10.
pub fn title_width(table_width: u16) -> (w: u16)
    ensures
        w == if sat_sub(table_width as int, 58) > 10 { sat_sub(table_width as int, 58) } else { 10 },
{
    let w = table_width.saturating_sub(58);
    if w > 10 { w } else { 10 }
}

/// How a track row is drawn.
#[derive(Clone, Copy, PartialEq, Eq, Debug, Structural)]
pub enum RowStyle {
    /// Under the cursor while the explorer has the keyboard.
    Cursor,
    /// The track the player is playing.
    Playing,
    Plain,
}

/// One track row of the explorer's table.
#[derive(Debug)]
pub struct ExplorerRow {
    /// The distance to the cursor's row, shown as the row number.
    pub relative: usize,
    pub number: String,
    /// The player is playing this track.
    pub playing: bool,
    pub style: RowStyle,
    pub title: String,
    pub artist: String,
    pub album: String,
    pub time: String,
}

/// Width of the artist and album columns.
pub const NAME_COLUMN_W: usize = 22;

/// The distance between rows `i` and `j`.
pub open spec fn distance(i: int, j: int) -> int {
    if i >= j { i - j } else { j - i }
}

/// The player plays the track.
pub open spec fn plays_track(v: AppView, t: TrackSummary) -> bool {
    t.id@.len() > 0 && (v.playback matches Some(p) && p.track_id@ == t.id@)
}

/// Row `i` of the explorer's table shows track `i` as it should.
pub open spec fn explorer_row_ok(v: AppView, title_w: u16, i: int, r: ExplorerRow) -> bool {
    let t = v.explorer_items[i];
    let sel = v.explorer_selected_index as int;
    &&& r.relative == distance(i, sel)
    &&& r.number@ == padded_left(decimal(r.relative as nat), 4) + " "@
    &&& r.playing == plays_track(v, t)
    &&& r.style == if i == sel && v.focus == Focus::Explorer {
        RowStyle::Cursor
    } else if plays_track(v, t) {
        RowStyle::Playing
    } else {
        RowStyle::Plain
    }
    &&& r.title@ == truncated(t.name@, title_w as nat)
    &&& r.artist@ == truncated(t.artist@, NAME_COLUMN_W as nat)
    &&& r.album@ == truncated(t.album@, NAME_COLUMN_W as nat)
    &&& r.time@ == clock_text(t.duration_ms as nat)
}

/// The rows of the explorer's table, one per track.
pub fn explorer_rows(state: &AppState, title_w: u16) -> (rows: Vec<ExplorerRow>)
    ensures
        rows@.len() == state.explorer_items@.len(),
        forall|i: int| 0 <= i < rows@.len() ==> explorer_row_ok(state@, title_w, i, #[trigger] rows@[i]),
{
    let sel = state.explorer_selected_index;
    let active = state.focus == Focus::Explorer;
    let mut rows: Vec<ExplorerRow> = Vec::new();
    let mut i: usize = 0;
    while i < state.explorer_items.len()
        invariant
            i <= state.explorer_items.len(),
            sel == state.explorer_selected_index,
            active == (state.focus == Focus::Explorer),
            rows@.len() == i,
            forall|k: int| 0 <= k < rows@.len() ==> explorer_row_ok(state@, title_w, k, #[trigger] rows@[k]),
        decreases state.explorer_items.len() - i,
    {
        let t = &state.explorer_items[i];
        let rel = if i >= sel { i - sel } else { sel - i };
        let playing = !t.id.as_str().is_empty() && state.is_playing_track(t.id.as_str());
        let style = if i == sel && active {
            RowStyle::Cursor
        } else if playing {
            RowStyle::Playing
        } else {
            RowStyle::Plain
        };
        let mut number = right_aligned(rel as u64, 4);
        number.append(" ");
        rows.push(ExplorerRow {
            relative: rel,
            number,
            playing,
            style,
            title: trunc(t.name.as_str(), title_w as usize),
            artist: trunc(t.artist.as_str(), NAME_COLUMN_W),
            album: trunc(t.album.as_str(), NAME_COLUMN_W),
            time: fmt_ms(t.duration_ms),
        });
        i = i + 1;
    }
    rows
}

/// The row the table highlights: the cursor's, held within the list.
pub fn table_selection(state: &AppState) -> (i: usize)
    ensures
        i == if (state.explorer_selected_index as int) < sat_sub(state.explorer_items@.len() as int, 1) {
            state.explorer_selected_index as int
        } else {
            sat_sub(state.explorer_items@.len() as int, 1)
        },
{
    let last = state.explorer_items.len().saturating_sub(1);
    if state.explorer_selected_index < last { state.explorer_selected_index } else { last }
}

/// Width of a track cover beside the table, in cells.
pub const ROW_COVER_W: u16 = 6;

/// A cover beside the table.
#[derive(Debug)]
pub struct CoverSlot {
    /// The track's position in the listing.
    pub index: usize,
    pub area: CellArea,
    /// The cover URL, when the cover cache holds it.
    pub cover: Option<String>,
}

/// The first track whose cover is in view beside the table, and how many
/// rows the column has room for.
pub open spec fn cover_rows(v: AppView, area: CellArea) -> (int, int) {
    let vis = sat_sub(area.height as int, 1) / (crate::schedule::ROW_COVER_H as int);
    (sat_sub(v.explorer_selected_index as int, sat_sub(vis, 1)), vis + 1)
}

/// The tracks whose covers the column lays out: those in view, placed at
/// the line after the header plus three lines per position in the listing,
/// as long as that fits in the column.
pub open spec fn cover_slot_count(v: AppView, area: CellArea) -> int {
    let (start, count) = cover_rows(v, area);
    let w = window(v.explorer_items, start, count);
    let lo = if start < v.explorer_items.len() { start } else { v.explorer_items.len() as int };
    let fit = if area.height >= 4 { (area.height - 4) / 3 + 1 } else { 0 };
    if lo >= fit { 0 } else if lo + w.len() <= fit { w.len() as int } else { fit - lo }
}

/// Slot `k` of the cover column is the cover it should be.
pub open spec fn cover_slot_ok(v: AppView, area: CellArea, k: int, s: CoverSlot) -> bool {
    let (start, _) = cover_rows(v, area);
    let lo = if start < v.explorer_items.len() { start } else { v.explorer_items.len() as int };
    let i = lo + k;
    &&& s.index == i
    &&& s.area == CellArea { x: area.x, y: (area.y + 1 + 3 * i) as u16, width: ROW_COVER_W, height: 3 }
    &&& text_of(s.cover) == cover_shown(v, v.explorer_items[i].album_image_url)
}

/// What laying out the cover column demands: positions that fit the
/// screen's coordinates.
pub open spec fn cover_column_fits(v: AppView, area: CellArea) -> bool {
    let (start, count) = cover_rows(v, area);
    &&& area.y + area.height <= u16::MAX
    &&& start + count <= 21845
}

/// The covers beside the table of a listing, in the column `area`.
pub fn row_cover_slots(state: &AppState, area: CellArea) -> (slots: Vec<CoverSlot>)
    requires
        cover_column_fits(state@, area),
    ensures
        slots@.len() == cover_slot_count(state@, area),
        forall|k: int| 0 <= k < slots@.len() ==> cover_slot_ok(state@, area, k, #[trigger] slots@[k]),
{
    let sel = state.explorer_selected_index;
    let vis = (area.height.saturating_sub(1) / crate::schedule::ROW_COVER_H) as usize;
    let scroll = sel.saturating_sub(vis.saturating_sub(1));
    let n = state.explorer_items.len();
    let lo = if scroll < n { scroll } else { n };
    let hi = if n - lo > vis + 1 { lo + vis + 1 } else { n };
    let h = area.height;
    let fit: usize = if h >= 4 { ((h - 4) / 3 + 1) as usize } else { 0 };
    let end = if lo >= fit { lo } else if hi <= fit { hi } else { fit };
    assert(window(state@.explorer_items, cover_rows(state@, area).0, cover_rows(state@, area).1) =~= state@.explorer_items.subrange(lo as int, hi as int));
    assert(lo as int == (if cover_rows(state@, area).0 < n { cover_rows(state@, area).0 } else { n as int }));
    let mut slots: Vec<CoverSlot> = Vec::new();
    let mut i = lo;
    while i < end
        invariant
            lo as int == (if cover_rows(state@, area).0 < n { cover_rows(state@, area).0 } else { n as int }),
            lo <= i <= end <= hi <= n,
            end <= fit || end == lo,
            n == state.explorer_items.len(),
            hi <= 21845,
            fit == (if area.height >= 4 { (area.height - 4) / 3 + 1 } else { 0int }),
            area.y + area.height <= u16::MAX,
            slots@.len() == i - lo,
            forall|k: int| 0 <= k < slots@.len() ==> cover_slot_ok(state@, area, k, #[trigger] slots@[k]),
        decreases end - i,
    {
        assert(3 * i + 4 <= area.height);
        let y: u16 = area.y + 1 + (i as u16) * 3;
        let t = &state.explorer_items[i];
        slots.push(CoverSlot {
            index: i,
            area: CellArea { x: area.x, y, width: ROW_COVER_W, height: 3 },
            cover: cover_of(state, &t.album_image_url),
        });
        i = i + 1;
    }
    slots
}

/// The cover area of the detail panel: at most 24 cells wide and 5 tall when
/// compact; otherwise at most 38 wide and half as tall (in Neovim, where
/// cells are about square, as tall as wide), centred at the top.
pub open spec fn detail_cover_of(inner: CellArea, compact: bool, in_nvim: bool) -> CellArea {
    let w: int = if compact {
        if inner.width < 24 { inner.width as int } else { 24 }
    } else {
        if 38 < inner.width { 38 } else { inner.width as int }
    };
    let h: int = if compact {
        5
    } else if in_nvim {
        if w < inner.height { w } else { inner.height as int }
    } else {
        let half = if w / 2 < 19 { w / 2 } else { 19 };
        if half < inner.height { half } else { inner.height as int }
    };
    CellArea {
        x: (inner.x + sat_sub(inner.width as int, w) / 2) as u16,
        y: inner.y,
        width: w as u16,
        height: h as u16,
    }
}

/// Where the detail panel's cover goes.
pub fn detail_cover_area(inner: CellArea, compact: bool, in_nvim: bool) -> (a: CellArea)
    requires
        inner.x + inner.width <= u16::MAX,
    ensures
        a == detail_cover_of(inner, compact, in_nvim),
{
    let w = if compact {
        if inner.width < 24 { inner.width } else { 24 }
    } else {
        if 38 < inner.width { 38 } else { inner.width }
    };
    let h = if compact {
        5
    } else if in_nvim {
        if w < inner.height { w } else { inner.height }
    } else {
        let half = if w / 2 < 19 { w / 2 } else { 19 };
        if half < inner.height { half } else { inner.height }
    };
    CellArea { x: inner.x + inner.width.saturating_sub(w) / 2, y: inner.y, width: w, height: h }
}

/// The detail panel draws the selected track's cover only once it is cached
/// and the cursor has rested.
pub open spec fn detail_cover_ready_of(v: AppView, now: u64) -> bool {
    &&& (v.explorer_selected_index as int) < v.explorer_items.len()
    &&& cover_shown(v, v.explorer_items[v.explorer_selected_index as int].album_image_url) is Some
    &&& match v.last_nav_move {
        Some(t) => elapsed_ms(t, now) >= SCROLL_SETTLE_MS,
        None => true,
    }
}

/// Whether the detail panel draws the selected track's cover at `now_ms`.
pub fn detail_cover_ready(state: &AppState, now_ms: u64) -> (r: bool)
    ensures
        r == detail_cover_ready_of(state@, now_ms),
{
    let sel = state.explorer_selected_index;
    if sel >= state.explorer_items.len() {
        return false;
    }
    let cover = cover_of(state, &state.explorer_items[sel].album_image_url);
    cover.is_some() && state.scroll_settled(now_ms)
}

/// The detail panel's text about a track.
#[derive(Debug)]
pub struct DetailText {
    pub name: String,
    pub artist: String,
    pub album: String,
    pub time: String,
}

/// The detail panel's text for a track in a panel `width` cells wide: the
/// name and artist cut to the width, the album cut to what its label
/// leaves, and the length.
pub fn detail_text(track: &TrackSummary, width: u16) -> (d: DetailText)
    ensures
        d.name@ == truncated(track.name@, width as nat),
        d.artist@ == truncated(track.artist@, width as nat),
        d.album@ == truncated(track.album@, sat_sub(width as int, 7) as nat),
        d.time@ == clock_text(track.duration_ms as nat),
{
    let w = width as usize;
    DetailText {
        name: trunc(track.name.as_str(), w),
        artist: trunc(track.artist.as_str(), w),
        album: trunc(track.album.as_str(), w.saturating_sub(7)),
        time: fmt_ms(track.duration_ms),
    }
}

// ── Notices ─────────────────────────────────────────────────────────────────

/// Where a notice of `len` bytes goes on a screen: bottom right, three lines
/// tall, six columns wider than the text (at most the screen's width), one
/// cell off the edges.
pub open spec fn toast_area_of(len: usize, screen: CellArea) -> CellArea {
    let want = (len as u16) + 6;
    let w = if want < screen.width { want } else { screen.width as int };
    CellArea {
        x: sat_sub(screen.width as int, w + 1) as u16,
        y: sat_sub(screen.height as int, 4) as u16,
        width: w as u16,
        height: 3,
    }
}

/// Where the notice `msg` goes on `screen`.
pub fn toast_area(msg: &str, screen: CellArea) -> (a: CellArea)
    requires
        ((msg.spec_bytes().len() as usize) as u16) + 6 <= u16::MAX,
        screen.width < u16::MAX,
    ensures
        a == toast_area_of(msg.spec_bytes().len() as usize, screen),
{
    let want = (msg.len() as u16) + 6;
    let w = if want < screen.width { want } else { screen.width };
    CellArea { x: screen.width.saturating_sub(w + 1), y: screen.height.saturating_sub(4), width: w, height: 3 }
}

} // verus!
