//! What the profile overlay shows: the user's badge and fields, the library
//! figures, the listening time and the ranked lists.

use vstd::prelude::*;
use crate::api::text_of;
use crate::cover::CellArea;
use crate::model::{UserProfile, UserStats};
use crate::schedule::sat_sub;
use crate::state::AppState;
use crate::text::{
    clock_text, days_hours_minutes_text, decimal, decimal_string, format_clock, format_duration,
    left_aligned, padded_left, padded_right, right_aligned, text_eq, trunc, truncated,
};

verus! {

/// What `char::to_uppercase` yields for `c`.
pub uninterp spec fn uppercase_of(c: char) -> Seq<char>;

/// The upper-case form of `c`, one or more characters: std's
/// `char::to_uppercase`, collected. Claimed: the result is what the name
/// `uppercase_of` gives for `c`.
#[verifier::external_body]
fn to_uppercase_chars(c: char) -> (r: Vec<char>)
    ensures
        r@ == uppercase_of(c),
{
    c.to_uppercase().collect()
}

/// The badge letter for an upper-cased first character: its first
/// character, `?` when there is none.
pub open spec fn badge_letter(upper: Seq<char>) -> char {
    if upper.len() > 0 { upper[0] } else { '?' }
}

/// The badge letter of a display name: its first character upper-cased
/// (`?` for an empty name).
pub open spec fn initial_of(name: Seq<char>) -> char {
    badge_letter(uppercase_of(if name.len() > 0 { name[0] } else { '?' }))
}

/// The badge letter for the upper-cased form of the name's first character.
pub fn badge_from(upper: &Vec<char>) -> (c: char)
    ensures
        c == badge_letter(upper@),
{
    if upper.len() > 0 { upper[0] } else { '?' }
}

/// The letter on the user's badge.
pub fn profile_initial(name: &str) -> (c: char)
    ensures
        c == initial_of(name@),
{
    let first = if name.unicode_len() > 0 { name.get_char(0) } else { '?' };
    let upper = to_uppercase_chars(first);
    badge_from(&upper)
}

/// Whether the account is on the premium tier.
pub fn is_premium(product: &Option<String>) -> (r: bool)
    ensures
        r == (text_of(*product) == Some("premium"@)),
{
    match product {
        Some(p) => text_eq(p.as_str(), "premium"),
        None => false,
    }
}

/// A label and its value.
#[derive(Debug)]
pub struct FieldLine {
    pub label: String,
    pub value: String,
}

/// The texts of a list of labelled lines.
pub open spec fn line_texts(lines: Seq<FieldLine>) -> Seq<(Seq<char>, Seq<char>)> {
    lines.map_values(|l: FieldLine| (l.label@, l.value@))
}

/// A field of the profile section: the label padded to 12 columns and two
/// blanks.
pub open spec fn field(label: Seq<char>, value: Seq<char>) -> (Seq<char>, Seq<char>) {
    (padded_right(label, 12) + "  "@, value)
}

/// The profile section's fields: the id, the e-mail and country when known,
/// and the follower count.
pub open spec fn profile_field_texts(p: UserProfile) -> Seq<(Seq<char>, Seq<char>)> {
    seq![field("ID"@, p.id@)] + (match p.email {
        Some(e) => seq![field("Email"@, e@)],
        None => Seq::empty(),
    }) + (match p.country {
        Some(c) => seq![field("Country"@, c@)],
        None => Seq::empty(),
    }) + seq![field("Followers"@, decimal(p.followers as nat))]
}

fn push_line(lines: &mut Vec<FieldLine>, label: String, value: String)
    ensures
        line_texts(final(lines)@) == line_texts(old(lines)@).push((label@, value@)),
{
    lines.push(FieldLine { label, value });
    assert(line_texts(lines@) =~= line_texts(old(lines)@).push((label@, value@)));
}

fn field_label(label: &str) -> (s: String)
    ensures
        s@ == padded_right(label@, 12) + "  "@,
{
    let mut s = left_aligned(label, 12);
    s.append("  ");
    s
}

/// The profile section's fields.
pub fn profile_fields(p: &UserProfile) -> (lines: Vec<FieldLine>)
    ensures
        line_texts(lines@) == profile_field_texts(*p),
{
    let mut lines: Vec<FieldLine> = Vec::new();
    push_line(&mut lines, field_label("ID"), p.id.clone());
    match &p.email {
        Some(e) => push_line(&mut lines, field_label("Email"), e.clone()),
        None => {},
    }
    match &p.country {
        Some(c) => push_line(&mut lines, field_label("Country"), c.clone()),
        None => {},
    }
    push_line(&mut lines, field_label("Followers"), decimal_string(p.followers as u64));
    assert(line_texts(lines@) =~= profile_field_texts(*p));
    lines
}

/// The quick figures under the fields: the number of playlists and of
/// liked songs, labels padded to 14 columns.
pub open spec fn quick_stat_texts(playlists: nat, liked: nat) -> Seq<(Seq<char>, Seq<char>)> {
    seq![(padded_right("Playlists"@, 14), decimal(playlists)), (padded_right("Liked songs"@, 14), decimal(liked))]
}

/// The quick figures of the profile section.
pub fn quick_stats(state: &AppState) -> (lines: Vec<FieldLine>)
    requires
        state.playlists@.len() <= u64::MAX,
        state.liked_tracks@.len() <= u64::MAX,
    ensures
        line_texts(lines@) == quick_stat_texts(state.playlists@.len(), state.liked_tracks@.len()),
{
    let mut lines: Vec<FieldLine> = Vec::new();
    push_line(&mut lines, left_aligned("Playlists", 14), decimal_string(state.playlists.len() as u64));
    push_line(&mut lines, left_aligned("Liked songs", 14), decimal_string(state.liked_tracks.len() as u64));
    assert(line_texts(lines@) =~= quick_stat_texts(state.playlists@.len(), state.liked_tracks@.len()));
    lines
}

/// A line of the library card: two blanks and the label padded to 16
/// columns.
pub open spec fn stat(label: Seq<char>, value: Seq<char>) -> (Seq<char>, Seq<char>) {
    ("  "@ + padded_right(label, 16), value)
}

/// The average length of a liked track, in milliseconds (0 with no liked
/// tracks).
pub open spec fn average_ms(s: UserStats) -> nat {
    if s.total_liked > 0 { (s.total_duration_ms / (s.total_liked as u64)) as nat } else { 0 }
}

/// The library card: the counts, the total listening time and the average
/// track length.
pub open spec fn library_texts(s: UserStats) -> Seq<(Seq<char>, Seq<char>)> {
    seq![
        stat("Liked tracks"@, decimal(s.total_liked as nat)),
        stat("Playlists"@, decimal(s.total_playlists as nat)),
        stat("Owned"@, decimal(s.owned_playlists as nat)),
        stat("Artists"@, decimal(s.unique_artists as nat)),
        stat("Albums"@, decimal(s.unique_albums as nat)),
        stat("Total time"@, days_hours_minutes_text(s.total_duration_ms as nat)),
        stat("Avg track"@, clock_text(average_ms(s))),
    ]
}

fn stat_label(label: &str) -> (s: String)
    ensures
        s@ == "  "@ + padded_right(label@, 16),
{
    let mut s = String::from_str("  ");
    let padded = left_aligned(label, 16);
    s.append(padded.as_str());
    s
}

/// The library card's lines.
pub fn library_lines(s: &UserStats) -> (lines: Vec<FieldLine>)
    ensures
        line_texts(lines@) == library_texts(*s),
{
    let avg: u64 = if s.total_liked > 0 { s.total_duration_ms / (s.total_liked as u64) } else { 0 };
    let mut lines: Vec<FieldLine> = Vec::new();
    push_line(&mut lines, stat_label("Liked tracks"), decimal_string(s.total_liked as u64));
    push_line(&mut lines, stat_label("Playlists"), decimal_string(s.total_playlists as u64));
    push_line(&mut lines, stat_label("Owned"), decimal_string(s.owned_playlists as u64));
    push_line(&mut lines, stat_label("Artists"), decimal_string(s.unique_artists as u64));
    push_line(&mut lines, stat_label("Albums"), decimal_string(s.unique_albums as u64));
    push_line(&mut lines, stat_label("Total time"), format_duration(s.total_duration_ms));
    push_line(&mut lines, stat_label("Avg track"), format_clock(avg));
    assert(line_texts(lines@) =~= library_texts(*s));
    lines
}

/// Milliseconds in a day.
pub const DAY_MS: u64 = 86400000;

/// Milliseconds in an hour.
pub const HOUR_MS: u64 = 3600000;

/// Milliseconds in a minute.
pub const MINUTE_MS: u64 = 60000;

/// The listening time split into whole days, the hours left over, and the
/// minutes left over.
pub fn time_parts(total_ms: u64) -> (parts: (u64, u64, u64))
    ensures
        parts.0 == total_ms / DAY_MS,
        parts.1 == (total_ms % DAY_MS) / HOUR_MS,
        parts.2 == (total_ms % HOUR_MS) / MINUTE_MS,
{
    (total_ms / DAY_MS, (total_ms % DAY_MS) / HOUR_MS, (total_ms % HOUR_MS) / MINUTE_MS)
}

/// One line of a ranked list: the rank column, the bar, a one-cell gap
/// when there is room for it, and the name.
#[derive(Debug)]
pub struct RankedRow {
    /// The rank column.
    pub rank: String,
    /// Cells of the bar drawn full.
    pub filled: usize,
    /// Cells of the bar drawn empty.
    pub empty: usize,
    /// Whether a blank cell follows the bar.
    pub gap: bool,
    pub label: String,
}

/// Cells in a ranked list's bar when the box has room for all of them.
pub const BAR_W: usize = 8;

/// The rank column of line `i` (from 0): the rank right-aligned in two
/// cells, between two spaces and ". ".
pub open spec fn rank_text(i: int) -> Seq<char> {
    "  "@ + padded_left(decimal((i + 1) as nat), 2) + ". "@
}

/// The cells of the bar of line `i` in a box `width` cells wide: `BAR_W`,
/// or what is left after the rank column and the gap when that is less.
pub open spec fn bar_width(i: int, width: u16) -> int {
    let room = sat_sub(sat_sub(width as int, rank_text(i).len() as int), 1);
    if room < BAR_W { room } else { BAR_W as int }
}

/// The full cells of the bar of rank `i` (from 0) among `n`, in a bar of
/// `bw` cells: shrinking linearly from the whole bar, never below one cell
/// (none in a bar of no cells).
pub open spec fn bar_filled(i: int, n: int, bw: int) -> int {
    if bw == 0 {
        0
    } else {
        let full = sat_sub(bw, i * bw / if n > 1 { n } else { 1 });
        if full > 1 { full } else { 1 }
    }
}

/// Line `i` of a ranked list of `n` entries in a box `width` cells wide: the
/// rank column (cut to the box when even it does not fit), the bar sized by
/// `bar_width`, the gap when the rank column leaves room for it, and the
/// name cut to the cells that remain.
pub open spec fn ranked_row_ok(items: Seq<String>, width: u16, i: int, r: RankedRow) -> bool {
    let rt = rank_text(i);
    let bw = bar_width(i, width);
    &&& r.rank@ == rt.take(if rt.len() <= width { rt.len() as int } else { width as int })
    &&& r.filled == bar_filled(i, items.len() as int, bw)
    &&& r.empty == bw - r.filled
    &&& r.gap == (rt.len() < width)
    &&& r.label@ == truncated(items[i]@, sat_sub(sat_sub(sat_sub(width as int, rt.len() as int), 1), bw) as nat)
}

/// The cells a ranked line takes.
pub open spec fn ranked_row_cells(r: RankedRow) -> int {
    r.rank@.len() + r.filled + r.empty + (if r.gap { 1int } else { 0int }) + r.label@.len()
}

/// The lines of a ranked list in a box `height` lines tall and `width`
/// cells wide: as many entries as there are lines, each with its rank, a
/// bar that shrinks down the list, and the name cut to the room left. No
/// line is wider than the box.
pub fn ranked_rows(items: &Vec<String>, height: u16, width: u16) -> (rows: Vec<RankedRow>)
    requires
        items@.len() * BAR_W <= usize::MAX,
        items@.len() < u64::MAX,
    ensures
        rows@.len() == if items@.len() < height { items@.len() as int } else { height as int },
        forall|i: int| 0 <= i < rows@.len() ==> ranked_row_ok(items@, width, i, #[trigger] rows@[i]),
        forall|i: int| 0 <= i < rows@.len() ==> ranked_row_cells(#[trigger] rows@[i]) <= width,
{
    let n = items.len();
    let count = if n < height as usize { n } else { height as usize };
    let w = width as usize;
    let divisor = if n > 1 { n } else { 1 };
    let mut rows: Vec<RankedRow> = Vec::new();
    let mut i: usize = 0;
    while i < count
        invariant
            i <= count <= n,
            n == items@.len(),
            n * BAR_W <= usize::MAX,
            n < u64::MAX,
            w == width,
            divisor == if n > 1 { n } else { 1 },
            rows@.len() == i,
            forall|k: int| 0 <= k < rows@.len() ==> ranked_row_ok(items@, width, k, #[trigger] rows@[k]),
            forall|k: int| 0 <= k < rows@.len() ==> ranked_row_cells(#[trigger] rows@[k]) <= width,
        decreases count - i,
    {
        let mut full_rank = String::from_str("  ");
        let num = right_aligned((i + 1) as u64, 2);
        full_rank.append(num.as_str());
        full_rank.append(". ");
        proof {
            reveal_strlit("  ");
            reveal_strlit(". ");
        }
        assert(full_rank@ == rank_text(i as int));
        let rl = full_rank.as_str().unicode_len();
        let gap = rl < w;
        let room = w.saturating_sub(rl).saturating_sub(1);
        let bw = if room < BAR_W { room } else { BAR_W };
        assert(bw == bar_width(i as int, width));
        assert(i * bw <= n * BAR_W) by (nonlinear_arith)
            requires
                i <= n,
                bw <= BAR_W,
        ;
        let filled = if bw == 0 {
            0
        } else {
            let full = bw.saturating_sub(i * bw / divisor);
            if full > 1 { full } else { 1 }
        };
        assert(filled <= bw);
        let label = trunc(items[i].as_str(), room.saturating_sub(bw));
        let rank = if rl <= w {
            full_rank
        } else {
            full_rank.as_str().substring_char(0, w).to_owned()
        };
        assert(rank@ =~= rank_text(i as int).take(if rl <= w { rl as int } else { w as int }));
        let row = RankedRow { rank, filled, empty: bw - filled, gap, label };
        assert(ranked_row_cells(row) <= width);
        rows.push(row);
        i = i + 1;
    }
    rows
}

/// `area` shrunk by `x` cells on the left and right and `y` lines at the top
/// and bottom.
pub open spec fn padded_area(area: CellArea, x: u16, y: u16) -> CellArea {
    CellArea {
        x: (area.x + x) as u16,
        y: (area.y + y) as u16,
        width: sat_sub(area.width as int, 2 * x) as u16,
        height: sat_sub(area.height as int, 2 * y) as u16,
    }
}

/// Shrinks an area by a margin on each side.
pub fn pad(area: CellArea, x: u16, y: u16) -> (r: CellArea)
    requires
        area.x + x <= u16::MAX,
        area.y + y <= u16::MAX,
        2 * x <= u16::MAX,
        2 * y <= u16::MAX,
    ensures
        r == padded_area(area, x, y),
{
    CellArea {
        x: area.x + x,
        y: area.y + y,
        width: area.width.saturating_sub(x * 2),
        height: area.height.saturating_sub(y * 2),
    }
}

} // verus!
