//! What holds of the reducer across events: states it never leaves, pairs of
//! events that cancel out, and where the cursor and the explorer end up.

use vstd::prelude::*;
use crate::control::{Command, Key, counts_digit, emits, is_digit, key_commands, key_state, prefix_with};
use crate::cover::{CellArea, CoverImage, RenderCache, frame_begun, kitty_queued, shown_this_frame};
use crate::model::{TrackSummary, texts};
use crate::schedule::{cover_candidates, covers_due, explorer_cover_urls, newly_fetched};
use crate::reducer::{AppEvent, event_fits, merged, reduced, sidebar_node};
use crate::state::{AppStatus, AppView, ExplorerNode, Focus, KeyMode};

verus! {

/// The cursor of the pane that has the keyboard.
pub open spec fn focused_cursor(v: AppView) -> nat {
    match v.focus {
        Focus::Sidebar => v.navigation.selected_index as nat,
        Focus::Explorer => v.explorer_selected_index as nat,
    }
}

/// The event moves the cursor of the focused pane.
pub open spec fn is_motion(e: AppEvent) -> bool {
    ||| e is MoveDown
    ||| e is MoveUp
    ||| e is GoTop
    ||| e is GoBottom
    ||| e is GoMiddle
}

/// The state reads keys as list motions (no overlay is open).
pub open spec fn reads_motions(v: AppView) -> bool {
    v.key_mode == KeyMode::Normal || v.key_mode == KeyMode::AwaitingG
}

/// Everything that was loaded, user, playlists and liked songs.
pub open spec fn all_loaded(v: AppView) -> bool {
    v.loaded_user && v.loaded_playlists && v.loaded_liked
}

/// Once quitting has been asked for, no event takes it back.
pub proof fn lemma_quit_is_final(v: AppView, e: AppEvent, now: u64)
    requires
        v.should_quit,
    ensures
        reduced(v, e, now).should_quit,
{
    reveal(reduced);
}

/// Quitting and logging out both end the event loop.
pub proof fn lemma_quit_events_quit(v: AppView, now: u64)
    ensures
        reduced(v, AppEvent::Quit, now).should_quit,
        reduced(v, AppEvent::ProfileLogout, now).should_quit,
{
    reveal(reduced);
}

/// A ready library stays ready, whatever happens next.
pub proof fn lemma_ready_is_kept(v: AppView, e: AppEvent, now: u64)
    requires
        v.status == AppStatus::Ready,
    ensures
        reduced(v, e, now).status == AppStatus::Ready,
{
    reveal(reduced);
}

/// The library is never still loading once the user, the playlists and the
/// liked songs have all arrived: every event keeps that so.
pub proof fn lemma_ready_once_loaded(v: AppView, e: AppEvent, now: u64)
    requires
        !(v.status == AppStatus::Loading && all_loaded(v)),
    ensures
        !(reduced(v, e, now).status == AppStatus::Loading && all_loaded(reduced(v, e, now))),
{
    reveal(reduced);
}

/// Toggling pause twice gives back the playback state one started from.
pub proof fn lemma_toggle_pause_twice(v: AppView, t1: u64, t2: u64)
    ensures
        reduced(reduced(v, AppEvent::TogglePause, t1), AppEvent::TogglePause, t2) == v,
{
    reveal(reduced);
    match v.playback {
        Some(p) => {
            assert(crate::model::PlaybackState { is_playing: !!p.is_playing, ..p } == p);
        },
        None => {},
    }
}

/// In the panes, every motion leaves the focused cursor on an entry of its
/// list, and changes neither the focus nor the list's length.
pub proof fn lemma_motion_in_range(v: AppView, e: AppEvent, now: u64)
    requires
        v.wf(),
        event_fits(v, e),
        reads_motions(v),
        is_motion(e),
    ensures
        reduced(v, e, now).focus == v.focus,
        reduced(v, e, now).max_index() == v.max_index(),
        focused_cursor(reduced(v, e, now)) <= v.max_index(),
{
    reveal(reduced);
}

/// In the panes, moving down by a count and back up by the same count
/// returns the cursor to where it was, as long as the way down stays within
/// the list.
pub proof fn lemma_down_then_up(v: AppView, n: usize, t1: u64, t2: u64)
    requires
        v.wf(),
        reads_motions(v),
        focused_cursor(v) + n <= v.max_index(),
    ensures
        reduced(reduced(v, AppEvent::MoveDown(n), t1), AppEvent::MoveUp(n), t2).focus == v.focus,
        focused_cursor(reduced(reduced(v, AppEvent::MoveDown(n), t1), AppEvent::MoveUp(n), t2)) == focused_cursor(v),
{
    reveal(reduced);
}

/// Opening the profile overlay and closing it again changes nothing.
pub proof fn lemma_profile_round_trip(v: AppView, t1: u64, t2: u64)
    requires
        v.key_mode == KeyMode::Normal,
    ensures
        reduced(reduced(v, AppEvent::OpenProfile, t1), AppEvent::CloseProfile, t2) == v,
{
    reveal(reduced);
}

/// Opening the track menu and closing it again changes nothing, when no
/// menu was open before.
pub proof fn lemma_track_menu_round_trip(v: AppView, t1: u64, t2: u64)
    requires
        v.key_mode == KeyMode::Normal,
        v.track_menu.track is None,
        v.track_menu.query.len() == 0,
        v.track_menu.actions.len() == 0,
        v.track_menu.selected == 0,
        !v.track_menu.picking_playlist,
    ensures
        reduced(reduced(v, AppEvent::OpenTrackMenu, t1), AppEvent::CloseTrackMenu, t2) == v,
{
    reveal(reduced);
    assert(v.track_menu.query =~= Seq::<char>::empty());
    assert(v.track_menu.actions =~= Seq::<crate::trackmenu::TrackAction>::empty());
}

/// `gg`, `G` and `M` put the focused cursor on the first, the last and the
/// middle entry.
pub proof fn lemma_jumps_land(v: AppView, now: u64)
    requires
        v.wf(),
    ensures
        focused_cursor(reduced(v, AppEvent::GoTop, now)) == 0,
        focused_cursor(reduced(v, AppEvent::GoBottom, now)) == v.max_index(),
        focused_cursor(reduced(v, AppEvent::GoMiddle, now)) == v.max_index() / 2,
{
    reveal(reduced);
}

/// The event moves the sidebar cursor: a jump, newly loaded playlists, or a
/// motion while the sidebar has the keyboard.
pub open spec fn moves_sidebar(v: AppView, e: AppEvent) -> bool {
    ||| e is JumpToPlaylists
    ||| e is JumpToLiked
    ||| e is PlaylistsLoaded
    ||| (is_motion(e) && v.focus == Focus::Sidebar && reads_motions(v))
}

/// Whenever the sidebar cursor moves, the explorer shows the listing under
/// it, with its own cursor on top.
pub proof fn lemma_sidebar_opens_listing(v: AppView, e: AppEvent, now: u64)
    requires
        v.wf(),
        event_fits(v, e),
        moves_sidebar(v, e),
    ensures
        reduced(v, e, now).explorer_stack == seq![sidebar_node(reduced(v, e, now))],
        reduced(v, e, now).explorer_selected_index == 0,
{
    reveal(reduced);
}

/// Jumping to the liked songs shows them at once, with nothing to fetch,
/// unless the explorer already showed them.
pub proof fn lemma_liked_shown_at_once(v: AppView, now: u64)
    requires
        v.wf(),
        !(v.explorer_stack.len() > 0 && v.explorer_stack.last() is LikedTracks),
    ensures
        reduced(v, AppEvent::JumpToLiked, now).explorer_stack == seq![ExplorerNode::LikedTracks],
        reduced(v, AppEvent::JumpToLiked, now).explorer_items == v.liked_tracks,
        !reduced(v, AppEvent::JumpToLiked, now).explorer_fetch_pending,
{
    reveal(reduced);
}

/// A loaded cover is found in the cache under its URL, holding the image
/// that arrived, and is no longer being fetched.
pub proof fn lemma_cover_loaded_is_cached(v: AppView, url: String, img: CoverImage, now: u64)
    requires
        v.wf(),
    ensures
        exists|i: int|
            0 <= i < reduced(v, AppEvent::CoverLoaded(url, img), now).cover_cache.len()
                && (#[trigger] reduced(v, AppEvent::CoverLoaded(url, img), now).cover_cache[i]).url@ == url@
                && reduced(v, AppEvent::CoverLoaded(url, img), now).cover_cache[i].image == img,
        forall|i: int|
            0 <= i < reduced(v, AppEvent::CoverLoaded(url, img), now).cover_fetching.len()
                ==> (#[trigger] reduced(v, AppEvent::CoverLoaded(url, img), now).cover_fetching[i])@ != url@,
{
    reveal(reduced);
    let w = reduced(v, AppEvent::CoverLoaded(url, img), now);
    let c = v.cover_cache;
    if exists|i: int| 0 <= i < c.len() && c[i].url@ == url@ {
        let k = choose|i: int| 0 <= i < c.len() && c[i].url@ == url@;
        assert(w.cover_cache[k].url@ == url@);
    } else {
        assert(w.cover_cache[c.len() as int].url@ == url@);
    }
    let f = v.cover_fetching;
    if exists|i: int| 0 <= i < f.len() && f[i]@ == url@ {
        let k = choose|i: int| 0 <= i < f.len() && f[i]@ == url@;
        assert forall|i: int| 0 <= i < w.cover_fetching.len() implies (#[trigger] w.cover_fetching[i])@ != url@ by {
            let j = if i < k { i } else { i + 1 };
            assert(w.cover_fetching[i] == f[j]);
            assert(j != k);
        }
    }
}

/// No two tracks of the list share an id.
pub open spec fn ids_distinct(s: Seq<TrackSummary>) -> bool {
    forall|i: int, j: int| 0 <= i < s.len() && 0 <= j < s.len() && i != j ==> #[trigger] s[i].id@ != #[trigger] s[j].id@
}

/// Some track of the list has the id.
pub open spec fn has_id(s: Seq<TrackSummary>, id: Seq<char>) -> bool {
    exists|i: int| 0 <= i < s.len() && (#[trigger] s[i]).id@ == id
}

proof fn lemma_has_id_ids(s: Seq<TrackSummary>, id: Seq<char>)
    ensures
        crate::model::track_ids(s).contains(id) <==> has_id(s, id),
{
    let ids = crate::model::track_ids(s);
    if ids.contains(id) {
        let k = choose|k: int| 0 <= k < ids.len() && ids[k] == id;
        assert(s[k].id@ == id);
    }
    if has_id(s, id) {
        let k = choose|k: int| 0 <= k < s.len() && (#[trigger] s[k]).id@ == id;
        assert(ids[k] == id);
    }
}

/// Merging adds at most the tracks brought in.
pub proof fn lemma_added_len(ids: Seq<Seq<char>>, tracks: Seq<TrackSummary>)
    ensures
        crate::state::tracks_to_add(ids, tracks).len() <= tracks.len(),
    decreases tracks.len(),
{
    if tracks.len() > 0 {
        lemma_added_len(ids, tracks.drop_last());
    }
}

proof fn lemma_added_tracks(a: Seq<TrackSummary>, tracks: Seq<TrackSummary>)
    ensures
        ids_distinct(crate::state::tracks_to_add(crate::model::track_ids(a), tracks)),
        forall|i: int|
            0 <= i < crate::state::tracks_to_add(crate::model::track_ids(a), tracks).len() ==> {
                let t = #[trigger] crate::state::tracks_to_add(crate::model::track_ids(a), tracks)[i];
                &&& !has_id(a, t.id@)
                &&& t.id@.len() > 0
                &&& tracks.contains(t)
            },
        forall|i: int|
            0 <= i < tracks.len() && (#[trigger] tracks[i]).id@.len() > 0 ==> has_id(a, tracks[i].id@) || has_id(
                crate::state::tracks_to_add(crate::model::track_ids(a), tracks),
                tracks[i].id@,
            ),
    decreases tracks.len(),
{
    let ids = crate::model::track_ids(a);
    if tracks.len() > 0 {
        let init = tracks.drop_last();
        let t = tracks.last();
        lemma_added_tracks(a, init);
        let rest = crate::state::tracks_to_add(ids, init);
        let out = crate::state::tracks_to_add(ids, tracks);
        lemma_has_id_ids(a, t.id@);
        lemma_has_id_ids(rest, t.id@);
        assert forall|i: int| 0 <= i < out.len() implies {
            let u = #[trigger] out[i];
            &&& !has_id(a, u.id@)
            &&& u.id@.len() > 0
            &&& tracks.contains(u)
        } by {
            if i < rest.len() {
                assert(out[i] == rest[i]);
                let k = choose|k: int| 0 <= k < init.len() && init[k] == rest[i];
                assert(init[k] == tracks[k]);
            } else {
                assert(out[i] == t);
                assert(tracks[tracks.len() - 1] == t);
            }
        }
        assert forall|i: int| 0 <= i < tracks.len() && (#[trigger] tracks[i]).id@.len() > 0 implies has_id(a, tracks[i].id@)
            || has_id(out, tracks[i].id@) by {
            if i < init.len() {
                assert(init[i] == tracks[i]);
                if has_id(rest, tracks[i].id@) {
                    let k = choose|k: int| 0 <= k < rest.len() && (#[trigger] rest[k]).id@ == tracks[i].id@;
                    assert(out[k] == rest[k]);
                }
            } else {
                assert(tracks[i] == t);
                if has_id(rest, t.id@) {
                    let k = choose|k: int| 0 <= k < rest.len() && (#[trigger] rest[k]).id@ == t.id@;
                    assert(out[k] == rest[k]);
                } else if !has_id(a, t.id@) {
                    assert(out[rest.len() as int] == t);
                }
            }
        }
        assert forall|i: int, j: int| 0 <= i < out.len() && 0 <= j < out.len() && i != j implies #[trigger] out[i].id@
            != #[trigger] out[j].id@ by {
            if i < rest.len() && j < rest.len() {
                assert(out[i] == rest[i]);
                assert(out[j] == rest[j]);
            } else if i < rest.len() {
                assert(out[i] == rest[i]);
                assert(out[j] == t);
            } else if j < rest.len() {
                assert(out[j] == rest[j]);
                assert(out[i] == t);
            }
        }
    }
}

/// Merging tracks into the search index deduplicates by id: if the index
/// lists no id twice before, it lists no id twice after, whatever the tracks
/// brought in repeat among themselves. The index keeps what it held, in
/// place; every track brought in with a non-empty id can then be found in
/// it; and each track appended has a non-empty id and is one of those
/// brought in.
pub proof fn lemma_merge_ids_distinct(v: AppView, tracks: Seq<TrackSummary>)
    requires
        ids_distinct(v.all_tracks),
    ensures
        ids_distinct(merged(v, tracks).all_tracks),
        merged(v, tracks).all_tracks.take(v.all_tracks.len() as int) == v.all_tracks,
        forall|i: int| 0 <= i < tracks.len() && (#[trigger] tracks[i]).id@.len() > 0 ==> has_id(merged(v, tracks).all_tracks, tracks[i].id@),
        forall|i: int|
            v.all_tracks.len() <= i < merged(v, tracks).all_tracks.len() ==> (#[trigger] merged(v, tracks).all_tracks[i]).id@.len() > 0
                && tracks.contains(merged(v, tracks).all_tracks[i]),
{
    let a = v.all_tracks;
    let add = crate::state::tracks_to_add(crate::model::track_ids(a), tracks);
    let m = merged(v, tracks).all_tracks;
    lemma_added_tracks(a, tracks);
    assert(m == a + add);
    assert(m.take(a.len() as int) =~= a);
    assert forall|i: int, j: int| 0 <= i < m.len() && 0 <= j < m.len() && i != j implies #[trigger] m[i].id@
        != #[trigger] m[j].id@ by {
        if i < a.len() && j < a.len() {
        } else if i < a.len() {
            assert(m[j] == add[j - a.len()]);
            assert(!has_id(a, add[j - a.len()].id@));
        } else if j < a.len() {
            assert(m[i] == add[i - a.len()]);
            assert(!has_id(a, add[i - a.len()].id@));
        } else {
            assert(m[i] == add[i - a.len()]);
            assert(m[j] == add[j - a.len()]);
        }
    }
    assert forall|i: int| a.len() <= i < m.len() implies (#[trigger] m[i]).id@.len() > 0 && tracks.contains(m[i]) by {
        assert(m[i] == add[i - a.len()]);
    }
    assert forall|i: int| 0 <= i < tracks.len() && (#[trigger] tracks[i]).id@.len() > 0 implies has_id(m, tracks[i].id@) by {
        if has_id(a, tracks[i].id@) {
            let k = choose|k: int| 0 <= k < a.len() && (#[trigger] a[k]).id@ == tracks[i].id@;
            assert(m[k] == a[k]);
        } else {
            let k = choose|k: int| 0 <= k < add.len() && (#[trigger] add[k]).id@ == tracks[i].id@;
            assert(m[a.len() + k] == add[k]);
        }
    }
}

// ── Keys ────────────────────────────────────────────────────────────────────

/// A count typed before a motion repeats it: after a digit, `j` moves down
/// by the count so far (with the digit appended), and the count is used up.
pub proof fn lemma_count_prefix(v: AppView, d: char, c: Seq<Command>)
    requires
        v.key_mode == KeyMode::Normal,
        is_digit(d),
        prefix_with(v, Key::Char(d)) <= usize::MAX,
    ensures
        key_state(v, Key::Char(d)).pending_count == Some(prefix_with(v, Key::Char(d)) as usize),
        key_commands(key_state(v, Key::Char(d)), Key::Char('j'), c) <==> emits(
            c,
            AppEvent::MoveDown(prefix_with(v, Key::Char(d)) as usize),
        ),
        key_state(key_state(v, Key::Char(d)), Key::Char('j')).pending_count is None,
{
}

/// `gg` goes to the top: the first `g` only waits, the second emits the jump
/// and ends the wait.
pub proof fn lemma_gg_goes_top(v: AppView, c1: Seq<Command>, c2: Seq<Command>)
    requires
        v.key_mode == KeyMode::Normal,
    ensures
        key_state(v, Key::Char('g')).key_mode == KeyMode::AwaitingG,
        key_commands(v, Key::Char('g'), c1) <==> c1.len() == 0,
        key_state(key_state(v, Key::Char('g')), Key::Char('g')).key_mode == KeyMode::Normal,
        key_commands(key_state(v, Key::Char('g')), Key::Char('g'), c2) <==> emits(c2, AppEvent::GoTop),
{
}

/// Escape closes whichever overlay is open: the event it emits takes key
/// reading back to normal.
pub proof fn lemma_escape_closes(v: AppView, c: Seq<Command>, now: u64)
    requires
        v.key_mode == KeyMode::Search || v.key_mode == KeyMode::TrackMenu || v.key_mode == KeyMode::Profile,
        key_commands(v, Key::Esc, c),
    ensures
        c.len() == 1,
        c[0] matches Command::Emit(e) && reduced(key_state(v, Key::Esc), e, now).key_mode == KeyMode::Normal,
{
    reveal(reduced);
}

/// Logging out takes two steps: no key emits the logout unless the logout
/// button already had the focus, in the profile overlay, and the key is
/// Enter.
pub proof fn lemma_logout_needs_confirmation(v: AppView, k: Key, c: Seq<Command>, i: int)
    requires
        key_commands(v, k, c),
        0 <= i < c.len(),
        c[i] == Command::Emit(AppEvent::ProfileLogout),
    ensures
        v.key_mode == KeyMode::Profile,
        v.profile.logout_sel,
        k == Key::Enter,
{
    if v.key_mode == KeyMode::Normal && !counts_digit(v, k) && k == Key::Enter && v.focus == Focus::Explorer
        && (v.explorer_selected_index as int) < v.explorer_items.len() {
        assert(c[i] != Command::Emit(AppEvent::ProfileLogout));
    }
}

// ── Covers ──────────────────────────────────────────────────────────────────

/// Queueing the same cover at the same place twice in one frame sends it
/// once: the second call adds nothing.
pub proof fn lemma_kitty_once_per_frame(c0: RenderCache, c1: RenderCache, c2: RenderCache, img: CoverImage, area: CellArea)
    requires
        kitty_queued(c0, c1, img, area),
        kitty_queued(c1, c2, img, area),
    ensures
        c2.pending@ == c1.pending@,
        c2.uploaded@ == c1.uploaded@,
        shown_this_frame(c1, img.kitty_id, area),
{
    if !shown_this_frame(c0, img.kitty_id, area) {
        assert(c1.placed_at(img.kitty_id, area) == Some(c0.frame));
    } else {
        assert(c1.placed_at(img.kitty_id, area) == c0.placed_at(img.kitty_id, area));
    }
}

/// A cover queued at a place in one frame and queued at the same place in
/// the next sends nothing the second time: the Kitty redisplay goes out only
/// when the image or its place changed since the last frame. (From the first
/// frame on: in frame 0 a cover never shown counts as shown already.)
pub proof fn lemma_kitty_quiet_next_frame(
    c0: RenderCache,
    c1: RenderCache,
    c2: RenderCache,
    c3: RenderCache,
    img: CoverImage,
    area: CellArea,
)
    requires
        c0.frame > 0,
        kitty_queued(c0, c1, img, area),
        frame_begun(c1, c2),
        kitty_queued(c2, c3, img, area),
    ensures
        c3.pending@ == c2.pending@,
        c3.pending@.len() == 0,
        c3.uploaded@ == c1.uploaded@,
        c3.placed_at(img.kitty_id, area) == Some(c3.frame),
{
    let kid = img.kitty_id;
    assert(c1.placed_at(kid, area) == Some(c1.frame)) by {
        if shown_this_frame(c0, kid, area) {
            assert(c1.placed_at(kid, area) == c0.placed_at(kid, area));
        }
    }
    assert(c2.placed_at(kid, area) == Some(c1.frame));
    assert(!shown_this_frame(c2, kid, area));
    assert(crate::cover::shown_last_frame(c2, kid, area));
    assert(c3.placed_at(kid, area) == Some(c2.frame));
}

proof fn lemma_track_urls_from(t: Seq<TrackSummary>, x: Seq<char>)
    requires
        crate::schedule::track_cover_urls(t).contains(x),
    ensures
        exists|k: int| 0 <= k < t.len() && (#[trigger] t[k]).album_image_url is Some && t[k].album_image_url->0@ == x,
    decreases t.len(),
{
    let rest = crate::schedule::track_cover_urls(t.drop_last());
    let urls = crate::schedule::track_cover_urls(t);
    let q = choose|q: int| 0 <= q < urls.len() && urls[q] == x;
    if q < rest.len() {
        assert(rest[q] == urls[q]);
        lemma_track_urls_from(t.drop_last(), x);
        let k = choose|k: int| 0 <= k < t.drop_last().len() && (#[trigger] t.drop_last()[k]).album_image_url is Some && t.drop_last()[k].album_image_url->0@ == x;
        assert(t[k] == t.drop_last()[k]);
    } else {
        assert(t[t.len() - 1] == t.last());
    }
}

proof fn lemma_without(s: Seq<Seq<char>>, x: Seq<char>)
    ensures
        forall|i: int| 0 <= i < crate::schedule::without(s, x).len() ==> #[trigger] crate::schedule::without(s, x)[i] != x
            && s.contains(crate::schedule::without(s, x)[i]),
    decreases s.len(),
{
    if s.len() > 0 {
        lemma_without(s.drop_last(), x);
        let rest = crate::schedule::without(s.drop_last(), x);
        let w = crate::schedule::without(s, x);
        assert forall|i: int| 0 <= i < w.len() implies #[trigger] w[i] != x && s.contains(w[i]) by {
            if i < rest.len() {
                assert(w[i] == rest[i]);
                let k = choose|k: int| 0 <= k < s.drop_last().len() && s.drop_last()[k] == rest[i];
                assert(s[k] == rest[i]);
            } else {
                assert(w[i] == s[s.len() - 1]);
            }
        }
    }
}

/// The selected track's cover comes first among the covers the explorer
/// asks for, and only there; every cover asked for is that of a track of the
/// listing.
pub proof fn lemma_selected_cover_listed(v: AppView, height: u16)
    requires
        (v.explorer_selected_index as int) < v.explorer_items.len(),
        v.explorer_items[v.explorer_selected_index as int].album_image_url is Some,
    ensures
        explorer_cover_urls(v, height).len() > 0,
        explorer_cover_urls(v, height)[0] == v.explorer_items[v.explorer_selected_index as int].album_image_url->0@,
        forall|i: int|
            1 <= i < explorer_cover_urls(v, height).len() ==> #[trigger] explorer_cover_urls(v, height)[i]
                != v.explorer_items[v.explorer_selected_index as int].album_image_url->0@,
        forall|i: int|
            0 <= i < explorer_cover_urls(v, height).len() ==> exists|k: int|
                0 <= k < v.explorer_items.len() && (#[trigger] v.explorer_items[k]).album_image_url is Some
                    && v.explorer_items[k].album_image_url->0@ == #[trigger] explorer_cover_urls(v, height)[i],
{
    let items = v.explorer_items;
    let sel = v.explorer_selected_index as int;
    let u = items[sel].album_image_url->0@;
    let vis = crate::schedule::sat_sub(crate::schedule::sat_sub(height as int, 2), 1) / (crate::schedule::ROW_COVER_H as int);
    let scroll = crate::schedule::sat_sub(sel, crate::schedule::sat_sub(vis, 1));
    let win = crate::schedule::window(items, scroll, vis + 2);
    let inner = crate::schedule::track_cover_urls(win);
    let r = explorer_cover_urls(v, height);
    lemma_without(inner, u);
    assert(r == seq![u] + crate::schedule::without(inner, u));
    assert forall|i: int| 1 <= i < r.len() implies #[trigger] r[i] != u by {
        assert(r[i] == crate::schedule::without(inner, u)[i - 1]);
    }
    assert forall|i: int| 0 <= i < r.len() implies exists|k: int|
        0 <= k < items.len() && (#[trigger] items[k]).album_image_url is Some && items[k].album_image_url->0@ == #[trigger] r[i] by {
        if i == 0 {
            assert(items[sel].album_image_url->0@ == r[0]);
        } else {
            assert(r[i] == crate::schedule::without(inner, u)[i - 1]);
            assert(inner.contains(r[i]));
            lemma_track_urls_from(win, r[i]);
            let k = choose|k: int| 0 <= k < win.len() && (#[trigger] win[k]).album_image_url is Some && win[k].album_image_url->0@ == r[i];
            let lo = if scroll < items.len() { scroll } else { items.len() as int };
            assert(win[k] == items[lo + k]);
        }
    }
}

proof fn lemma_all_blocked(blocked: Seq<Seq<char>>, cands: Seq<Seq<char>>)
    requires
        forall|i: int| 0 <= i < cands.len() ==> blocked.contains(#[trigger] cands[i]),
    ensures
        newly_fetched(blocked, cands).len() == 0,
    decreases cands.len(),
{
    if cands.len() > 0 {
        assert(blocked.contains(cands[cands.len() - 1]));
        lemma_all_blocked(blocked, cands.drop_last());
    }
}

proof fn lemma_newly_covers(blocked: Seq<Seq<char>>, cands: Seq<Seq<char>>)
    ensures
        forall|i: int| 0 <= i < cands.len() ==> blocked.contains(#[trigger] cands[i]) || newly_fetched(
            blocked,
            cands,
        ).contains(cands[i]),
    decreases cands.len(),
{
    if cands.len() > 0 {
        let init = cands.drop_last();
        lemma_newly_covers(blocked, init);
        let rest = newly_fetched(blocked, init);
        let out = newly_fetched(blocked, cands);
        assert forall|i: int| 0 <= i < cands.len() implies blocked.contains(#[trigger] cands[i]) || out.contains(cands[i]) by {
            if i < init.len() {
                assert(init[i] == cands[i]);
                if rest.contains(cands[i]) {
                    let k = choose|k: int| 0 <= k < rest.len() && rest[k] == cands[i];
                    assert(out[k] == rest[k]);
                }
            } else {
                let u = cands.last();
                if !blocked.contains(u) {
                    if rest.contains(u) {
                        let k = choose|k: int| 0 <= k < rest.len() && rest[k] == u;
                        assert(out[k] == rest[k]);
                    } else {
                        assert(out[rest.len() as int] == u);
                    }
                }
            }
        }
    }
}

/// A cover is never fetched twice while its fetch runs: once the covers due
/// are marked as being fetched, nothing on the same screen is due any more.
pub proof fn lemma_covers_fetched_once(v: AppView, main: CellArea, sidebar: CellArea, due: Seq<String>)
    requires
        texts(due) == covers_due(v, main, sidebar),
    ensures
        covers_due(AppView { cover_fetching: v.cover_fetching + due, ..v }, main, sidebar).len() == 0,
{
    let w = AppView { cover_fetching: v.cover_fetching + due, ..v };
    let cands = cover_candidates(v, main, sidebar);
    assert(cover_candidates(w, main, sidebar) == cands);
    let b0 = crate::schedule::cached_urls(v.cover_cache) + texts(v.cover_fetching);
    let b1 = crate::schedule::cached_urls(w.cover_cache) + texts(w.cover_fetching);
    assert(texts(w.cover_fetching) =~= texts(v.cover_fetching) + texts(due));
    lemma_newly_covers(b0, cands);
    assert forall|i: int| 0 <= i < cands.len() implies b1.contains(#[trigger] cands[i]) by {
        let u = cands[i];
        if b0.contains(u) {
            let k = choose|k: int| 0 <= k < b0.len() && b0[k] == u;
            assert(b1[k] == b0[k]);
        } else {
            let n = newly_fetched(b0, cands);
            let k = choose|k: int| 0 <= k < n.len() && n[k] == u;
            assert(b1[b0.len() + k] == texts(due)[k]);
        }
    }
    lemma_all_blocked(b1, cands);
}

proof fn lemma_playlist_url_listed(pls: Seq<crate::model::PlaylistSummary>, j: int)
    requires
        0 <= j < pls.len(),
        pls[j].image_url is Some,
    ensures
        crate::schedule::playlist_cover_urls(pls).contains(pls[j].image_url->0@),
    decreases pls.len(),
{
    let urls = crate::schedule::playlist_cover_urls(pls);
    if j == pls.len() - 1 {
        assert(urls[urls.len() - 1] == pls[j].image_url->0@);
    } else {
        lemma_playlist_url_listed(pls.drop_last(), j);
        let rest = crate::schedule::playlist_cover_urls(pls.drop_last());
        let k = choose|k: int| 0 <= k < rest.len() && rest[k] == pls[j].image_url->0@;
        assert(urls[k] == rest[k]);
    }
}

proof fn lemma_with_new_keeps(base: Seq<Seq<char>>, more: Seq<Seq<char>>, x: Seq<char>)
    requires
        more.contains(x),
    ensures
        crate::schedule::with_new(base, more).contains(x),
    decreases more.len(),
{
    let rest = crate::schedule::with_new(base, more.drop_last());
    let out = crate::schedule::with_new(base, more);
    if more.last() == x {
        if !rest.contains(x) {
            assert(out[rest.len() as int] == x);
        }
    } else {
        let k = choose|k: int| 0 <= k < more.len() && more[k] == x;
        assert(more.drop_last()[k] == x);
        lemma_with_new_keeps(base, more.drop_last(), x);
    }
    if rest.contains(x) {
        let k = choose|k: int| 0 <= k < rest.len() && rest[k] == x;
        assert(out[k] == rest[k]);
    }
}

/// The sidebar's covers follow its cursor. With the cursor on a playlist,
/// and the playlists box inside the sidebar as the program lays it out (the
/// account box, the liked-songs box and the box's own border take 8 lines),
/// every playlist row the sidebar pane shows (row `k`, playlist `i`) whose
/// cover is neither cached nor being fetched is among the covers due.
pub proof fn lemma_sidebar_rows_fetched(v: AppView, main: CellArea, sidebar: CellArea, inner: CellArea, k: int, i: int)
    requires
        (v.navigation.selected_index as int) < v.playlists.len(),
        inner.height as int + 8 == sidebar.height as int,
        inner.height >= crate::panes::COVER_H,
        0 <= k < crate::panes::sidebar_row_count(v, inner),
        i == crate::panes::sidebar_scroll_of(
            v.navigation.selected_index as int,
            v.playlists.len() as int,
            crate::panes::sidebar_visible(inner.height),
        ) + k,
        v.playlists[i].image_url is Some,
        !crate::schedule::cached_urls(v.cover_cache).contains(v.playlists[i].image_url->0@),
        !texts(v.cover_fetching).contains(v.playlists[i].image_url->0@),
    ensures
        covers_due(v, main, sidebar).contains(v.playlists[i].image_url->0@),
{
    let u = v.playlists[i].image_url->0@;
    let sel = v.navigation.selected_index as int;
    let total = v.playlists.len() as int;
    let vis = crate::panes::sidebar_visible(inner.height);
    assert(vis == inner.height / 4);
    let vis_f = crate::schedule::sat_sub(sidebar.height as int, 8) / 4;
    assert(vis_f == vis);
    let scroll = crate::schedule::sat_sub(sel, crate::schedule::sat_sub(vis_f, 1));
    assert(crate::panes::sidebar_scroll_of(sel, total, vis) == scroll);
    let win = crate::schedule::window(v.playlists, scroll, vis_f + 2);
    let lo = scroll;
    let hi = if lo + vis_f + 2 < total { lo + vis_f + 2 } else { total };
    assert(win == v.playlists.subrange(lo, hi));
    assert(lo <= i < hi);
    assert(win[i - lo] == v.playlists[i]);
    lemma_playlist_url_listed(win, i - lo);
    let side = crate::schedule::sidebar_cover_urls(v, sidebar.height);
    assert(side == crate::schedule::playlist_cover_urls(win));
    let all = crate::schedule::with_new(explorer_cover_urls(v, main.height), side);
    lemma_with_new_keeps(explorer_cover_urls(v, main.height), side, u);
    let cands = cover_candidates(v, main, sidebar);
    assert(cands.contains(u)) by {
        let q = choose|q: int| 0 <= q < all.len() && all[q] == u;
        if cands != all {
            assert(cands[q + 1] == all[q]);
        } else {
            assert(cands[q] == all[q]);
        }
    }
    let blocked = crate::schedule::cached_urls(v.cover_cache) + texts(v.cover_fetching);
    crate::schedule::lemma_contains_concat(crate::schedule::cached_urls(v.cover_cache), texts(v.cover_fetching), u);
    lemma_newly_covers(blocked, cands);
    let q = choose|q: int| 0 <= q < cands.len() && cands[q] == u;
    assert(blocked.contains(cands[q]) || newly_fetched(blocked, cands).contains(cands[q]));
}

proof fn lemma_playlist_urls_from(pls: Seq<crate::model::PlaylistSummary>, x: Seq<char>)
    requires
        crate::schedule::playlist_cover_urls(pls).contains(x),
    ensures
        exists|j: int| 0 <= j < pls.len() && (#[trigger] pls[j]).image_url is Some && pls[j].image_url->0@ == x,
    decreases pls.len(),
{
    let rest = crate::schedule::playlist_cover_urls(pls.drop_last());
    let urls = crate::schedule::playlist_cover_urls(pls);
    let q = choose|q: int| 0 <= q < urls.len() && urls[q] == x;
    if q < rest.len() {
        assert(rest[q] == urls[q]);
        lemma_playlist_urls_from(pls.drop_last(), x);
        let j = choose|j: int| 0 <= j < pls.drop_last().len() && (#[trigger] pls.drop_last()[j]).image_url is Some && pls.drop_last()[j].image_url->0@ == x;
        assert(pls[j] == pls.drop_last()[j]);
    } else {
        assert(pls[pls.len() - 1] == pls.last());
    }
}

proof fn lemma_with_new_from(base: Seq<Seq<char>>, more: Seq<Seq<char>>, x: Seq<char>)
    requires
        crate::schedule::with_new(base, more).contains(x),
    ensures
        base.contains(x) || more.contains(x),
    decreases more.len(),
{
    if more.len() > 0 {
        let rest = crate::schedule::with_new(base, more.drop_last());
        let out = crate::schedule::with_new(base, more);
        let q = choose|q: int| 0 <= q < out.len() && out[q] == x;
        if q < rest.len() {
            assert(rest[q] == out[q]);
            lemma_with_new_from(base, more.drop_last(), x);
            if more.drop_last().contains(x) {
                let k = choose|k: int| 0 <= k < more.drop_last().len() && more.drop_last()[k] == x;
                assert(more[k] == x);
            }
        } else {
            assert(more[more.len() - 1] == x);
        }
    }
}

proof fn lemma_newly_from(blocked: Seq<Seq<char>>, cands: Seq<Seq<char>>, x: Seq<char>)
    requires
        newly_fetched(blocked, cands).contains(x),
    ensures
        cands.contains(x),
    decreases cands.len(),
{
    if cands.len() > 0 {
        let rest = newly_fetched(blocked, cands.drop_last());
        let out = newly_fetched(blocked, cands);
        let q = choose|q: int| 0 <= q < out.len() && out[q] == x;
        if q < rest.len() {
            assert(rest[q] == out[q]);
            lemma_newly_from(blocked, cands.drop_last(), x);
            let k = choose|k: int| 0 <= k < cands.drop_last().len() && cands.drop_last()[k] == x;
            assert(cands[k] == x);
        } else {
            assert(cands[cands.len() - 1] == x);
        }
    }
}

proof fn lemma_explorer_urls_from(v: AppView, height: u16, x: Seq<char>)
    requires
        explorer_cover_urls(v, height).contains(x),
    ensures
        exists|k: int| 0 <= k < v.explorer_items.len() && (#[trigger] v.explorer_items[k]).album_image_url is Some
            && v.explorer_items[k].album_image_url->0@ == x,
{
    let items = v.explorer_items;
    let sel = v.explorer_selected_index as int;
    let vis = crate::schedule::sat_sub(crate::schedule::sat_sub(height as int, 2), 1) / (crate::schedule::ROW_COVER_H as int);
    let scroll = crate::schedule::sat_sub(sel, crate::schedule::sat_sub(vis, 1));
    let win = crate::schedule::window(items, scroll, vis + 2);
    let inner = crate::schedule::track_cover_urls(win);
    let r = explorer_cover_urls(v, height);
    let q = choose|q: int| 0 <= q < r.len() && r[q] == x;
    let from_window = if sel < items.len() && items[sel].album_image_url is Some {
        if q == 0 {
            false
        } else {
            let u = items[sel].album_image_url->0@;
            lemma_without(inner, u);
            assert(r[q] == crate::schedule::without(inner, u)[q - 1]);
            true
        }
    } else {
        assert(r[q] == inner[q]);
        true
    };
    if from_window {
        assert(inner.contains(x));
        lemma_track_urls_from(win, x);
        let k = choose|k: int| 0 <= k < win.len() && (#[trigger] win[k]).album_image_url is Some && win[k].album_image_url->0@ == x;
        let lo = if scroll < items.len() { scroll } else { items.len() as int };
        assert(win[k] == items[lo + k]);
    } else {
        assert(items[sel].album_image_url->0@ == x);
    }
}

/// The sidebar asks only for the covers around its cursor. With the cursor
/// on a playlist and the playlists box laid out inside the sidebar as the
/// program does it, every cover due is the playing track's, a listed track's
/// in the explorer, or that of a playlist from the first one the sidebar
/// pane shows to two past the last row that fits; covers of playlists far
/// from the cursor are not fetched for the sidebar.
pub proof fn lemma_sidebar_fetch_near_cursor(v: AppView, main: CellArea, sidebar: CellArea, inner: CellArea, u: Seq<char>)
    requires
        (v.navigation.selected_index as int) < v.playlists.len(),
        inner.height as int + 8 == sidebar.height as int,
        inner.height >= crate::panes::COVER_H,
        covers_due(v, main, sidebar).contains(u),
    ensures
        ({
            let first = crate::panes::sidebar_scroll_of(
                v.navigation.selected_index as int,
                v.playlists.len() as int,
                crate::panes::sidebar_visible(inner.height),
            );
            ||| (v.playback matches Some(p) && p.album_image_url matches Some(a) && a@ == u)
            ||| exists|k: int| 0 <= k < v.explorer_items.len() && (#[trigger] v.explorer_items[k]).album_image_url is Some
                && v.explorer_items[k].album_image_url->0@ == u
            ||| exists|j: int| first <= j < first + crate::panes::sidebar_visible(inner.height) + 2 && j < v.playlists.len()
                && (#[trigger] v.playlists[j]).image_url is Some && v.playlists[j].image_url->0@ == u
        }),
{
    let sel = v.navigation.selected_index as int;
    let total = v.playlists.len() as int;
    let vis = crate::panes::sidebar_visible(inner.height);
    assert(vis == inner.height / 4);
    let vis_f = crate::schedule::sat_sub(sidebar.height as int, 8) / 4;
    assert(vis_f == vis);
    let scroll = crate::schedule::sat_sub(sel, crate::schedule::sat_sub(vis_f, 1));
    assert(crate::panes::sidebar_scroll_of(sel, total, vis) == scroll);
    let win = crate::schedule::window(v.playlists, scroll, vis_f + 2);
    let lo = scroll;
    let hi = if lo + vis_f + 2 < total { lo + vis_f + 2 } else { total };
    assert(win == v.playlists.subrange(lo, hi));
    let blocked = crate::schedule::cached_urls(v.cover_cache) + texts(v.cover_fetching);
    let cands = cover_candidates(v, main, sidebar);
    lemma_newly_from(blocked, cands, u);
    let exp = explorer_cover_urls(v, main.height);
    let side = crate::schedule::sidebar_cover_urls(v, sidebar.height);
    let all = crate::schedule::with_new(exp, side);
    let played = v.playback matches Some(p) && p.album_image_url matches Some(a) && a@ == u;
    if !played {
        assert(all.contains(u)) by {
            let q = choose|q: int| 0 <= q < cands.len() && cands[q] == u;
            if cands != all {
                assert(cands[q] == (seq![v.playback->0.album_image_url->0@] + all)[q]);
                assert(q > 0);
                assert(all[q - 1] == u);
            } else {
                assert(all[q] == u);
            }
        }
        lemma_with_new_from(exp, side, u);
        if exp.contains(u) {
            lemma_explorer_urls_from(v, main.height, u);
        } else {
            lemma_playlist_urls_from(win, u);
            let j = choose|j: int| 0 <= j < win.len() && (#[trigger] win[j]).image_url is Some && win[j].image_url->0@ == u;
            assert(win[j] == v.playlists[lo + j]);
            assert(v.playlists[lo + j].image_url is Some);
        }
    }
}

} // verus!
