//! The event reducer: how each event of the event loop changes the
//! application state.

use vstd::prelude::*;
use crate::cover::CoverImage;
use crate::model::{Device, PlaybackState, PlaylistSummary, TrackSummary, UserProfile, track_ids};
use crate::profile::{section_at, section_position, ProfileState};
use crate::state::{local_matches, AppState, AppStatus, AppView, CoverEntry, ExplorerNode, Focus, KeyMode, NavigationState, SearchView, Toast, TrackMenuView, nodes_equal, same_node, tracks_to_add};
use crate::stats::{compute_stats, stats_for};
use crate::trackmenu::{TrackMenuState, kept_actions, playlist_choices};
use crate::text::text_eq;

verus! {

/// What the event loop feeds the reducer: fetched data, user commands and
/// notices.
#[derive(Debug)]
pub enum AppEvent {
    Quit,
    UserLoaded(String),
    UserProfileLoaded(UserProfile),
    PlaylistsLoaded(Vec<PlaylistSummary>),
    LikedTracksLoaded(Vec<TrackSummary>),
    ExplorerTracksLoaded(Vec<TrackSummary>),
    CoverLoaded(String, CoverImage),
    LoadError(String),
    MoveDown(usize),
    MoveUp(usize),
    GoTop,
    GoBottom,
    GoMiddle,
    Enter,
    Back,
    JumpToPlaylists,
    JumpToLiked,
    PlayTrack { track: TrackSummary, context_uri: Option<String> },
    TogglePause,
    PlaybackStateUpdated(Option<PlaybackState>),
    DevicesUpdated(Vec<Device>),
    SkipNext,
    SkipPrev,
    OpenSearch,
    CloseSearch,
    SearchQueryChanged(String),
    SearchCatalogResults(Vec<TrackSummary>),
    OpenTrackMenu,
    CloseTrackMenu,
    TrackMenuQueryChanged(String),
    /// "Add to playlist" was chosen: the menu lists the user's playlists.
    TrackMenuPickPlaylist,
    TrackMenuConfirm,
    OpenProfile,
    CloseProfile,
    ProfileSectionNext,
    ProfileSectionPrev,
    ProfileLogout,
    Toast(String),
}

/// Work the event loop must do after an event.
#[derive(Clone, Copy, PartialEq, Eq, Debug, Structural)]
pub enum Effect {
    Nothing,
    /// Delete the cached login token, so that the next start signs in anew.
    DeleteTokenCache,
}

// ── Views of the helpers ────────────────────────────────────────────────────

/// `x` held between 0 and `max`.
pub open spec fn clamp_index(x: int, max: int) -> int {
    if x < 0 {
        0
    } else if x > max {
        max
    } else {
        x
    }
}

/// The last index of a list of `len` entries, 0 when empty.
pub open spec fn last_index(len: nat) -> int {
    if len == 0 { 0 } else { len - 1 }
}

/// The listing the sidebar cursor stands on.
pub open spec fn sidebar_node(v: AppView) -> ExplorerNode {
    let i = v.navigation.selected_index as int;
    if i < v.playlists.len() {
        ExplorerNode::PlaylistTracks(v.playlists[i].id, v.playlists[i].name, v.playlists[i].owner)
    } else {
        ExplorerNode::LikedTracks
    }
}

/// Opens the sidebar's listing in the explorer: the explorer shows exactly
/// that node with its cursor on top; a different listing than before is
/// emptied and marked for fetching, except the liked songs, which are shown
/// at once.
pub open spec fn synced(v: AppView) -> AppView {
    let node = sidebar_node(v);
    let changed = v.explorer_stack.len() == 0 || !same_node(v.explorer_stack.last(), node);
    let liked = node is LikedTracks;
    AppView {
        explorer_stack: seq![node],
        explorer_selected_index: 0,
        explorer_items: if !changed {
            v.explorer_items
        } else if liked {
            v.liked_tracks
        } else {
            Seq::empty()
        },
        explorer_fetch_pending: if !changed { v.explorer_fetch_pending } else { !liked },
        ..v
    }
}

/// The library becomes ready once the user, the playlists and the liked
/// songs are loaded.
pub open spec fn ready_checked(v: AppView) -> AppView {
    if v.status == AppStatus::Loading && v.loaded_user && v.loaded_playlists && v.loaded_liked {
        AppView { status: AppStatus::Ready, ..v }
    } else {
        v
    }
}

/// `tracks` added to the search index.
pub open spec fn merged(v: AppView, tracks: Seq<TrackSummary>) -> AppView {
    AppView { all_tracks: v.all_tracks + tracks_to_add(track_ids(v.all_tracks), tracks), ..v }
}

/// The cursor a motion moves: the overlay's highlight, or the focused pane's
/// cursor.
pub open spec fn active_cursor(v: AppView) -> nat {
    match v.key_mode {
        KeyMode::Search => v.search.selected as nat,
        KeyMode::TrackMenu => v.track_menu.selected as nat,
        KeyMode::Profile => 0,
        _ => match v.focus {
            Focus::Sidebar => v.navigation.selected_index as nat,
            Focus::Explorer => v.explorer_selected_index as nat,
        },
    }
}

/// Moves the cursor by `delta`, held within its list: in the search overlay
/// and the track menu the highlight moves; in the profile overlay the section
/// steps forward (positive delta) or back; otherwise the focused pane's
/// cursor moves, and a sidebar move opens the new listing.
pub open spec fn moved(v: AppView, delta: int) -> AppView {
    match v.key_mode {
        KeyMode::Search => AppView {
            search: SearchView {
                selected: clamp_index(v.search.selected + delta, last_index(v.search.results.len())) as usize,
                ..v.search
            },
            ..v
        },
        KeyMode::TrackMenu => AppView {
            track_menu: TrackMenuView {
                selected: clamp_index(v.track_menu.selected + delta, last_index(v.track_menu.actions.len())) as usize,
                ..v.track_menu
            },
            ..v
        },
        KeyMode::Profile => AppView {
            profile: ProfileState {
                section: section_at(section_position(v.profile.section) + if delta > 0 { 1nat } else { 2nat }),
                logout_sel: false,
            },
            ..v
        },
        _ => match v.focus {
            Focus::Sidebar => synced(AppView {
                navigation: NavigationState {
                    selected_index: clamp_index(v.navigation.selected_index + delta, v.max_index() as int) as usize,
                },
                ..v
            }),
            Focus::Explorer => AppView {
                explorer_selected_index: clamp_index(v.explorer_selected_index + delta, v.max_index() as int) as usize,
                ..v
            },
        },
    }
}

/// Puts the focused pane's cursor on `idx`, or on its last entry when `idx`
/// lies beyond; a sidebar move opens the new listing.
pub open spec fn cursor_set(v: AppView, idx: nat) -> AppView {
    let i = if idx < v.max_index() { idx } else { v.max_index() };
    match v.focus {
        Focus::Sidebar => synced(AppView { navigation: NavigationState { selected_index: i as usize }, ..v }),
        Focus::Explorer => AppView { explorer_selected_index: i as usize, ..v },
    }
}

/// The cover cache with `img` stored for `url` (replacing the image of an
/// entry for the same URL).
pub open spec fn cache_inserted(cache: Seq<CoverEntry>, url: String, img: CoverImage) -> Seq<CoverEntry> {
    if exists|i: int| 0 <= i < cache.len() && cache[i].url@ == url@ {
        let i = choose|i: int| 0 <= i < cache.len() && cache[i].url@ == url@;
        cache.update(i, CoverEntry { url: cache[i].url, image: img })
    } else {
        cache.push(CoverEntry { url, image: img })
    }
}

/// The fetch list without `url`.
pub open spec fn fetch_removed(fetching: Seq<String>, url: Seq<char>) -> Seq<String> {
    if exists|i: int| 0 <= i < fetching.len() && fetching[i]@ == url {
        fetching.remove(choose|i: int| 0 <= i < fetching.len() && fetching[i]@ == url)
    } else {
        fetching
    }
}

/// The track menu's state after its action list is rebuilt: the actions
/// the filter keeps, or the playlist entries it keeps in the sub-list.
pub open spec fn menu_rebuilt(m: TrackMenuView, pls: Seq<PlaylistSummary>) -> TrackMenuView {
    let actions = if m.picking_playlist { playlist_choices(pls, m.query) } else { kept_actions(m.query) };
    TrackMenuView {
        actions,
        selected: (if m.selected < actions.len() {
            m.selected as int
        } else if actions.len() == 0 {
            0
        } else {
            actions.len() - 1
        }) as usize,
        ..m
    }
}

/// The search overlay after its local results are recomputed: the tracks
/// of the index that answer the query, the highlight on the last of them at
/// most.
pub open spec fn search_rebuilt(sv: SearchView, tracks: Seq<TrackSummary>) -> SearchView {
    let results = local_matches(tracks, sv.query);
    SearchView {
        results,
        selected: (if sv.selected < results.len() {
            sv.selected as int
        } else if results.len() == 0 {
            0
        } else {
            results.len() - 1
        }) as usize,
        ..sv
    }
}

/// Whether the event recomputes the statistics.
pub open spec fn recomputes_stats(e: AppEvent) -> bool {
    ||| e is UserProfileLoaded
    ||| e is PlaylistsLoaded
    ||| e is LikedTracksLoaded
    ||| e is ExplorerTracksLoaded
}

/// The cursor moved after a motion at time `now`.
pub open spec fn after_motion(v: AppView, now: u64) -> AppView {
    AppView { last_nav_move: Some(now), ..v }
}

/// The liked songs arrived: they join the search index, replace the liked
/// list, and are shown at once if the explorer shows the liked songs.
pub open spec fn liked_loaded(v: AppView, tracks: Seq<TrackSummary>) -> AppView {
    let w = AppView { liked_tracks: tracks, loaded_liked: true, ..merged(v, tracks) };
    let shows_liked = w.explorer_stack.len() > 0 && w.explorer_stack.last() is LikedTracks;
    ready_checked(if shows_liked { AppView { explorer_items: tracks, explorer_fetch_pending: false, ..w } } else { w })
}

/// A playlist's tracks arrived: they join the search index and fill the
/// explorer, cursor on top.
pub open spec fn explorer_loaded(v: AppView, tracks: Seq<TrackSummary>) -> AppView {
    AppView { explorer_items: tracks, explorer_selected_index: 0, explorer_fetch_pending: false, ..merged(v, tracks) }
}

/// The sidebar cursor jumps to entry `i` and its listing opens; key reading
/// returns to normal.
pub open spec fn jumped(v: AppView, i: usize, now: u64) -> AppView {
    AppView {
        key_mode: KeyMode::Normal,
        last_nav_move: Some(now),
        ..synced(AppView { navigation: NavigationState { selected_index: i }, ..v })
    }
}

/// The track menu opens for the track under the explorer cursor, if any.
pub open spec fn menu_opened(v: AppView) -> AppView {
    if (v.explorer_selected_index as int) < v.explorer_items.len() {
        AppView {
            track_menu: TrackMenuView {
                track: Some(v.explorer_items[v.explorer_selected_index as int]),
                query: Seq::empty(),
                actions: kept_actions(Seq::empty()),
                selected: 0,
                picking_playlist: false,
            },
            key_mode: KeyMode::TrackMenu,
            ..v
        }
    } else {
        v
    }
}

/// Playback flips between playing and paused, if something is loaded.
pub open spec fn pause_toggled(v: AppView) -> AppView {
    match v.playback {
        Some(p) => AppView { playback: Some(PlaybackState { is_playing: !p.is_playing, ..p }), ..v },
        None => v,
    }
}

/// The profile overlay moves `steps` sections forward (modulo 3).
pub open spec fn section_stepped(v: AppView, steps: nat) -> AppView {
    AppView {
        profile: ProfileState { section: section_at(section_position(v.profile.section) + steps), logout_sel: false },
        ..v
    }
}

/// What an event does to the state, apart from the statistics, which are
/// recomputed by the events `recomputes_stats` names.
#[verifier::opaque]
pub open spec fn reduced(v: AppView, e: AppEvent, now: u64) -> AppView {
    match e {
        AppEvent::Quit => AppView { should_quit: true, ..v },
        AppEvent::UserLoaded(name) => ready_checked(AppView { user_name: Some(name), loaded_user: true, ..v }),
        AppEvent::UserProfileLoaded(p) => AppView { user_profile: Some(p), ..v },
        AppEvent::PlaylistsLoaded(pl) => ready_checked(synced(AppView { playlists: pl@, loaded_playlists: true, ..v })),
        AppEvent::LikedTracksLoaded(tracks) => liked_loaded(v, tracks@),
        AppEvent::ExplorerTracksLoaded(tracks) => explorer_loaded(v, tracks@),
        AppEvent::CoverLoaded(url, img) => AppView {
            cover_fetching: fetch_removed(v.cover_fetching, url@),
            cover_cache: cache_inserted(v.cover_cache, url, img),
            ..v
        },
        AppEvent::LoadError(msg) => ready_checked(AppView { error_message: Some(msg), ..v }),
        AppEvent::MoveDown(n) => after_motion(moved(v, n as int), now),
        AppEvent::MoveUp(n) => after_motion(moved(v, -(n as int)), now),
        AppEvent::GoTop => after_motion(cursor_set(v, 0), now),
        AppEvent::GoBottom => after_motion(cursor_set(v, v.max_index()), now),
        AppEvent::GoMiddle => after_motion(cursor_set(v, v.max_index() / 2), now),
        AppEvent::Enter => if v.focus == Focus::Sidebar { AppView { focus: Focus::Explorer, ..v } } else { v },
        AppEvent::Back => AppView { focus: Focus::Sidebar, ..v },
        AppEvent::JumpToPlaylists => jumped(v, 0, now),
        AppEvent::JumpToLiked => jumped(v, v.playlists.len() as usize, now),
        AppEvent::PlayTrack { track: _, context_uri } => AppView { playing_context_uri: context_uri, ..v },
        AppEvent::TogglePause => pause_toggled(v),
        AppEvent::PlaybackStateUpdated(ps) => AppView { playback: ps, ..v },
        AppEvent::DevicesUpdated(d) => AppView { devices: d@, ..v },
        AppEvent::SkipNext => v,
        AppEvent::SkipPrev => v,
        AppEvent::OpenSearch => AppView {
            key_mode: KeyMode::Search,
            search: SearchView { query: Seq::empty(), results: Seq::empty(), selected: 0, is_searching: false },
            ..v
        },
        AppEvent::CloseSearch => AppView { key_mode: KeyMode::Normal, ..v },
        AppEvent::SearchQueryChanged(q) => AppView {
            search: search_rebuilt(
                SearchView { query: q@, is_searching: v.search.is_searching || q@.len() > 0, ..v.search },
                v.all_tracks,
            ),
            ..v
        },
        AppEvent::SearchCatalogResults(results) => AppView {
            search: SearchView {
                results: v.search.results + tracks_to_add(track_ids(v.search.results), results@),
                is_searching: false,
                ..v.search
            },
            ..v
        },
        AppEvent::OpenTrackMenu => menu_opened(v),
        AppEvent::CloseTrackMenu => AppView {
            key_mode: KeyMode::Normal,
            track_menu: TrackMenuView {
                track: None,
                query: Seq::empty(),
                actions: Seq::empty(),
                selected: 0,
                picking_playlist: false,
            },
            ..v
        },
        AppEvent::TrackMenuQueryChanged(q) => AppView {
            track_menu: menu_rebuilt(TrackMenuView { query: q@, ..v.track_menu }, v.playlists),
            ..v
        },
        AppEvent::TrackMenuPickPlaylist => AppView {
            track_menu: menu_rebuilt(
                TrackMenuView { query: Seq::empty(), selected: 0, picking_playlist: true, ..v.track_menu },
                v.playlists,
            ),
            ..v
        },
        AppEvent::TrackMenuConfirm => v,
        AppEvent::OpenProfile => AppView { key_mode: KeyMode::Profile, ..v },
        AppEvent::CloseProfile => AppView { key_mode: KeyMode::Normal, ..v },
        AppEvent::ProfileSectionNext => section_stepped(v, 1),
        AppEvent::ProfileSectionPrev => section_stepped(v, 2),
        AppEvent::ProfileLogout => AppView { should_quit: true, ..v },
        AppEvent::Toast(msg) => AppView { toast: Some(Toast { message: msg, shown_at_ms: now }), ..v },
    }
}

/// What an event demands beyond the state's standing assumptions: data
/// within the sizes the state keeps, and motions whose arithmetic fits.
pub open spec fn event_fits(v: AppView, e: AppEvent) -> bool {
    match e {
        AppEvent::PlaylistsLoaded(pl) => pl.len() < isize::MAX,
        AppEvent::LikedTracksLoaded(t) => t.len() <= u32::MAX && t.len() <= isize::MAX,
        AppEvent::ExplorerTracksLoaded(t) => t.len() <= isize::MAX,
        AppEvent::SearchQueryChanged(_) => v.all_tracks.len() <= isize::MAX,
        AppEvent::SearchCatalogResults(r) => v.search.results.len() + r.len() <= isize::MAX,
        AppEvent::MoveDown(n) => n + active_cursor(v) <= isize::MAX,
        AppEvent::MoveUp(n) => n <= isize::MAX,
        _ => true,
    }
}

} // verus!

verus! {

// ── The reducer's steps ─────────────────────────────────────────────────────

fn max_index(state: &AppState) -> (m: usize)
    requires
        state@.playlists.len() < isize::MAX,
    ensures
        m == state@.max_index(),
{
    match state.focus {
        Focus::Sidebar => (state.playlists.len() + 1).saturating_sub(1),
        Focus::Explorer => state.explorer_items.len().saturating_sub(1),
    }
}

fn sync_sidebar(state: &mut AppState)
    ensures
        final(state)@ == synced(old(state)@),
{
    let idx = state.navigation.selected_index;
    let new_node = if idx < state.playlists.len() {
        let pl = &state.playlists[idx];
        ExplorerNode::PlaylistTracks(pl.id.clone(), pl.name.clone(), pl.owner)
    } else {
        ExplorerNode::LikedTracks
    };
    let n = state.explorer_stack.len();
    let changed = if n == 0 {
        true
    } else {
        !nodes_equal(&state.explorer_stack[n - 1], &new_node)
    };
    let liked = match new_node {
        ExplorerNode::LikedTracks => true,
        _ => false,
    };
    state.explorer_stack.clear();
    state.explorer_stack.push(new_node);
    state.explorer_selected_index = 0;
    if changed {
        state.explorer_items.clear();
        state.explorer_fetch_pending = true;
        if liked {
            state.explorer_items = state.liked_tracks.clone();
            state.explorer_fetch_pending = false;
        }
    }
    assert(state.explorer_stack@ =~= seq![sidebar_node(old(state)@)]);
    assert(state@.explorer_items =~= synced(old(state)@).explorer_items);
}

fn check_ready(state: &mut AppState)
    ensures
        final(state)@ == ready_checked(old(state)@),
{
    if state.status == AppStatus::Loading && state.loaded_user && state.loaded_playlists && state.loaded_liked {
        state.status = AppStatus::Ready;
    }
}

fn recompute_stats(state: &mut AppState)
    requires
        old(state)@.liked_tracks.len() <= u32::MAX,
    ensures
        final(state)@ == (AppView { cached_stats: final(state)@.cached_stats, ..old(state)@ }),
        stats_for(final(state)@.cached_stats, old(state)@.playlists, old(state)@.liked_tracks),
{
    let stats = match &state.user_profile {
        Some(p) => compute_stats(p, &state.playlists, &state.liked_tracks),
        None => compute_stats(&UserProfile::default(), &state.playlists, &state.liked_tracks),
    };
    state.cached_stats = stats;
}

fn clamp_to(x: isize, max: isize) -> (r: isize)
    requires
        max >= 0,
    ensures
        r == clamp_index(x as int, max as int),
{
    if x < 0 {
        0
    } else if x > max {
        max
    } else {
        x
    }
}

fn move_cursor(state: &mut AppState, delta: isize)
    requires
        old(state)@.wf(),
        delta >= -isize::MAX,
        active_cursor(old(state)@) + delta <= isize::MAX,
    ensures
        final(state)@ == moved(old(state)@, delta as int),
{
    match state.key_mode {
        KeyMode::Search => {
            let max = state.search.results.len().saturating_sub(1);
            state.search.selected = clamp_to(state.search.selected as isize + delta, max as isize) as usize;
            return;
        },
        KeyMode::TrackMenu => {
            let max = state.track_menu.actions.len().saturating_sub(1);
            state.track_menu.selected = clamp_to(state.track_menu.selected as isize + delta, max as isize) as usize;
            return;
        },
        KeyMode::Profile => {
            if delta > 0 {
                state.profile.next_section();
            } else {
                state.profile.prev_section();
            }
            return;
        },
        _ => {},
    }
    let max = max_index(state) as isize;
    match state.focus {
        Focus::Sidebar => {
            let i = clamp_to(state.navigation.selected_index as isize + delta, max) as usize;
            state.navigation.selected_index = i;
            sync_sidebar(state);
        },
        Focus::Explorer => {
            let i = clamp_to(state.explorer_selected_index as isize + delta, max) as usize;
            state.explorer_selected_index = i;
        },
    }
}

fn set_cursor(state: &mut AppState, idx: usize)
    requires
        old(state)@.wf(),
    ensures
        final(state)@ == cursor_set(old(state)@, idx as nat),
{
    let m = max_index(state);
    let i = if idx < m { idx } else { m };
    match state.focus {
        Focus::Sidebar => {
            state.navigation.selected_index = i;
            sync_sidebar(state);
        },
        Focus::Explorer => {
            state.explorer_selected_index = i;
        },
    }
}

fn remove_fetching(list: &mut Vec<String>, url: &str)
    requires
        forall|i: int, j: int|
            0 <= i < old(list)@.len() && 0 <= j < old(list)@.len() && i != j ==> #[trigger] old(list)@[i]@
                != #[trigger] old(list)@[j]@,
    ensures
        final(list)@ == fetch_removed(old(list)@, url@),
{
    let mut i: usize = 0;
    let mut found = false;
    while i < list.len() && !found
        invariant
            list@ == old(list)@,
            i <= list.len(),
            !found ==> forall|k: int| 0 <= k < i ==> list@[k]@ != url@,
            found ==> i < list.len() && list@[i as int]@ == url@,
        decreases list.len() - i + if found { 0int } else { 1int },
    {
        if text_eq(list[i].as_str(), url) {
            found = true;
        } else {
            i = i + 1;
        }
    }
    if found {
        proof {
            let c = choose|k: int| 0 <= k < old(list)@.len() && old(list)@[k]@ == url@;
            assert(c == i as int);
        }
        list.remove(i);
    }
}

fn insert_cover(cache: &mut Vec<CoverEntry>, url: String, img: CoverImage)
    requires
        forall|i: int, j: int|
            0 <= i < old(cache)@.len() && 0 <= j < old(cache)@.len() && i != j ==> #[trigger] old(cache)@[i].url@
                != #[trigger] old(cache)@[j].url@,
    ensures
        final(cache)@ == cache_inserted(old(cache)@, url, img),
{
    let ghost old_img = img;
    let ghost old_url = url;
    let mut j: usize = 0;
    let mut hit = false;
    while j < cache.len() && !hit
        invariant
            cache@ == old(cache)@,
            j <= cache.len(),
            !hit ==> forall|k: int| 0 <= k < j ==> cache@[k].url@ != url@,
            hit ==> j < cache.len() && cache@[j as int].url@ == url@,
        decreases cache.len() - j + if hit { 0int } else { 1int },
    {
        if text_eq(cache[j].url.as_str(), url.as_str()) {
            hit = true;
        } else {
            j = j + 1;
        }
    }
    if hit {
        proof {
            let c = choose|k: int| 0 <= k < old(cache)@.len() && old(cache)@[k].url@ == url@;
            assert(c == j as int);
        }
        let mut e = cache.remove(j);
        e.image = img;
        cache.insert(j, e);
        assert(cache@ =~= cache_inserted(old(cache)@, old_url, old_img));
    } else {
        cache.push(CoverEntry { url, image: img });
    }
}

fn store_cover(state: &mut AppState, url: String, img: CoverImage)
    requires
        cover_urls_unique_of(old(state)@),
    ensures
        final(state)@ == (AppView {
            cover_fetching: fetch_removed(old(state)@.cover_fetching, url@),
            cover_cache: cache_inserted(old(state)@.cover_cache, url, img),
            ..old(state)@
        }),
{
    remove_fetching(&mut state.cover_fetching, url.as_str());
    insert_cover(&mut state.cover_cache, url, img);
}

/// No URL occurs twice in the state's cover cache or fetch list.
pub open spec fn cover_urls_unique_of(v: AppView) -> bool {
    crate::state::cover_urls_unique(v.cover_cache, v.cover_fetching)
}

} // verus!

verus! {

proof fn lemma_fetch_removed_unique(f: Seq<String>, url: Seq<char>)
    requires
        forall|i: int, j: int| 0 <= i < f.len() && 0 <= j < f.len() && i != j ==> #[trigger] f[i]@ != #[trigger] f[j]@,
    ensures
        forall|i: int, j: int|
            0 <= i < fetch_removed(f, url).len() && 0 <= j < fetch_removed(f, url).len() && i != j
                ==> #[trigger] fetch_removed(f, url)[i]@ != #[trigger] fetch_removed(f, url)[j]@,
{
    if exists|i: int| 0 <= i < f.len() && f[i]@ == url {
        let c = choose|i: int| 0 <= i < f.len() && f[i]@ == url;
        let g = f.remove(c);
        assert forall|i: int, j: int| 0 <= i < g.len() && 0 <= j < g.len() && i != j implies #[trigger] g[i]@ != #[trigger] g[j]@ by {
            let a = if i < c { i } else { i + 1 };
            let b = if j < c { j } else { j + 1 };
            assert(g[i] == f[a]);
            assert(g[j] == f[b]);
        }
    }
}

proof fn lemma_cache_inserted_unique(c: Seq<CoverEntry>, url: String, img: CoverImage)
    requires
        forall|i: int, j: int| 0 <= i < c.len() && 0 <= j < c.len() && i != j ==> #[trigger] c[i].url@ != #[trigger] c[j].url@,
    ensures
        forall|i: int, j: int|
            0 <= i < cache_inserted(c, url, img).len() && 0 <= j < cache_inserted(c, url, img).len() && i != j
                ==> #[trigger] cache_inserted(c, url, img)[i].url@ != #[trigger] cache_inserted(c, url, img)[j].url@,
{
    let d = cache_inserted(c, url, img);
    if exists|i: int| 0 <= i < c.len() && c[i].url@ == url@ {
        let k = choose|i: int| 0 <= i < c.len() && c[i].url@ == url@;
        assert forall|i: int, j: int| 0 <= i < d.len() && 0 <= j < d.len() && i != j implies #[trigger] d[i].url@ != #[trigger] d[j].url@ by {
            assert(d[i].url == c[i].url);
            assert(d[j].url == c[j].url);
        }
    } else {
        assert forall|i: int, j: int| 0 <= i < d.len() && 0 <= j < d.len() && i != j implies #[trigger] d[i].url@ != #[trigger] d[j].url@ by {
            if i == c.len() {
                assert(d[j] == c[j]);
            } else if j == c.len() {
                assert(d[i] == c[i]);
            } else {
                assert(d[i] == c[i]);
                assert(d[j] == c[j]);
            }
        }
    }
}

proof fn lemma_synced_wf(v: AppView)
    requires
        v.wf(),
        v.navigation.selected_index <= v.playlists.len(),
    ensures
        synced(v).wf(),
{
}

proof fn lemma_data_wf(v: AppView, e: AppEvent, now: u64)
    requires
        v.wf(),
        event_fits(v, e),
        is_data_event(e),
    ensures
        reduced(v, e, now).wf(),
{
    reveal(reduced);
    match e {
        AppEvent::CoverLoaded(url, img) => {
            lemma_fetch_removed_unique(v.cover_fetching, url@);
            lemma_cache_inserted_unique(v.cover_cache, url, img);
        },
        _ => {},
    }
}

proof fn lemma_moved_wf(v: AppView, delta: int)
    requires
        v.wf(),
        delta >= -isize::MAX,
        active_cursor(v) + delta <= isize::MAX,
    ensures
        moved(v, delta).wf(),
{
    match v.key_mode {
        KeyMode::Search => {},
        KeyMode::TrackMenu => {},
        KeyMode::Profile => {},
        _ => match v.focus {
            Focus::Sidebar => {
                let w = AppView {
                    navigation: NavigationState {
                        selected_index: clamp_index(v.navigation.selected_index + delta, v.max_index() as int) as usize,
                    },
                    ..v
                };
                lemma_synced_wf(w);
            },
            Focus::Explorer => {},
        },
    }
}

proof fn lemma_cursor_set_wf(v: AppView, idx: nat)
    requires
        v.wf(),
    ensures
        cursor_set(v, idx).wf(),
{
    let i = if idx < v.max_index() { idx } else { v.max_index() };
    if v.focus == Focus::Sidebar {
        lemma_synced_wf(AppView { navigation: NavigationState { selected_index: i as usize }, ..v });
    }
}

proof fn lemma_navigation_wf(v: AppView, e: AppEvent, now: u64)
    requires
        v.wf(),
        event_fits(v, e),
        is_navigation_event(e),
    ensures
        reduced(v, e, now).wf(),
{
    reveal(reduced);
    match e {
        AppEvent::MoveDown(n) => lemma_moved_wf(v, n as int),
        AppEvent::MoveUp(n) => lemma_moved_wf(v, -(n as int)),
        AppEvent::GoTop => lemma_cursor_set_wf(v, 0),
        AppEvent::GoBottom => lemma_cursor_set_wf(v, v.max_index()),
        AppEvent::GoMiddle => lemma_cursor_set_wf(v, v.max_index() / 2),
        AppEvent::JumpToPlaylists => lemma_synced_wf(AppView { navigation: NavigationState { selected_index: 0 }, ..v }),
        AppEvent::JumpToLiked => lemma_synced_wf(AppView { navigation: NavigationState { selected_index: v.playlists.len() as usize }, ..v }),
        _ => {},
    }
}

/// Events of the search overlay and the track menu.
pub open spec fn is_overlay_event(e: AppEvent) -> bool {
    ||| e is OpenSearch
    ||| e is SearchQueryChanged
    ||| e is SearchCatalogResults
    ||| e is OpenTrackMenu
    ||| e is TrackMenuQueryChanged
    ||| e is TrackMenuPickPlaylist
}

#[verifier::spinoff_prover]
proof fn lemma_overlay_wf(v: AppView, e: AppEvent, now: u64)
    requires
        v.wf(),
        event_fits(v, e),
        is_overlay_event(e),
    ensures
        reduced(v, e, now).wf(),
{
    match e {
        AppEvent::SearchCatalogResults(r) => {
            reveal(reduced);
            crate::laws::lemma_added_len(track_ids(v.search.results), r@);
        },
        AppEvent::SearchQueryChanged(q) => {
            reveal(reduced);
            crate::state::lemma_local_matches_len(v.all_tracks, q@);
        },
        AppEvent::TrackMenuQueryChanged(q) => {
            reveal(reduced);
            crate::trackmenu::lemma_kept_actions_len(q@);
            crate::trackmenu::lemma_playlist_choices(v.playlists, q@);
        },
        AppEvent::TrackMenuPickPlaylist => {
            reveal(reduced);
            crate::trackmenu::lemma_playlist_choices(v.playlists, Seq::empty());
        },
        AppEvent::OpenTrackMenu => {
            reveal(reduced);
            crate::trackmenu::lemma_kept_actions_len(Seq::empty());
        },
        _ => {
            reveal(reduced);
        },
    }
}

#[verifier::rlimit(60)]
#[verifier::spinoff_prover]
proof fn lemma_command_wf(v: AppView, e: AppEvent, now: u64)
    requires
        v.wf(),
        event_fits(v, e),
        !is_data_event(e),
        !is_navigation_event(e),
        !is_overlay_event(e),
    ensures
        reduced(v, e, now).wf(),
{
    reveal(reduced);
}

/// Every event keeps the state's standing assumptions: lists within the
/// sizes the cursor arithmetic handles, cursors within range, a consistent
/// render cache, and covers keyed by URL.
pub proof fn lemma_reduced_wf(v: AppView, e: AppEvent, now: u64)
    requires
        v.wf(),
        event_fits(v, e),
    ensures
        reduced(v, e, now).wf(),
{
    if is_data_event(e) {
        lemma_data_wf(v, e, now);
    } else if is_navigation_event(e) {
        lemma_navigation_wf(v, e, now);
    } else if is_overlay_event(e) {
        lemma_overlay_wf(v, e, now);
    } else {
        lemma_command_wf(v, e, now);
    }
}

/// Events that bring fetched data.
pub open spec fn is_data_event(e: AppEvent) -> bool {
    ||| e is Quit
    ||| e is UserLoaded
    ||| e is UserProfileLoaded
    ||| e is PlaylistsLoaded
    ||| e is LikedTracksLoaded
    ||| e is ExplorerTracksLoaded
    ||| e is CoverLoaded
    ||| e is LoadError
}

/// Events that move a cursor or the focus.
pub open spec fn is_navigation_event(e: AppEvent) -> bool {
    ||| e is MoveDown
    ||| e is MoveUp
    ||| e is GoTop
    ||| e is GoBottom
    ||| e is GoMiddle
    ||| e is Enter
    ||| e is Back
    ||| e is JumpToPlaylists
    ||| e is JumpToLiked
}

fn open_track_menu(state: &mut AppState)
    ensures
        final(state)@ == menu_opened(old(state)@),
{
    if state.explorer_selected_index < state.explorer_items.len() {
        let track = state.explorer_items[state.explorer_selected_index].clone();
        state.track_menu = TrackMenuState::open(track);
        state.key_mode = KeyMode::TrackMenu;
        proof {
            crate::trackmenu::lemma_kept_actions_len(Seq::empty());
        }
        assert(state.track_menu.query@ =~= Seq::<char>::empty());
    }
}

fn change_menu_query(state: &mut AppState, q: String)
    ensures
        final(state)@ == (AppView {
            track_menu: menu_rebuilt(TrackMenuView { query: q@, ..old(state)@.track_menu }, old(state)@.playlists),
            ..old(state)@
        }),
{
    state.track_menu.query = q;
    if state.track_menu.picking_playlist {
        state.track_menu.rebuild_playlist_choices(&state.playlists);
    } else {
        state.track_menu.rebuild_actions();
    }
}

fn pick_playlist(state: &mut AppState)
    ensures
        final(state)@ == (AppView {
            track_menu: menu_rebuilt(
                TrackMenuView { query: Seq::empty(), selected: 0, picking_playlist: true, ..old(state)@.track_menu },
                old(state)@.playlists,
            ),
            ..old(state)@
        }),
{
    state.track_menu.query = String::new();
    state.track_menu.selected = 0;
    state.track_menu.picking_playlist = true;
    state.track_menu.rebuild_playlist_choices(&state.playlists);
    assert(state.track_menu.query@ =~= Seq::<char>::empty());
}

fn toggle_pause(state: &mut AppState)
    ensures
        final(state)@ == pause_toggled(old(state)@),
{
    match &mut state.playback {
        Some(p) => {
            p.is_playing = !p.is_playing;
        },
        None => {},
    }
}

/// The state `w` is what event `e` at time `now` makes of the state `v`,
/// with the statistics recomputed exactly when the event calls for it.
#[verifier::opaque]
spec fn stepped(v: AppView, w: AppView, e: AppEvent, now: u64) -> bool {
    &&& w == (AppView { cached_stats: w.cached_stats, ..reduced(v, e, now) })
    &&& if recomputes_stats(e) {
        stats_for(w.cached_stats, w.playlists, w.liked_tracks)
    } else {
        w.cached_stats == v.cached_stats
    }
}

// ── One step per event ──────────────────────────────────────────────────────

fn step_quit(state: &mut AppState, Ghost(e): Ghost<AppEvent>, Ghost(now): Ghost<u64>)
    requires
        e is Quit || e is ProfileLogout,
    ensures
        stepped(old(state)@, final(state)@, e, now),
{
    state.should_quit = true;
    proof {
        reveal(stepped);
        reveal(reduced);
    }
}

fn step_user_loaded(state: &mut AppState, name: String, Ghost(e): Ghost<AppEvent>, Ghost(now): Ghost<u64>)
    requires
        e == AppEvent::UserLoaded(name),
    ensures
        stepped(old(state)@, final(state)@, e, now),
{
    state.user_name = Some(name);
    state.loaded_user = true;
    check_ready(state);
    proof {
        reveal(stepped);
        reveal(reduced);
    }
}

fn step_profile_loaded(state: &mut AppState, profile: UserProfile, Ghost(e): Ghost<AppEvent>, Ghost(now): Ghost<u64>)
    requires
        old(state)@.wf(),
        e == AppEvent::UserProfileLoaded(profile),
    ensures
        stepped(old(state)@, final(state)@, e, now),
{
    state.user_profile = Some(profile);
    recompute_stats(state);
    proof {
        reveal(stepped);
        reveal(reduced);
    }
}

fn step_playlists_loaded(state: &mut AppState, pl: Vec<PlaylistSummary>, Ghost(e): Ghost<AppEvent>, Ghost(now): Ghost<u64>)
    requires
        old(state)@.wf(),
        e == AppEvent::PlaylistsLoaded(pl),
    ensures
        stepped(old(state)@, final(state)@, e, now),
{
    let ghost p = pl@;
    state.playlists = pl;
    state.loaded_playlists = true;
    sync_sidebar(state);
    check_ready(state);
    recompute_stats(state);
    proof {
        reveal(stepped);
        reveal(reduced);
    }
}

fn step_liked_loaded(state: &mut AppState, tracks: Vec<TrackSummary>, Ghost(e): Ghost<AppEvent>, Ghost(now): Ghost<u64>)
    requires
        e == AppEvent::LikedTracksLoaded(tracks),
        tracks.len() <= u32::MAX,
    ensures
        stepped(old(state)@, final(state)@, e, now),
{
    state.merge_tracks(&tracks);
    state.liked_tracks = tracks;
    state.loaded_liked = true;
    recompute_stats(state);
    let n = state.explorer_stack.len();
    let shows_liked = n > 0 && match state.explorer_stack[n - 1] {
        ExplorerNode::LikedTracks => true,
        _ => false,
    };
    if shows_liked {
        state.explorer_items = state.liked_tracks.clone();
        state.explorer_fetch_pending = false;
    }
    check_ready(state);
    proof {
        reveal(stepped);
        reveal(reduced);
    }
}

fn step_explorer_loaded(state: &mut AppState, tracks: Vec<TrackSummary>, Ghost(e): Ghost<AppEvent>, Ghost(now): Ghost<u64>)
    requires
        old(state)@.wf(),
        e == AppEvent::ExplorerTracksLoaded(tracks),
    ensures
        stepped(old(state)@, final(state)@, e, now),
{
    state.merge_tracks(&tracks);
    state.explorer_items = tracks;
    state.explorer_selected_index = 0;
    state.explorer_fetch_pending = false;
    recompute_stats(state);
    proof {
        reveal(stepped);
        reveal(reduced);
    }
}

fn step_cover_loaded(state: &mut AppState, url: String, img: CoverImage, Ghost(e): Ghost<AppEvent>, Ghost(now): Ghost<u64>)
    requires
        old(state)@.wf(),
        e == AppEvent::CoverLoaded(url, img),
    ensures
        stepped(old(state)@, final(state)@, e, now),
{
    store_cover(state, url, img);
    proof {
        reveal(stepped);
        reveal(reduced);
    }
}

fn step_load_error(state: &mut AppState, msg: String, Ghost(e): Ghost<AppEvent>, Ghost(now): Ghost<u64>)
    requires
        e == AppEvent::LoadError(msg),
    ensures
        stepped(old(state)@, final(state)@, e, now),
{
    state.error_message = Some(msg);
    check_ready(state);
    proof {
        reveal(stepped);
        reveal(reduced);
    }
}

fn step_move(state: &mut AppState, delta: isize, Ghost(e): Ghost<AppEvent>, now_ms: u64)
    requires
        old(state)@.wf(),
        event_fits(old(state)@, e),
        e matches AppEvent::MoveDown(n) ==> delta == n,
        e matches AppEvent::MoveUp(n) ==> delta == -n,
        e is MoveDown || e is MoveUp,
    ensures
        stepped(old(state)@, final(state)@, e, now_ms),
{
    move_cursor(state, delta);
    state.last_nav_move = Some(now_ms);
    proof {
        reveal(stepped);
        reveal(reduced);
    }
}

fn step_cursor_set(state: &mut AppState, idx: usize, Ghost(e): Ghost<AppEvent>, now_ms: u64)
    requires
        old(state)@.wf(),
        e is GoTop ==> idx == 0,
        e is GoBottom ==> idx == old(state)@.max_index(),
        e is GoMiddle ==> idx == old(state)@.max_index() / 2,
        e is GoTop || e is GoBottom || e is GoMiddle,
    ensures
        stepped(old(state)@, final(state)@, e, now_ms),
{
    set_cursor(state, idx);
    state.last_nav_move = Some(now_ms);
    proof {
        reveal(stepped);
        reveal(reduced);
    }
}

fn step_enter(state: &mut AppState, Ghost(e): Ghost<AppEvent>, Ghost(now): Ghost<u64>)
    requires
        e is Enter,
    ensures
        stepped(old(state)@, final(state)@, e, now),
{
    if state.focus == Focus::Sidebar {
        state.focus = Focus::Explorer;
    }
    proof {
        reveal(stepped);
        reveal(reduced);
    }
}

fn step_back(state: &mut AppState, Ghost(e): Ghost<AppEvent>, Ghost(now): Ghost<u64>)
    requires
        e is Back,
    ensures
        stepped(old(state)@, final(state)@, e, now),
{
    state.focus = Focus::Sidebar;
    proof {
        reveal(stepped);
        reveal(reduced);
    }
}

fn step_jump(state: &mut AppState, idx: usize, Ghost(e): Ghost<AppEvent>, now_ms: u64)
    requires
        old(state)@.wf(),
        e is JumpToPlaylists ==> idx == 0,
        e is JumpToLiked ==> idx == old(state)@.playlists.len(),
        e is JumpToPlaylists || e is JumpToLiked,
    ensures
        stepped(old(state)@, final(state)@, e, now_ms),
{
    state.navigation.selected_index = idx;
    sync_sidebar(state);
    state.key_mode = KeyMode::Normal;
    state.last_nav_move = Some(now_ms);
    proof {
        reveal(stepped);
        reveal(reduced);
    }
}

fn step_play_track(state: &mut AppState, context_uri: Option<String>, Ghost(e): Ghost<AppEvent>, Ghost(now): Ghost<u64>)
    requires
        e matches AppEvent::PlayTrack { track: _, context_uri: c } && c == context_uri,
    ensures
        stepped(old(state)@, final(state)@, e, now),
{
    state.playing_context_uri = context_uri;
    proof {
        reveal(stepped);
        reveal(reduced);
    }
}

fn step_toggle_pause(state: &mut AppState, Ghost(e): Ghost<AppEvent>, Ghost(now): Ghost<u64>)
    requires
        e is TogglePause,
    ensures
        stepped(old(state)@, final(state)@, e, now),
{
    toggle_pause(state);
    proof {
        reveal(stepped);
        reveal(reduced);
    }
}

fn step_playback(state: &mut AppState, ps: Option<PlaybackState>, Ghost(e): Ghost<AppEvent>, Ghost(now): Ghost<u64>)
    requires
        e == AppEvent::PlaybackStateUpdated(ps),
    ensures
        stepped(old(state)@, final(state)@, e, now),
{
    state.playback = ps;
    proof {
        reveal(stepped);
        reveal(reduced);
    }
}

fn step_devices(state: &mut AppState, devs: Vec<Device>, Ghost(e): Ghost<AppEvent>, Ghost(now): Ghost<u64>)
    requires
        e == AppEvent::DevicesUpdated(devs),
    ensures
        stepped(old(state)@, final(state)@, e, now),
{
    state.devices = devs;
    proof {
        reveal(stepped);
        reveal(reduced);
    }
}

/// Events that leave the state as it is: skipping is the player's work, and
/// confirming a menu entry is carried out by the event loop.
proof fn lemma_step_unchanged(v: AppView, e: AppEvent, now: u64)
    requires
        e is SkipNext || e is SkipPrev || e is TrackMenuConfirm,
    ensures
        stepped(v, v, e, now),
{
    reveal(stepped);
    reveal(reduced);
}

fn step_key_mode(state: &mut AppState, mode: KeyMode, Ghost(e): Ghost<AppEvent>, Ghost(now): Ghost<u64>)
    requires
        e is CloseSearch || e is CloseProfile || e is OpenProfile,
        e is OpenProfile ==> mode == KeyMode::Profile,
        !(e is OpenProfile) ==> mode == KeyMode::Normal,
    ensures
        stepped(old(state)@, final(state)@, e, now),
{
    state.key_mode = mode;
    proof {
        reveal(stepped);
        reveal(reduced);
    }
}

fn step_open_track_menu(state: &mut AppState, Ghost(e): Ghost<AppEvent>, Ghost(now): Ghost<u64>)
    requires
        e is OpenTrackMenu,
    ensures
        stepped(old(state)@, final(state)@, e, now),
{
    open_track_menu(state);
    proof {
        reveal(stepped);
        reveal(reduced);
    }
}

fn step_close_track_menu(state: &mut AppState, Ghost(e): Ghost<AppEvent>, Ghost(now): Ghost<u64>)
    requires
        e is CloseTrackMenu,
    ensures
        stepped(old(state)@, final(state)@, e, now),
{
    state.key_mode = KeyMode::Normal;
    state.track_menu = TrackMenuState::default();
    assert(state.track_menu.query@ =~= Seq::<char>::empty());
    assert(state.track_menu.actions@ =~= Seq::<crate::trackmenu::TrackAction>::empty());
    proof {
        reveal(stepped);
        reveal(reduced);
    }
}

fn step_pick_playlist(state: &mut AppState, Ghost(e): Ghost<AppEvent>, Ghost(now): Ghost<u64>)
    requires
        e is TrackMenuPickPlaylist,
    ensures
        stepped(old(state)@, final(state)@, e, now),
{
    pick_playlist(state);
    proof {
        reveal(stepped);
        reveal(reduced);
    }
}

fn step_open_search(state: &mut AppState, Ghost(e): Ghost<AppEvent>, Ghost(now): Ghost<u64>)
    requires
        e is OpenSearch,
    ensures
        stepped(old(state)@, final(state)@, e, now),
{
    state.key_mode = KeyMode::Search;
    state.search.query = String::new();
    state.search.results = Vec::new();
    state.search.selected = 0;
    state.search.is_searching = false;
    assert(state.search.query@ =~= Seq::<char>::empty());
    assert(state.search.results@ =~= Seq::<TrackSummary>::empty());
    proof {
        reveal(stepped);
        reveal(reduced);
    }
}

fn step_search_query(state: &mut AppState, q: String, Ghost(e): Ghost<AppEvent>, Ghost(now): Ghost<u64>)
    requires
        e == AppEvent::SearchQueryChanged(q),
    ensures
        stepped(old(state)@, final(state)@, e, now),
{
    if !q.as_str().is_empty() {
        state.search.is_searching = true;
    }
    state.search.query = q;
    state.search.update_local(&state.all_tracks);
    proof {
        reveal(stepped);
        reveal(reduced);
    }
}

fn step_search_results(state: &mut AppState, results: Vec<TrackSummary>, Ghost(e): Ghost<AppEvent>, Ghost(now): Ghost<u64>)
    requires
        e == AppEvent::SearchCatalogResults(results),
    ensures
        stepped(old(state)@, final(state)@, e, now),
{
    state.search.merge_catalog(&results);
    proof {
        reveal(stepped);
        reveal(reduced);
    }
}

fn step_menu_query(state: &mut AppState, q: String, Ghost(e): Ghost<AppEvent>, Ghost(now): Ghost<u64>)
    requires
        e == AppEvent::TrackMenuQueryChanged(q),
    ensures
        stepped(old(state)@, final(state)@, e, now),
{
    change_menu_query(state, q);
    proof {
        reveal(stepped);
        reveal(reduced);
    }
}

fn step_section(state: &mut AppState, forward: bool, Ghost(e): Ghost<AppEvent>, Ghost(now): Ghost<u64>)
    requires
        e is ProfileSectionNext || e is ProfileSectionPrev,
        forward == (e is ProfileSectionNext),
    ensures
        stepped(old(state)@, final(state)@, e, now),
{
    if forward {
        state.profile.next_section();
    } else {
        state.profile.prev_section();
    }
    proof {
        reveal(stepped);
        reveal(reduced);
    }
}

fn step_toast(state: &mut AppState, msg: String, Ghost(e): Ghost<AppEvent>, now_ms: u64)
    requires
        e == AppEvent::Toast(msg),
    ensures
        stepped(old(state)@, final(state)@, e, now_ms),
{
    state.show_toast(msg, now_ms);
    proof {
        reveal(stepped);
        reveal(reduced);
    }
}

/// Applies an event to the state at time `now_ms` and says what the event
/// loop must do next.
pub fn reduce(state: &mut AppState, event: AppEvent, now_ms: u64) -> (effect: Effect)
    requires
        old(state)@.wf(),
        event_fits(old(state)@, event),
    ensures
        final(state)@.wf(),
        final(state)@ == (AppView { cached_stats: final(state)@.cached_stats, ..reduced(old(state)@, event, now_ms) }),
        recomputes_stats(event) ==> stats_for(final(state)@.cached_stats, final(state)@.playlists, final(state)@.liked_tracks),
        !recomputes_stats(event) ==> final(state)@.cached_stats == old(state)@.cached_stats,
        effect == if event is ProfileLogout { Effect::DeleteTokenCache } else { Effect::Nothing },
{
    proof {
        lemma_reduced_wf(old(state)@, event, now_ms);
    }
    let ghost e = event;
    let ghost now = now_ms;
    let effect = match event {
        AppEvent::Quit => {
            step_quit(state, Ghost(e), Ghost(now));
            Effect::Nothing
        },
        AppEvent::UserLoaded(name) => {
            step_user_loaded(state, name, Ghost(e), Ghost(now));
            Effect::Nothing
        },
        AppEvent::UserProfileLoaded(profile) => {
            step_profile_loaded(state, profile, Ghost(e), Ghost(now));
            Effect::Nothing
        },
        AppEvent::PlaylistsLoaded(pl) => {
            step_playlists_loaded(state, pl, Ghost(e), Ghost(now));
            Effect::Nothing
        },
        AppEvent::LikedTracksLoaded(tracks) => {
            step_liked_loaded(state, tracks, Ghost(e), Ghost(now));
            Effect::Nothing
        },
        AppEvent::ExplorerTracksLoaded(tracks) => {
            step_explorer_loaded(state, tracks, Ghost(e), Ghost(now));
            Effect::Nothing
        },
        AppEvent::CoverLoaded(url, img) => {
            step_cover_loaded(state, url, img, Ghost(e), Ghost(now));
            Effect::Nothing
        },
        AppEvent::LoadError(msg) => {
            step_load_error(state, msg, Ghost(e), Ghost(now));
            Effect::Nothing
        },
        AppEvent::MoveDown(n) => {
            step_move(state, n as isize, Ghost(e), now_ms);
            Effect::Nothing
        },
        AppEvent::MoveUp(n) => {
            step_move(state, -(n as isize), Ghost(e), now_ms);
            Effect::Nothing
        },
        AppEvent::GoTop => {
            step_cursor_set(state, 0, Ghost(e), now_ms);
            Effect::Nothing
        },
        AppEvent::GoBottom => {
            let m = max_index(state);
            step_cursor_set(state, m, Ghost(e), now_ms);
            Effect::Nothing
        },
        AppEvent::GoMiddle => {
            let m = max_index(state);
            step_cursor_set(state, m / 2, Ghost(e), now_ms);
            Effect::Nothing
        },
        AppEvent::Enter => {
            step_enter(state, Ghost(e), Ghost(now));
            Effect::Nothing
        },
        AppEvent::Back => {
            step_back(state, Ghost(e), Ghost(now));
            Effect::Nothing
        },
        AppEvent::JumpToPlaylists => {
            step_jump(state, 0, Ghost(e), now_ms);
            Effect::Nothing
        },
        AppEvent::JumpToLiked => {
            let n = state.playlists.len();
            step_jump(state, n, Ghost(e), now_ms);
            Effect::Nothing
        },
        AppEvent::PlayTrack { track: _, context_uri } => {
            step_play_track(state, context_uri, Ghost(e), Ghost(now));
            Effect::Nothing
        },
        AppEvent::TogglePause => {
            step_toggle_pause(state, Ghost(e), Ghost(now));
            Effect::Nothing
        },
        AppEvent::PlaybackStateUpdated(ps) => {
            step_playback(state, ps, Ghost(e), Ghost(now));
            Effect::Nothing
        },
        AppEvent::DevicesUpdated(devs) => {
            step_devices(state, devs, Ghost(e), Ghost(now));
            Effect::Nothing
        },
        AppEvent::SkipNext | AppEvent::SkipPrev | AppEvent::TrackMenuConfirm => {
            proof {
                lemma_step_unchanged(state@, e, now);
            }
            Effect::Nothing
        },
        AppEvent::CloseSearch | AppEvent::CloseProfile => {
            step_key_mode(state, KeyMode::Normal, Ghost(e), Ghost(now));
            Effect::Nothing
        },
        AppEvent::OpenProfile => {
            step_key_mode(state, KeyMode::Profile, Ghost(e), Ghost(now));
            Effect::Nothing
        },
        AppEvent::OpenTrackMenu => {
            step_open_track_menu(state, Ghost(e), Ghost(now));
            Effect::Nothing
        },
        AppEvent::CloseTrackMenu => {
            step_close_track_menu(state, Ghost(e), Ghost(now));
            Effect::Nothing
        },
        AppEvent::TrackMenuQueryChanged(q) => {
            step_menu_query(state, q, Ghost(e), Ghost(now));
            Effect::Nothing
        },
        AppEvent::OpenSearch => {
            step_open_search(state, Ghost(e), Ghost(now));
            Effect::Nothing
        },
        AppEvent::TrackMenuPickPlaylist => {
            step_pick_playlist(state, Ghost(e), Ghost(now));
            Effect::Nothing
        },
        AppEvent::SearchQueryChanged(q) => {
            step_search_query(state, q, Ghost(e), Ghost(now));
            Effect::Nothing
        },
        AppEvent::SearchCatalogResults(results) => {
            step_search_results(state, results, Ghost(e), Ghost(now));
            Effect::Nothing
        },
        AppEvent::ProfileSectionNext => {
            step_section(state, true, Ghost(e), Ghost(now));
            Effect::Nothing
        },
        AppEvent::ProfileSectionPrev => {
            step_section(state, false, Ghost(e), Ghost(now));
            Effect::Nothing
        },
        AppEvent::ProfileLogout => {
            step_quit(state, Ghost(e), Ghost(now));
            Effect::DeleteTokenCache
        },
        AppEvent::Toast(msg) => {
            step_toast(state, msg, Ghost(e), now_ms);
            Effect::Nothing
        },
    };
    proof {
        reveal(stepped);
        lemma_wf_ignores_stats(state@, reduced(old(state)@, e, now_ms));
    }
    effect
}

proof fn lemma_wf_ignores_stats(a: AppView, b: AppView)
    requires
        b.wf(),
        a == (AppView { cached_stats: a.cached_stats, ..b }),
    ensures
        a.wf(),
{
}

/// Whether the state can take the event: the data within the sizes the
/// state keeps, and a motion whose count keeps the cursor arithmetic in
/// range.
pub fn fits(state: &AppState, event: &AppEvent) -> (r: bool)
    ensures
        r == event_fits(state@, *event),
{
    match event {
        AppEvent::PlaylistsLoaded(pl) => (pl.len() as u128) < (isize::MAX as u128),
        AppEvent::LikedTracksLoaded(t) => (t.len() as u128) <= (u32::MAX as u128) && (t.len() as u128) <= (isize::MAX as u128),
        AppEvent::ExplorerTracksLoaded(t) => (t.len() as u128) <= (isize::MAX as u128),
        AppEvent::SearchQueryChanged(_) => (state.all_tracks.len() as u128) <= (isize::MAX as u128),
        AppEvent::SearchCatalogResults(r) => (state.search.results.len() as u128) + (r.len() as u128) <= (isize::MAX as u128),
        AppEvent::MoveDown(n) => {
            let cursor: usize = match state.key_mode {
                KeyMode::Search => state.search.selected,
                KeyMode::TrackMenu => state.track_menu.selected,
                KeyMode::Profile => 0,
                _ => match state.focus {
                    Focus::Sidebar => state.navigation.selected_index,
                    Focus::Explorer => state.explorer_selected_index,
                },
            };
            (*n as u128) + (cursor as u128) <= (isize::MAX as u128)
        },
        AppEvent::MoveUp(n) => (*n as u128) <= (isize::MAX as u128),
        _ => true,
    }
}

} // verus!
