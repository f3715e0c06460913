//! The application state the panes are drawn from, its mathematical view,
//! and the queries the panes and the event loop ask of it.

use vstd::prelude::*;
use crate::cover::{CoverImage, ImageProtocol, RenderCache};
use crate::model::{Device, PlaybackState, PlaylistSummary, TrackSummary, UserProfile, UserStats};
use crate::profile::ProfileState;
use crate::trackmenu::{TrackAction, TrackMenuState};
use crate::text::{contains_text, lowercase_of, text_contains, text_eq, to_lowercase};

verus! {

/// What the explorer pane lists: a playlist's tracks (id, name, whether the
/// user owns it) or the liked songs.
#[derive(Debug)]
pub enum ExplorerNode {
    PlaylistTracks(String, String, bool),
    LikedTracks,
}

impl Clone for ExplorerNode {
    fn clone(&self) -> (r: Self)
        ensures
            r == *self,
    {
        match self {
            ExplorerNode::PlaylistTracks(id, name, owner) => ExplorerNode::PlaylistTracks(
                id.clone(),
                name.clone(),
                *owner,
            ),
            ExplorerNode::LikedTracks => ExplorerNode::LikedTracks,
        }
    }
}

/// Two explorer nodes show the same listing: the same playlist (by id), or
/// both the liked songs.
pub open spec fn same_node(a: ExplorerNode, b: ExplorerNode) -> bool {
    match (a, b) {
        (ExplorerNode::PlaylistTracks(x, _, _), ExplorerNode::PlaylistTracks(y, _, _)) => x@ == y@,
        (ExplorerNode::LikedTracks, ExplorerNode::LikedTracks) => true,
        _ => false,
    }
}

/// Whether two explorer nodes show the same listing.
pub fn nodes_equal(a: &ExplorerNode, b: &ExplorerNode) -> (r: bool)
    ensures
        r == same_node(*a, *b),
{
    match (a, b) {
        (ExplorerNode::PlaylistTracks(x, _, _), ExplorerNode::PlaylistTracks(y, _, _)) => text_eq(
            x.as_str(),
            y.as_str(),
        ),
        (ExplorerNode::LikedTracks, ExplorerNode::LikedTracks) => true,
        _ => false,
    }
}

/// Showing the same listing is an equivalence: every node shows the same
/// listing as itself, and the relation reads the same both ways and chains.
pub proof fn lemma_same_node_equivalence(a: ExplorerNode, b: ExplorerNode, c: ExplorerNode)
    ensures
        same_node(a, a),
        same_node(a, b) == same_node(b, a),
        same_node(a, b) && same_node(b, c) ==> same_node(a, c),
{
}

/// Whether the library is still loading, ready, or failed.
#[derive(Clone, Copy, PartialEq, Eq, Debug, Structural)]
pub enum AppStatus {
    Loading,
    Ready,
    Error,
}

/// How keys are read: normal, after a `g` prefix, or by an open overlay.
#[derive(Clone, Copy, PartialEq, Eq, Debug, Structural)]
pub enum KeyMode {
    Normal,
    AwaitingG,
    Search,
    TrackMenu,
    Profile,
}

/// The pane that has the keyboard.
#[derive(Clone, Copy, PartialEq, Eq, Debug, Structural)]
pub enum Focus {
    Sidebar,
    Explorer,
}

/// The sidebar cursor: the playlists by position, then the liked songs.
#[derive(Clone, Copy, PartialEq, Eq, Debug, Structural)]
pub struct NavigationState {
    pub selected_index: usize,
}

/// The search overlay's state: the typed query, the listed results and the
/// highlighted one.
#[derive(Clone, Debug)]
pub struct SearchState {
    pub query: String,
    pub results: Vec<TrackSummary>,
    pub selected: usize,
    pub is_searching: bool,
}

impl Default for SearchState {
    fn default() -> (s: Self)
        ensures
            s.query@.len() == 0,
            s.results@.len() == 0,
            s.selected == 0,
            !s.is_searching,
    {
        SearchState { query: String::new(), results: Vec::new(), selected: 0, is_searching: false }
    }
}

/// Whether a track answers the search query: its name, artist or album
/// contains the query, ignoring case.
pub open spec fn track_matches(t: TrackSummary, query: Seq<char>) -> bool {
    let q = lowercase_of(query);
    ||| contains_text(lowercase_of(t.name@), q)
    ||| contains_text(lowercase_of(t.artist@), q)
    ||| contains_text(lowercase_of(t.album@), q)
}

/// The tracks of the local index that answer the query, in index order;
/// none for an empty query.
pub open spec fn local_matches(tracks: Seq<TrackSummary>, query: Seq<char>) -> Seq<TrackSummary>
    decreases tracks.len(),
{
    if query.len() == 0 || tracks.len() == 0 {
        Seq::empty()
    } else {
        let rest = local_matches(tracks.drop_last(), query);
        if track_matches(tracks.last(), query) { rest.push(tracks.last()) } else { rest }
    }
}

/// The local matches are tracks of the index, never more than it holds.
pub proof fn lemma_local_matches_len(tracks: Seq<TrackSummary>, query: Seq<char>)
    ensures
        local_matches(tracks, query).len() <= tracks.len(),
    decreases tracks.len(),
{
    if tracks.len() > 0 {
        lemma_local_matches_len(tracks.drop_last(), query);
    }
}

/// `old` followed by the tracks of `tracks` with a non-empty id that neither
/// `old` nor an earlier track of `tracks` holds, in order.
pub fn append_new_tracks(list: &mut Vec<TrackSummary>, tracks: &Vec<TrackSummary>)
    ensures
        final(list)@ == old(list)@ + tracks_to_add(crate::model::track_ids(old(list)@), tracks@),
{
    let ghost ids = crate::model::track_ids(list@);
    let ghost start = list@;
    let n = list.len();
    let mut i: usize = 0;
    while i < tracks.len()
        invariant
            i <= tracks.len(),
            n == start.len(),
            ids == crate::model::track_ids(start),
            list@ == start + tracks_to_add(ids, tracks@.take(i as int)),
        decreases tracks.len() - i,
    {
        let t = &tracks[i];
        let ghost rest = tracks_to_add(ids, tracks@.take(i as int));
        assert(tracks@.take(i + 1).drop_last() =~= tracks@.take(i as int));
        assert(tracks@.take(i + 1).last() == *t);
        let m = list.len();
        let mut known = false;
        let mut k: usize = 0;
        while k < m && !known
            invariant
                k <= m,
                m == list.len(),
                !known ==> forall|q: int| 0 <= q < k ==> list@[q].id@ != t.id@,
                known ==> k < m && list@[k as int].id@ == t.id@,
            decreases m - k + if known { 0int } else { 1int },
        {
            if text_eq(list[k].id.as_str(), t.id.as_str()) {
                known = true;
            } else {
                k = k + 1;
            }
        }
        assert(known == (ids.contains(t.id@) || crate::model::track_ids(rest).contains(t.id@))) by {
            if known {
                if k < n {
                    assert(list@[k as int] == start[k as int]);
                    assert(ids[k as int] == t.id@);
                } else {
                    assert(list@[k as int] == rest[k - n]);
                    assert(crate::model::track_ids(rest)[k - n] == t.id@);
                }
            } else {
                if ids.contains(t.id@) {
                    let q = choose|q: int| 0 <= q < ids.len() && ids[q] == t.id@;
                    assert(list@[q] == start[q]);
                }
                if crate::model::track_ids(rest).contains(t.id@) {
                    let q = choose|q: int|
                        0 <= q < crate::model::track_ids(rest).len() && crate::model::track_ids(rest)[q] == t.id@;
                    assert(list@[n + q] == rest[q]);
                }
            }
        }
        if !t.id.as_str().is_empty() && !known {
            list.push(t.clone());
        }
        i = i + 1;
        assert(list@ =~= start + tracks_to_add(ids, tracks@.take(i as int)));
    }
    assert(tracks@.take(i as int) =~= tracks@);
}

impl SearchState {
    /// Lists the tracks of the local index that answer the query (none for
    /// an empty query) and keeps the highlight on the last listed one at
    /// most.
    pub fn update_local(&mut self, tracks: &Vec<TrackSummary>)
        ensures
            final(self).results@ == local_matches(tracks@, old(self).query@),
            final(self).selected == if old(self).selected < final(self).results@.len() {
                old(self).selected as int
            } else if final(self).results@.len() == 0 {
                0
            } else {
                final(self).results@.len() - 1
            },
            final(self).query == old(self).query,
            final(self).is_searching == old(self).is_searching,
    {
        let mut results: Vec<TrackSummary> = Vec::new();
        if !self.query.as_str().is_empty() {
            let q = to_lowercase(self.query.as_str());
            let mut i: usize = 0;
            while i < tracks.len()
                invariant
                    i <= tracks.len(),
                    self.query@.len() > 0,
                    q@ == lowercase_of(self.query@),
                    results@ == local_matches(tracks@.take(i as int), self.query@),
                decreases tracks.len() - i,
            {
                let t = &tracks[i];
                proof {
                    let tk = tracks@.take(i + 1);
                    assert(tk.drop_last() =~= tracks@.take(i as int));
                    assert(tk.last() == *t);
                }
                let name = to_lowercase(t.name.as_str());
                let artist = to_lowercase(t.artist.as_str());
                let album = to_lowercase(t.album.as_str());
                if text_contains(name.as_str(), q.as_str()) || text_contains(artist.as_str(), q.as_str())
                    || text_contains(album.as_str(), q.as_str()) {
                    results.push(t.clone());
                }
                i = i + 1;
            }
            assert(tracks@.take(i as int) =~= tracks@);
        }
        let last = if results.len() == 0 { 0 } else { results.len() - 1 };
        self.results = results;
        if self.selected > last {
            self.selected = last;
        }
    }

    /// Adds the catalog's results after the listed ones, each track with an
    /// id not listed yet, once; the search is then no longer waiting.
    pub fn merge_catalog(&mut self, catalog: &Vec<TrackSummary>)
        ensures
            final(self).results@ == old(self).results@ + tracks_to_add(
                crate::model::track_ids(old(self).results@),
                catalog@,
            ),
            !final(self).is_searching,
            final(self).query == old(self).query,
            final(self).selected == old(self).selected,
    {
        append_new_tracks(&mut self.results, catalog);
        self.is_searching = false;
    }

    /// The highlighted result, if the highlight is on a listed one.
    pub fn selected_track(&self) -> (t: Option<&TrackSummary>)
        ensures
            t == if self.selected < self.results@.len() {
                Some(&self.results@[self.selected as int])
            } else {
                None
            },
    {
        if self.selected < self.results.len() {
            Some(&self.results[self.selected])
        } else {
            None
        }
    }
}

/// A cover image fetched from a URL.
#[derive(Debug)]
pub struct CoverEntry {
    pub url: String,
    pub image: CoverImage,
}

/// A short notice shown in the corner, with the time it was shown (in
/// milliseconds of the event loop's clock).
#[derive(Clone, Debug)]
pub struct Toast {
    pub message: String,
    pub shown_at_ms: u64,
}

/// Everything the panes and overlays are drawn from. Times are milliseconds
/// on the event loop's monotonic clock.
#[derive(Debug)]
pub struct AppState {
    pub status: AppStatus,
    pub should_quit: bool,
    pub image_protocol: ImageProtocol,
    pub render_cache: RenderCache,
    pub loaded_user: bool,
    pub loaded_playlists: bool,
    pub loaded_liked: bool,
    /// The explorer waits for a playlist's tracks to be fetched.
    pub explorer_fetch_pending: bool,
    pub user_name: Option<String>,
    pub playlists: Vec<PlaylistSummary>,
    pub liked_tracks: Vec<TrackSummary>,
    pub explorer_items: Vec<TrackSummary>,
    /// Fetched covers, one per URL.
    pub cover_cache: Vec<CoverEntry>,
    /// URLs whose cover is being fetched, each once.
    pub cover_fetching: Vec<String>,
    pub navigation: NavigationState,
    pub explorer_stack: Vec<ExplorerNode>,
    pub explorer_selected_index: usize,
    pub key_mode: KeyMode,
    pub focus: Focus,
    /// The numeric prefix typed before a motion.
    pub pending_count: Option<usize>,
    pub error_message: Option<String>,
    pub visualizer_phase: usize,
    /// When the cursor last moved.
    pub last_nav_move: Option<u64>,
    pub playback: Option<PlaybackState>,
    pub playing_context_uri: Option<String>,
    pub devices: Vec<Device>,
    pub search: SearchState,
    pub track_menu: TrackMenuState,
    pub profile: ProfileState,
    pub user_profile: Option<UserProfile>,
    /// Recomputed when the library data changes, not every frame.
    pub cached_stats: UserStats,
    /// Every track seen so far (liked and browsed), for search.
    pub all_tracks: Vec<TrackSummary>,
    /// The notice shown bottom-right after an action.
    pub toast: Option<Toast>,
}

/// The mathematical view of the search overlay's state.
pub struct SearchView {
    pub query: Seq<char>,
    pub results: Seq<TrackSummary>,
    pub selected: usize,
    pub is_searching: bool,
}

/// The mathematical view of the track menu's state.
pub struct TrackMenuView {
    pub track: Option<TrackSummary>,
    pub query: Seq<char>,
    pub actions: Seq<TrackAction>,
    pub selected: usize,
    pub picking_playlist: bool,
}

/// The mathematical view of the statistics.
pub struct StatsView {
    pub total_liked: u32,
    pub total_playlists: u32,
    pub owned_playlists: u32,
    pub unique_artists: u32,
    pub unique_albums: u32,
    pub total_duration_ms: u64,
    pub top_artists: Seq<String>,
    pub top_albums: Seq<String>,
}

/// The mathematical view of the application state: the same fields with
/// lists as sequences.
pub struct AppView {
    pub status: AppStatus,
    pub should_quit: bool,
    pub image_protocol: ImageProtocol,
    pub render_cache: RenderCache,
    pub loaded_user: bool,
    pub loaded_playlists: bool,
    pub loaded_liked: bool,
    pub explorer_fetch_pending: bool,
    pub user_name: Option<String>,
    pub playlists: Seq<PlaylistSummary>,
    pub liked_tracks: Seq<TrackSummary>,
    pub explorer_items: Seq<TrackSummary>,
    pub cover_cache: Seq<CoverEntry>,
    pub cover_fetching: Seq<String>,
    pub navigation: NavigationState,
    pub explorer_stack: Seq<ExplorerNode>,
    pub explorer_selected_index: usize,
    pub key_mode: KeyMode,
    pub focus: Focus,
    pub pending_count: Option<usize>,
    pub error_message: Option<String>,
    pub visualizer_phase: usize,
    pub last_nav_move: Option<u64>,
    pub playback: Option<PlaybackState>,
    pub playing_context_uri: Option<String>,
    pub devices: Seq<Device>,
    pub search: SearchView,
    pub track_menu: TrackMenuView,
    pub profile: ProfileState,
    pub user_profile: Option<UserProfile>,
    pub cached_stats: StatsView,
    pub all_tracks: Seq<TrackSummary>,
    pub toast: Option<Toast>,
}

impl View for SearchState {
    type V = SearchView;

    open spec fn view(&self) -> SearchView {
        SearchView {
            query: self.query@,
            results: self.results@,
            selected: self.selected,
            is_searching: self.is_searching,
        }
    }
}

impl View for TrackMenuState {
    type V = TrackMenuView;

    open spec fn view(&self) -> TrackMenuView {
        TrackMenuView {
            track: self.track,
            query: self.query@,
            actions: self.actions@,
            selected: self.selected,
            picking_playlist: self.picking_playlist,
        }
    }
}

impl View for UserStats {
    type V = StatsView;

    open spec fn view(&self) -> StatsView {
        StatsView {
            total_liked: self.total_liked,
            total_playlists: self.total_playlists,
            owned_playlists: self.owned_playlists,
            unique_artists: self.unique_artists,
            unique_albums: self.unique_albums,
            total_duration_ms: self.total_duration_ms,
            top_artists: self.top_artists@,
            top_albums: self.top_albums@,
        }
    }
}

impl View for AppState {
    type V = AppView;

    open spec fn view(&self) -> AppView {
        AppView {
            status: self.status,
            should_quit: self.should_quit,
            image_protocol: self.image_protocol,
            render_cache: self.render_cache,
            loaded_user: self.loaded_user,
            loaded_playlists: self.loaded_playlists,
            loaded_liked: self.loaded_liked,
            explorer_fetch_pending: self.explorer_fetch_pending,
            user_name: self.user_name,
            playlists: self.playlists@,
            liked_tracks: self.liked_tracks@,
            explorer_items: self.explorer_items@,
            cover_cache: self.cover_cache@,
            cover_fetching: self.cover_fetching@,
            navigation: self.navigation,
            explorer_stack: self.explorer_stack@,
            explorer_selected_index: self.explorer_selected_index,
            key_mode: self.key_mode,
            focus: self.focus,
            pending_count: self.pending_count,
            error_message: self.error_message,
            visualizer_phase: self.visualizer_phase,
            last_nav_move: self.last_nav_move,
            playback: self.playback,
            playing_context_uri: self.playing_context_uri,
            devices: self.devices@,
            search: self.search@,
            track_menu: self.track_menu@,
            profile: self.profile,
            user_profile: self.user_profile,
            cached_stats: self.cached_stats@,
            all_tracks: self.all_tracks@,
            toast: self.toast,
        }
    }
}

/// No URL occurs twice in the cover cache or the fetch list.
pub open spec fn cover_urls_unique(cache: Seq<CoverEntry>, fetching: Seq<String>) -> bool {
    &&& forall|i: int, j: int|
        0 <= i < cache.len() && 0 <= j < cache.len() && i != j ==> #[trigger] cache[i].url@
            != #[trigger] cache[j].url@
    &&& forall|i: int, j: int|
        0 <= i < fetching.len() && 0 <= j < fetching.len() && i != j ==> #[trigger] fetching[i]@
            != #[trigger] fetching[j]@
}

impl AppView {
    /// The state's standing assumptions: lists and cursors within the sizes
    /// the cursor arithmetic handles, the liked list countable in 32 bits, a
    /// consistent render cache, and covers keyed by URL.
    pub open spec fn wf(self) -> bool {
        &&& self.playlists.len() < isize::MAX
        &&& self.explorer_items.len() <= isize::MAX
        &&& self.search.results.len() <= isize::MAX
        &&& self.track_menu.actions.len() <= isize::MAX
        &&& self.liked_tracks.len() <= u32::MAX
        &&& self.liked_tracks.len() <= isize::MAX
        &&& self.navigation.selected_index <= isize::MAX
        &&& self.explorer_selected_index <= isize::MAX
        &&& self.search.selected <= isize::MAX
        &&& self.track_menu.selected <= isize::MAX
        &&& self.render_cache.wf()
        &&& cover_urls_unique(self.cover_cache, self.cover_fetching)
    }

    /// The last index the cursor of the focused pane can reach: the liked
    /// songs entry after the playlists in the sidebar, the last track in the
    /// explorer (0 when empty).
    pub open spec fn max_index(self) -> nat {
        match self.focus {
            Focus::Sidebar => self.playlists.len(),
            Focus::Explorer => if self.explorer_items.len() == 0 {
                0
            } else {
                (self.explorer_items.len() - 1) as nat
            },
        }
    }
}

/// The state when the client starts: loading, nothing fetched, the sidebar
/// focused on its first entry, no overlay open, nothing drawn yet.
pub open spec fn fresh_state(s: AppState, image_protocol: ImageProtocol) -> bool {
    &&& s.status == AppStatus::Loading
    &&& !s.should_quit
    &&& s.image_protocol == image_protocol
    &&& !s.loaded_user && !s.loaded_playlists && !s.loaded_liked
    &&& !s.explorer_fetch_pending
    &&& s.user_name is None
    &&& s.playlists@.len() == 0
    &&& s.liked_tracks@.len() == 0
    &&& s.explorer_items@.len() == 0
    &&& s.cover_cache@.len() == 0
    &&& s.cover_fetching@.len() == 0
    &&& s.navigation.selected_index == 0
    &&& s.explorer_stack@.len() == 0
    &&& s.explorer_selected_index == 0
    &&& s.key_mode == KeyMode::Normal
    &&& s.focus == Focus::Sidebar
    &&& s.pending_count is None
    &&& s.error_message is None
    &&& s.visualizer_phase == 0
    &&& s.last_nav_move is None
    &&& s.playback is None
    &&& s.playing_context_uri is None
    &&& s.devices@.len() == 0
    &&& s.search.query@.len() == 0 && s.search.results@.len() == 0 && s.search.selected == 0 && !s.search.is_searching
    &&& s.track_menu.track is None && s.track_menu.query@.len() == 0 && s.track_menu.actions@.len() == 0 && s.track_menu.selected == 0 && !s.track_menu.picking_playlist
    &&& s.profile.section == crate::profile::ProfileSection::Profile && !s.profile.logout_sel
    &&& s.user_profile is None
    &&& s.cached_stats.total_liked == 0 && s.cached_stats.total_playlists == 0 && s.cached_stats.owned_playlists == 0
    &&& s.cached_stats.unique_artists == 0 && s.cached_stats.unique_albums == 0 && s.cached_stats.total_duration_ms == 0
    &&& s.cached_stats.top_artists@.len() == 0 && s.cached_stats.top_albums@.len() == 0
    &&& s.all_tracks@.len() == 0
    &&& s.toast is None
    &&& s.render_cache.frame == 0 && s.render_cache.pending@.len() == 0
    &&& s.render_cache.uploaded@ == Set::<u32>::empty()
    &&& forall|kid: u32, area: crate::cover::CellArea| s.render_cache.placed_at(kid, area) is None
}

impl AppState {
    /// The state when the client starts: loading, nothing fetched, the
    /// sidebar focused on its first entry, no overlay open.
    pub fn initial(image_protocol: ImageProtocol) -> (s: AppState)
        ensures
            s@.wf(),
            fresh_state(s, image_protocol),
    {
        AppState {
            status: AppStatus::Loading,
            should_quit: false,
            image_protocol,
            render_cache: RenderCache::new(),
            loaded_user: false,
            loaded_playlists: false,
            loaded_liked: false,
            explorer_fetch_pending: false,
            user_name: None,
            playlists: Vec::new(),
            liked_tracks: Vec::new(),
            explorer_items: Vec::new(),
            cover_cache: Vec::new(),
            cover_fetching: Vec::new(),
            navigation: NavigationState { selected_index: 0 },
            explorer_stack: Vec::new(),
            explorer_selected_index: 0,
            key_mode: KeyMode::Normal,
            focus: Focus::Sidebar,
            pending_count: None,
            error_message: None,
            visualizer_phase: 0,
            last_nav_move: None,
            playback: None,
            playing_context_uri: None,
            devices: Vec::new(),
            search: SearchState::default(),
            track_menu: TrackMenuState::default(),
            profile: ProfileState::default(),
            user_profile: None,
            cached_stats: UserStats::default(),
            all_tracks: Vec::new(),
            toast: None,
        }
    }
}

} // verus!

verus! {

/// How long the cursor must rest before the large cover is drawn.
pub const SCROLL_SETTLE_MS: u64 = 120;

/// How long a notice stays on screen.
pub const TOAST_TTL_MS: u64 = 3000;

/// Milliseconds from `then` to `now`, zero if `now` is earlier.
pub open spec fn elapsed_ms(then: u64, now: u64) -> nat {
    if now >= then { (now - then) as nat } else { 0 }
}

/// The tracks of `tracks` that merging adds to a list whose ids are `ids`:
/// in order, each track with a non-empty id that is neither among `ids` nor
/// the id of a track added before it.
pub open spec fn tracks_to_add(ids: Seq<Seq<char>>, tracks: Seq<TrackSummary>) -> Seq<TrackSummary>
    decreases tracks.len(),
{
    if tracks.len() == 0 {
        Seq::empty()
    } else {
        let rest = tracks_to_add(ids, tracks.drop_last());
        let t = tracks.last();
        if t.id@.len() > 0 && !ids.contains(t.id@) && !crate::model::track_ids(rest).contains(t.id@) {
            rest.push(t)
        } else {
            rest
        }
    }
}

/// Index `i` is the first active device.
pub open spec fn is_first_active(devices: Seq<Device>, i: int) -> bool {
    &&& 0 <= i < devices.len()
    &&& devices[i].is_active
    &&& forall|k: int| 0 <= k < i ==> !(#[trigger] devices[k]).is_active
}

/// The device to play on: the one the player reports, else the first active
/// device, else the first device.
pub open spec fn best_device(playback: Option<PlaybackState>, devices: Seq<Device>) -> Option<Seq<char>> {
    if playback matches Some(p) && p.device_id is Some {
        Some(playback->0.device_id->0@)
    } else if exists|i: int| is_first_active(devices, i) {
        Some(devices[choose|i: int| is_first_active(devices, i)].id@)
    } else if devices.len() > 0 {
        Some(devices[0].id@)
    } else {
        None
    }
}

/// The id of the first active device of a fresh device listing, if any
/// device is active.
pub fn first_active_id(devices: &Vec<Device>) -> (r: Option<String>)
    ensures
        r is Some <==> exists|i: int| is_first_active(devices@, i),
        r matches Some(id) ==> id@ == devices@[choose|i: int| is_first_active(devices@, i)].id@,
{
    let mut i: usize = 0;
    while i < devices.len()
        invariant
            i <= devices.len(),
            forall|k: int| 0 <= k < i ==> !(#[trigger] devices@[k]).is_active,
        decreases devices.len() - i,
    {
        if devices[i].is_active {
            proof {
                assert(is_first_active(devices@, i as int));
                let c = choose|j: int| is_first_active(devices@, j);
                assert(c == i as int) by {
                    if c < i {
                    } else if c > i {
                        assert(!devices@[i as int].is_active);
                    }
                }
            }
            return Some(devices[i].id.clone());
        }
        i = i + 1;
    }
    assert(!exists|j: int| is_first_active(devices@, j)) by {
        if exists|j: int| is_first_active(devices@, j) {
            let j = choose|j: int| is_first_active(devices@, j);
            assert(!devices@[j].is_active);
        }
    }
    None
}

impl AppState {
    /// Whether the cursor has rested long enough (or never moved) for the
    /// large cover to be drawn.
    pub fn scroll_settled(&self, now_ms: u64) -> (r: bool)
        ensures
            r == match self.last_nav_move {
                Some(t) => elapsed_ms(t, now_ms) >= SCROLL_SETTLE_MS,
                None => true,
            },
    {
        match self.last_nav_move {
            Some(t) => now_ms.saturating_sub(t) >= SCROLL_SETTLE_MS,
            None => true,
        }
    }

    /// Whether the player reports the track with id `track_id`.
    pub fn is_playing_track(&self, track_id: &str) -> (r: bool)
        ensures
            r == (self.playback matches Some(p) && p.track_id@ == track_id@),
    {
        match &self.playback {
            Some(p) => text_eq(p.track_id.as_str(), track_id),
            None => false,
        }
    }

    /// The id of the device to play on.
    pub fn best_device_id(&self) -> (r: Option<String>)
        ensures
            crate::api::text_of(r) == best_device(self.playback, self.devices@),
    {
        if let Some(p) = &self.playback {
            if let Some(id) = &p.device_id {
                return Some(id.clone());
            }
        }
        let mut i: usize = 0;
        while i < self.devices.len()
            invariant
                i <= self.devices.len(),
                !(self.playback matches Some(p) && p.device_id is Some),
                forall|k: int| 0 <= k < i ==> !(#[trigger] self.devices@[k]).is_active,
            decreases self.devices.len() - i,
        {
            if self.devices[i].is_active {
                proof {
                    assert(is_first_active(self.devices@, i as int));
                    let c = choose|j: int| is_first_active(self.devices@, j);
                    assert(c == i as int) by {
                        if c < i {
                        } else if c > i {
                            assert(!self.devices@[i as int].is_active);
                        }
                    }
                }
                return Some(self.devices[i].id.clone());
            }
            i = i + 1;
        }
        assert(!exists|j: int| is_first_active(self.devices@, j)) by {
            if exists|j: int| is_first_active(self.devices@, j) {
                let j = choose|j: int| is_first_active(self.devices@, j);
                assert(!self.devices@[j].is_active);
            }
        }
        if self.devices.len() > 0 {
            Some(self.devices[0].id.clone())
        } else {
            None
        }
    }

    /// Adds the given tracks to the search index, deduplicating by id: every
    /// track with a non-empty id that the index does not hold yet is
    /// appended, in order, so that a listing that repeats an id adds it once.
    pub fn merge_tracks(&mut self, tracks: &Vec<TrackSummary>)
        ensures
            final(self)@ == (AppView { all_tracks: final(self)@.all_tracks, ..old(self)@ }),
            final(self).all_tracks@ == old(self).all_tracks@ + tracks_to_add(
                crate::model::track_ids(old(self).all_tracks@),
                tracks@,
            ),
    {
        append_new_tracks(&mut self.all_tracks, tracks);
    }

    /// Shows `message` as a notice from `now_ms` on.
    pub fn show_toast(&mut self, message: String, now_ms: u64)
        ensures
            final(self)@ == (AppView { toast: Some(Toast { message, shown_at_ms: now_ms }), ..old(self)@ }),
    {
        self.toast = Some(Toast { message, shown_at_ms: now_ms });
    }

    /// The notice to show at `now_ms`: the last one, until it is three
    /// seconds old.
    pub fn active_toast(&self, now_ms: u64) -> (r: Option<&str>)
        ensures
            r is Some == (self.toast matches Some(t) && elapsed_ms(t.shown_at_ms, now_ms) < TOAST_TTL_MS),
            r matches Some(m) ==> m@ == self.toast->0.message@,
    {
        match &self.toast {
            Some(t) => if now_ms.saturating_sub(t.shown_at_ms) < TOAST_TTL_MS {
                Some(t.message.as_str())
            } else {
                None
            },
            None => None,
        }
    }
}

} // verus!
