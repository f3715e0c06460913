//! The event loop's own decisions between events: the playback clock, which
//! covers to fetch for what is on screen, and when to fetch the explorer's
//! listing.

use vstd::prelude::*;
use crate::control::is_playing;
use crate::cover::CellArea;
use crate::model::{PlaybackState, PlaylistSummary, TrackSummary, texts};
use crate::reducer::AppEvent;
use crate::state::{AppState, AppView, CoverEntry, ExplorerNode, nodes_equal, same_node};
use crate::text::text_eq;

verus! {

// ── The playback clock ──────────────────────────────────────────────────────

/// How far the playback clock advances per tick, in milliseconds.
pub const TICK_MS: u32 = 33;

/// The visualiser's phase wraps at this count.
pub const PHASE_PERIOD: usize = 100000;

/// A tick: while playing, the visualiser steps on (wrapping) and the
/// playback position advances by a tick, up to the track's end.
pub open spec fn ticked(v: AppView) -> AppView {
    if is_playing(v) {
        let p = v.playback->0;
        let pos: int = if p.progress_ms + TICK_MS <= p.duration_ms { p.progress_ms + TICK_MS } else { p.duration_ms as int };
        AppView {
            visualizer_phase: ((v.visualizer_phase + 1) % (PHASE_PERIOD as int)) as usize,
            playback: Some(PlaybackState { progress_ms: pos as u32, ..p }),
            ..v
        }
    } else {
        v
    }
}

/// What a tick demands: counters that do not overflow.
pub open spec fn tick_fits(v: AppView) -> bool {
    is_playing(v) ==> v.visualizer_phase < usize::MAX && v.playback->0.progress_ms + TICK_MS <= u32::MAX
}

/// Advances the playback clock by one tick.
pub fn tick(state: &mut AppState)
    requires
        tick_fits(old(state)@),
    ensures
        final(state)@ == ticked(old(state)@),
{
    let playing = match &state.playback {
        Some(p) => p.is_playing,
        None => false,
    };
    if playing {
        state.visualizer_phase = (state.visualizer_phase + 1) % PHASE_PERIOD;
        match &mut state.playback {
            Some(p) => {
                let ahead = p.progress_ms + TICK_MS;
                p.progress_ms = if ahead <= p.duration_ms { ahead } else { p.duration_ms };
            },
            None => {},
        }
    }
}

// ── Covers on screen ────────────────────────────────────────────────────────

/// `a - b`, or 0 when `b` is larger.
pub open spec fn sat_sub(a: int, b: int) -> int {
    if a >= b { a - b } else { 0 }
}

/// The entries of `s` from `start` on, at most `count` of them.
pub open spec fn window<A>(s: Seq<A>, start: int, count: int) -> Seq<A> {
    let lo = if start < s.len() { start } else { s.len() as int };
    let hi = if lo + count < s.len() { lo + count } else { s.len() as int };
    s.subrange(lo, hi)
}

/// The cover URLs of a run of tracks, in order, skipping tracks without one.
pub open spec fn track_cover_urls(tracks: Seq<TrackSummary>) -> Seq<Seq<char>>
    decreases tracks.len(),
{
    if tracks.len() == 0 {
        Seq::empty()
    } else {
        let rest = track_cover_urls(tracks.drop_last());
        match tracks.last().album_image_url {
            Some(u) => rest.push(u@),
            None => rest,
        }
    }
}

/// The cover URLs of a run of playlists, in order, skipping those without
/// one.
pub open spec fn playlist_cover_urls(pls: Seq<PlaylistSummary>) -> Seq<Seq<char>>
    decreases pls.len(),
{
    if pls.len() == 0 {
        Seq::empty()
    } else {
        let rest = playlist_cover_urls(pls.drop_last());
        match pls.last().image_url {
            Some(u) => rest.push(u@),
            None => rest,
        }
    }
}

/// Height of a track row in the explorer, in cells.
pub const ROW_COVER_H: u16 = 3;

/// The covers the explorer shows in a pane `height` cells tall: those of the
/// rows in view and two more, the selected track's first (it also fills the
/// detail panel).
pub open spec fn explorer_cover_urls(v: AppView, height: u16) -> Seq<Seq<char>> {
    let items = v.explorer_items;
    if items.len() == 0 {
        Seq::empty()
    } else {
        let vis = sat_sub(sat_sub(height as int, 2), 1) / (ROW_COVER_H as int);
        let sel = v.explorer_selected_index as int;
        let scroll = sat_sub(sel, sat_sub(vis, 1));
        let urls = track_cover_urls(window(items, scroll, vis + 2));
        if sel < items.len() && items[sel].album_image_url is Some {
            seq![items[sel].album_image_url->0@] + without(urls, items[sel].album_image_url->0@)
        } else {
            urls
        }
    }
}

/// The entries of `s` other than `x`, in order.
pub open spec fn without(s: Seq<Seq<char>>, x: Seq<char>) -> Seq<Seq<char>>
    decreases s.len(),
{
    if s.len() == 0 {
        s
    } else {
        let rest = without(s.drop_last(), x);
        if s.last() == x {
            rest
        } else {
            rest.push(s.last())
        }
    }
}

/// The covers of the playlists the sidebar shows in a pane `height` cells
/// tall, and two more.
pub open spec fn sidebar_cover_urls(v: AppView, height: u16) -> Seq<Seq<char>> {
    let vis = sat_sub(height as int, 8) / 4;
    let scroll = sat_sub(v.navigation.selected_index as int, sat_sub(vis, 1));
    playlist_cover_urls(window(v.playlists, scroll, vis + 2))
}

/// `base` followed by the entries of `more` it does not hold yet.
pub open spec fn with_new(base: Seq<Seq<char>>, more: Seq<Seq<char>>) -> Seq<Seq<char>>
    decreases more.len(),
{
    if more.len() == 0 {
        base
    } else {
        let rest = with_new(base, more.drop_last());
        if rest.contains(more.last()) {
            rest
        } else {
            rest.push(more.last())
        }
    }
}

/// Every cover on screen: the player's first (unless listed), then the
/// explorer's, then the sidebar's not listed yet.
pub open spec fn cover_candidates(v: AppView, main: CellArea, sidebar: CellArea) -> Seq<Seq<char>> {
    let all = with_new(explorer_cover_urls(v, main.height), sidebar_cover_urls(v, sidebar.height));
    if v.playback matches Some(p) && p.album_image_url is Some && !all.contains(
        p.album_image_url->0@,
    ) {
        seq![v.playback->0.album_image_url->0@] + all
    } else {
        all
    }
}

/// The candidates to fetch, in order: each one neither `blocked` nor already
/// chosen.
pub open spec fn newly_fetched(blocked: Seq<Seq<char>>, cands: Seq<Seq<char>>) -> Seq<Seq<char>>
    decreases cands.len(),
{
    if cands.len() == 0 {
        Seq::empty()
    } else {
        let rest = newly_fetched(blocked, cands.drop_last());
        let u = cands.last();
        if blocked.contains(u) || rest.contains(u) {
            rest
        } else {
            rest.push(u)
        }
    }
}

/// The URLs the cover cache holds.
pub open spec fn cached_urls(cache: Seq<CoverEntry>) -> Seq<Seq<char>> {
    cache.map_values(|e: CoverEntry| e.url@)
}

/// The covers to start fetching: those on screen that are neither cached nor
/// being fetched.
pub open spec fn covers_due(v: AppView, main: CellArea, sidebar: CellArea) -> Seq<Seq<char>> {
    newly_fetched(cached_urls(v.cover_cache) + texts(v.cover_fetching), cover_candidates(v, main, sidebar))
}

pub(crate) proof fn lemma_contains_concat(a: Seq<Seq<char>>, b: Seq<Seq<char>>, u: Seq<char>)
    ensures
        (a + b).contains(u) <==> (a.contains(u) || b.contains(u)),
{
    if (a + b).contains(u) {
        let k = choose|k: int| 0 <= k < (a + b).len() && (a + b)[k] == u;
        if k < a.len() {
            assert(a[k] == u);
        } else {
            assert(b[k - a.len()] == u);
        }
    }
    if a.contains(u) {
        let k = choose|k: int| 0 <= k < a.len() && a[k] == u;
        assert((a + b)[k] == u);
    }
    if b.contains(u) {
        let k = choose|k: int| 0 <= k < b.len() && b[k] == u;
        assert((a + b)[a.len() + k] == u);
    }
}

proof fn lemma_newly_fetched_fresh(blocked: Seq<Seq<char>>, cands: Seq<Seq<char>>)
    ensures
        forall|i: int| 0 <= i < newly_fetched(blocked, cands).len() ==> !blocked.contains(
            #[trigger] newly_fetched(blocked, cands)[i],
        ),
        forall|i: int, j: int|
            0 <= i < newly_fetched(blocked, cands).len() && 0 <= j < newly_fetched(blocked, cands).len() && i != j
                ==> #[trigger] newly_fetched(blocked, cands)[i] != #[trigger] newly_fetched(blocked, cands)[j],
    decreases cands.len(),
{
    if cands.len() > 0 {
        lemma_newly_fetched_fresh(blocked, cands.drop_last());
        let rest = newly_fetched(blocked, cands.drop_last());
        let out = newly_fetched(blocked, cands);
        let u = cands.last();
        if !(blocked.contains(u) || rest.contains(u)) {
            assert forall|i: int| 0 <= i < out.len() implies !blocked.contains(#[trigger] out[i]) by {
                if i < rest.len() {
                    assert(out[i] == rest[i]);
                }
            }
            assert forall|i: int, j: int| 0 <= i < out.len() && 0 <= j < out.len() && i != j implies #[trigger] out[i]
                != #[trigger] out[j] by {
                if i < rest.len() && j < rest.len() {
                    assert(out[i] == rest[i]);
                    assert(out[j] == rest[j]);
                } else if i < rest.len() {
                    assert(out[i] == rest[i]);
                } else if j < rest.len() {
                    assert(out[j] == rest[j]);
                }
            }
        }
    }
}

fn list_has(list: &Vec<String>, u: &str) -> (r: bool)
    ensures
        r == texts(list@).contains(u@),
{
    let mut i: usize = 0;
    while i < list.len()
        invariant
            i <= list.len(),
            forall|k: int| 0 <= k < i ==> list@[k]@ != u@,
        decreases list.len() - i,
    {
        if text_eq(list[i].as_str(), u) {
            assert(texts(list@)[i as int] == u@);
            return true;
        }
        i = i + 1;
    }
    proof {
        if texts(list@).contains(u@) {
            let k = choose|k: int| 0 <= k < texts(list@).len() && texts(list@)[k] == u@;
            assert(list@[k]@ == u@);
        }
    }
    false
}

pub(crate) fn cache_has(cache: &Vec<CoverEntry>, u: &str) -> (r: bool)
    ensures
        r == cached_urls(cache@).contains(u@),
{
    let mut i: usize = 0;
    while i < cache.len()
        invariant
            i <= cache.len(),
            forall|k: int| 0 <= k < i ==> cache@[k].url@ != u@,
        decreases cache.len() - i,
    {
        if text_eq(cache[i].url.as_str(), u) {
            assert(cached_urls(cache@)[i as int] == u@);
            return true;
        }
        i = i + 1;
    }
    proof {
        if cached_urls(cache@).contains(u@) {
            let k = choose|k: int| 0 <= k < cached_urls(cache@).len() && cached_urls(cache@)[k] == u@;
            assert(cache@[k].url@ == u@);
        }
    }
    false
}

fn push_text(list: &mut Vec<String>, u: &String)
    ensures
        final(list)@ == old(list)@.push(*u),
        texts(final(list)@) == texts(old(list)@).push(u@),
{
    list.push(u.clone());
    assert(texts(list@) =~= texts(old(list)@).push(u@));
}

/// The covers the explorer shows in `area`: those of the rows in view and
/// two more, the selected track's first.
pub fn visible_cover_urls(state: &AppState, area: CellArea) -> (urls: Vec<String>)
    ensures
        texts(urls@) == explorer_cover_urls(state@, area.height),
{
    let items = &state.explorer_items;
    if items.len() == 0 {
        return Vec::new();
    }
    let inner_h = area.height.saturating_sub(2);
    let vis = (inner_h.saturating_sub(1) / ROW_COVER_H) as usize;
    let sel = state.explorer_selected_index;
    let scroll = sel.saturating_sub(vis.saturating_sub(1));
    let n = items.len();
    let lo = if scroll < n { scroll } else { n };
    let hi = if n - lo > vis + 2 { lo + vis + 2 } else { n };
    let ghost win = window(items@, scroll as int, vis + 2);
    assert(win =~= items@.subrange(lo as int, hi as int));
    let mut urls: Vec<String> = Vec::new();
    let mut i = lo;
    while i < hi
        invariant
            lo <= i <= hi <= n,
            n == items.len(),
            texts(urls@) == track_cover_urls(items@.subrange(lo as int, i as int)),
        decreases hi - i,
    {
        assert(items@.subrange(lo as int, i + 1).drop_last() =~= items@.subrange(lo as int, i as int));
        match &items[i].album_image_url {
            Some(u) => push_text(&mut urls, u),
            None => {},
        }
        i = i + 1;
    }
    if sel < n {
        match &items[sel].album_image_url {
            Some(u) => {
                let mut out: Vec<String> = Vec::new();
                push_text(&mut out, u);
                let mut j: usize = 0;
                while j < urls.len()
                    invariant
                        j <= urls.len(),
                        texts(out@) == seq![u@] + without(texts(urls@).take(j as int), u@),
                    decreases urls.len() - j,
                {
                    assert(texts(urls@).take(j + 1).drop_last() =~= texts(urls@).take(j as int));
                    assert(texts(urls@).take(j + 1).last() == urls@[j as int]@);
                    if !text_eq(urls[j].as_str(), u.as_str()) {
                        push_text(&mut out, &urls[j]);
                    }
                    j = j + 1;
                }
                assert(texts(urls@).take(j as int) =~= texts(urls@));
                return out;
            },
            None => {},
        }
    }
    urls
}

fn sidebar_urls(state: &AppState, height: u16) -> (urls: Vec<String>)
    ensures
        texts(urls@) == sidebar_cover_urls(state@, height),
{
    let pls = &state.playlists;
    let vis = (height.saturating_sub(8) / 4) as usize;
    let sel = state.navigation.selected_index;
    let scroll = sel.saturating_sub(vis.saturating_sub(1));
    let n = pls.len();
    let lo = if scroll < n { scroll } else { n };
    let hi = if n - lo > vis + 2 { lo + vis + 2 } else { n };
    assert(window(pls@, scroll as int, vis + 2) =~= pls@.subrange(lo as int, hi as int));
    let mut urls: Vec<String> = Vec::new();
    let mut i = lo;
    while i < hi
        invariant
            lo <= i <= hi <= n,
            n == pls.len(),
            texts(urls@) == playlist_cover_urls(pls@.subrange(lo as int, i as int)),
        decreases hi - i,
    {
        assert(pls@.subrange(lo as int, i + 1).drop_last() =~= pls@.subrange(lo as int, i as int));
        match &pls[i].image_url {
            Some(u) => push_text(&mut urls, u),
            None => {},
        }
        i = i + 1;
    }
    urls
}

fn candidates(state: &AppState, main: CellArea, sidebar: CellArea) -> (all: Vec<String>)
    ensures
        texts(all@) == cover_candidates(state@, main, sidebar),
{
    let mut all = visible_cover_urls(state, main);
    let side = sidebar_urls(state, sidebar.height);
    let ghost base = texts(all@);
    let mut i: usize = 0;
    while i < side.len()
        invariant
            i <= side.len(),
            texts(all@) == with_new(base, texts(side@).take(i as int)),
        decreases side.len() - i,
    {
        assert(texts(side@).take(i + 1).drop_last() =~= texts(side@).take(i as int));
        if !list_has(&all, side[i].as_str()) {
            push_text(&mut all, &side[i]);
        }
        i = i + 1;
    }
    assert(texts(side@).take(i as int) =~= texts(side@));
    match &state.playback {
        Some(p) => match &p.album_image_url {
            Some(u) => {
                if !list_has(&all, u.as_str()) {
                    let ghost before = all@;
                    all.insert(0, u.clone());
                    assert(texts(all@) =~= seq![u@] + texts(before));
                }
            },
            None => {},
        },
        None => {},
    }
    all
}

/// Picks the covers on screen to start fetching, those neither cached nor
/// being fetched, and marks them as being fetched.
pub fn covers_to_fetch(state: &mut AppState, main: CellArea, sidebar: CellArea) -> (due: Vec<String>)
    requires
        old(state)@.wf(),
    ensures
        texts(due@) == covers_due(old(state)@, main, sidebar),
        final(state)@ == (AppView { cover_fetching: old(state)@.cover_fetching + due@, ..old(state)@ }),
        final(state)@.wf(),
{
    let all = candidates(state, main, sidebar);
    let ghost blocked = cached_urls(state.cover_cache@) + texts(state.cover_fetching@);
    let ghost fetching0 = state.cover_fetching@;
    let mut due: Vec<String> = Vec::new();
    let mut i: usize = 0;
    while i < all.len()
        invariant
            i <= all.len(),
            state@ == (AppView { cover_fetching: fetching0 + due@, ..old(state)@ }),
            blocked == cached_urls(state.cover_cache@) + texts(fetching0),
            texts(due@) == newly_fetched(blocked, texts(all@).take(i as int)),
        decreases all.len() - i,
    {
        let u = &all[i];
        assert(texts(all@).take(i + 1).drop_last() =~= texts(all@).take(i as int));
        assert(texts(all@).take(i + 1).last() == u@);
        assert(texts(state.cover_fetching@) =~= texts(fetching0) + texts(due@));
        proof {
            lemma_contains_concat(cached_urls(state.cover_cache@), texts(fetching0), u@);
            lemma_contains_concat(texts(fetching0), texts(due@), u@);
        }
        if !cache_has(&state.cover_cache, u.as_str()) && !list_has(&state.cover_fetching, u.as_str()) {
            push_text(&mut state.cover_fetching, u);
            push_text(&mut due, u);
            assert(fetching0 + due@ =~= state.cover_fetching@);
        }
        i = i + 1;
    }
    assert(texts(all@).take(i as int) =~= texts(all@));
    proof {
        lemma_newly_fetched_fresh(blocked, texts(all@));
        let f = state.cover_fetching@;
        assert forall|a: int, b: int| 0 <= a < f.len() && 0 <= b < f.len() && a != b implies #[trigger] f[a]@
            != #[trigger] f[b]@ by {
            let n0 = fetching0.len() as int;
            if a < n0 && b < n0 {
                assert(f[a] == fetching0[a]);
                assert(f[b] == fetching0[b]);
            } else if a < n0 {
                assert(f[a] == fetching0[a]);
                assert(f[b] == due@[b - n0]);
                assert(texts(due@)[b - n0] == f[b]@);
                assert(texts(fetching0)[a] == f[a]@);
                lemma_contains_concat(cached_urls(state.cover_cache@), texts(fetching0), f[a]@);
            } else if b < n0 {
                assert(f[b] == fetching0[b]);
                assert(f[a] == due@[a - n0]);
                assert(texts(due@)[a - n0] == f[a]@);
                assert(texts(fetching0)[b] == f[b]@);
                lemma_contains_concat(cached_urls(state.cover_cache@), texts(fetching0), f[b]@);
            } else {
                assert(f[a] == due@[a - n0]);
                assert(f[b] == due@[b - n0]);
                assert(texts(due@)[a - n0] == f[a]@);
                assert(texts(due@)[b - n0] == f[b]@);
            }
        }
    }
    due
}

// ── The explorer's listing ──────────────────────────────────────────────────

/// How long the search query must stay unchanged before the catalog is
/// asked.
pub const SEARCH_DEBOUNCE_MS: u64 = 400;

/// How many results a catalog search asks for.
pub const SEARCH_RESULTS: u32 = 30;

/// When to ask the catalog for the search query: the query last seen, when
/// it was last changed, and whether it was already sent.
pub struct SearchDebouncer {
    pub last_query: String,
    pub changed_at_ms: u64,
    pub sent: bool,
}

impl SearchDebouncer {
    /// No query seen yet.
    pub fn new() -> (d: SearchDebouncer)
        ensures
            d.last_query@.len() == 0,
            d.changed_at_ms == 0,
            !d.sent,
    {
        SearchDebouncer { last_query: String::new(), changed_at_ms: 0, sent: false }
    }

    /// Called once per loop turn at `now_ms`: outside the search overlay the
    /// last query is forgotten; a changed query restarts the wait; a
    /// non-empty query still awaiting catalog results that has rested for
    /// `SEARCH_DEBOUNCE_MS` is returned to be sent, once.
    pub fn poll(&mut self, searching_overlay: bool, query: &str, awaiting: bool, now_ms: u64) -> (send: Option<String>)
        ensures
            !searching_overlay ==> send is None && final(self).last_query@.len() == 0
                && final(self).changed_at_ms == old(self).changed_at_ms && final(self).sent == old(self).sent,
            searching_overlay && query@ != old(self).last_query@ ==> send is None && final(self).last_query@ == query@
                && final(self).changed_at_ms == now_ms && !final(self).sent,
            searching_overlay && query@ == old(self).last_query@ ==> {
                let due = query@.len() > 0 && awaiting && !old(self).sent && now_ms >= old(self).changed_at_ms
                    && now_ms - old(self).changed_at_ms >= SEARCH_DEBOUNCE_MS;
                &&& final(self).last_query@ == old(self).last_query@
                &&& final(self).changed_at_ms == old(self).changed_at_ms
                &&& final(self).sent == (old(self).sent || due)
                &&& if due { send matches Some(q) && q@ == query@ } else { send is None }
            },
    {
        if !searching_overlay {
            self.last_query = String::new();
            return None;
        }
        if !text_eq(query, self.last_query.as_str()) {
            self.last_query = query.to_string();
            self.changed_at_ms = now_ms;
            self.sent = false;
            return None;
        }
        if !query.is_empty() && awaiting && !self.sent && now_ms >= self.changed_at_ms
            && now_ms - self.changed_at_ms >= SEARCH_DEBOUNCE_MS {
            self.sent = true;
            return Some(query.to_string());
        }
        None
    }
}

/// When to fetch the explorer's listing: the listing last fetched (or
/// shown without fetching), and whether a fetch is still running.
pub struct ExplorerFetcher {
    pub last: Option<ExplorerNode>,
    pub in_progress: bool,
}

/// Whether a listing must be fetched: the explorer shows a listing other
/// than the last one, and the liked songs (which need no fetch) do not count
/// as a change from nothing.
pub open spec fn listing_changed(current: Option<ExplorerNode>, last: Option<ExplorerNode>) -> bool {
    match (current, last) {
        (None, _) => false,
        (Some(c), None) => c is PlaylistTracks,
        (Some(c), Some(p)) => !same_node(c, p),
    }
}

impl ExplorerFetcher {
    /// Nothing fetched yet, nothing running.
    pub fn new() -> (f: ExplorerFetcher)
        ensures
            f.last is None,
            !f.in_progress,
    {
        ExplorerFetcher { last: None, in_progress: false }
    }

    /// Takes note of an event: a listing or a load error ends the running
    /// fetch.
    pub fn observe(&mut self, event: &AppEvent)
        ensures
            final(self).last == old(self).last,
            final(self).in_progress == (old(self).in_progress && !(event is ExplorerTracksLoaded || event is LoadError)),
    {
        match event {
            AppEvent::ExplorerTracksLoaded(_) | AppEvent::LoadError(_) => {
                self.in_progress = false;
            },
            _ => {},
        }
    }

    /// Decides whether to fetch the listing the explorer shows (`current`);
    /// `pending` says the reducer emptied the listing for a fetch. Returns
    /// the id of the playlist to fetch; the fetch is then running until its
    /// result is observed.
    pub fn next_fetch(&mut self, current: Option<&ExplorerNode>, pending: bool) -> (id: Option<String>)
        ensures
            ({
                let last = if pending && !old(self).in_progress { None } else { old(self).last };
                let cur = match current {
                    Some(n) => Some(*n),
                    None => None,
                };
                if old(self).in_progress || !listing_changed(cur, last) {
                    &&& id is None
                    &&& final(self).in_progress == old(self).in_progress
                    &&& final(self).last == last
                } else {
                    &&& final(self).last == cur
                    &&& match cur {
                        Some(ExplorerNode::PlaylistTracks(pid, _, _)) => crate::api::text_of(id) == Some(pid@) && final(self).in_progress,
                        _ => id is None && !final(self).in_progress,
                    }
                }
            }),
    {
        if pending && !self.in_progress {
            self.last = None;
        }
        if self.in_progress {
            return None;
        }
        let should = match (current, &self.last) {
            (None, _) => false,
            (Some(c), None) => match c {
                ExplorerNode::PlaylistTracks(_, _, _) => true,
                ExplorerNode::LikedTracks => false,
            },
            (Some(c), Some(p)) => !nodes_equal(c, p),
        };
        if !should {
            return None;
        }
        self.last = match current {
            Some(c) => Some(c.clone()),
            None => None,
        };
        self.in_progress = true;
        match current {
            Some(ExplorerNode::PlaylistTracks(pid, _, _)) => Some(pid.clone()),
            _ => {
                self.in_progress = false;
                None
            },
        }
    }
}

} // verus!
