//! Reading the keyboard: what each key does in each key-reading mode, as the
//! change it makes at once and the work it hands to the event loop.

use vstd::prelude::*;
use crate::api::{playlist_context_uri, text_of, track_uri};
use crate::model::TrackSummary;
use crate::profile::{ProfileSection, ProfileState};
use crate::reducer::AppEvent;
use crate::state::{AppState, AppView, ExplorerNode, Focus, KeyMode, best_device};
use crate::trackmenu::TrackAction;
use crate::text::text_eq;

verus! {

/// A key as the event loop reads it.
#[derive(Clone, Copy, PartialEq, Eq, Debug, Structural)]
pub enum Key {
    Char(char),
    Up,
    Down,
    Left,
    Right,
    Enter,
    Esc,
    Backspace,
    Tab,
    BackTab,
    Other,
}

/// Work a key hands to the event loop, in order.
#[derive(Debug)]
pub enum Command {
    /// Feed the event to the reducer.
    Emit(AppEvent),
    /// Start playing `track_uri` within `context_uri` on `device_id` (when
    /// no device is known, on the first active one the player lists), then
    /// refresh the playback state.
    StartPlayback { track_uri: String, context_uri: Option<String>, device_id: Option<String> },
    /// Ask the player to pause (`pause`) or to resume, then refresh the
    /// playback state.
    PauseOrResume { pause: bool },
    /// Skip to the next track (`forward`) or back to the previous one.
    Skip { forward: bool },
    /// Fetch the user's profile.
    FetchProfile,
    /// Add the track to the player's queue and report it by name.
    Enqueue { track_id: String, name: String },
    /// Save the track to the liked songs, or remove it when it is there
    /// (`liked`), and report it by name.
    ToggleLike { track_id: String, name: String, liked: bool },
    /// Add the track (`track_uri`) to the playlist `playlist_id` and report
    /// it by the playlist's name.
    AddToPlaylist { playlist_id: String, playlist_name: String, track_uri: String },
}

/// A decimal digit.
pub open spec fn is_digit(c: char) -> bool {
    '0' <= c && c <= '9'
}

/// The value of a decimal digit.
pub open spec fn digit_of(c: char) -> int {
    c as int - '0' as int
}

/// The key extends the numeric prefix: a digit typed in normal mode.
pub open spec fn counts_digit(v: AppView, k: Key) -> bool {
    v.key_mode == KeyMode::Normal && (k matches Key::Char(c) && is_digit(c))
}

/// The numeric prefix once the digit `k` is appended to it.
pub open spec fn prefix_with(v: AppView, k: Key) -> int {
    let before: int = match v.pending_count {
        Some(n) => n as int,
        None => 0,
    };
    match k {
        Key::Char(c) => before * 10 + digit_of(c),
        _ => before,
    }
}

/// The count a motion key repeats: the numeric prefix, 1 when none was
/// typed.
pub open spec fn motion_count(v: AppView) -> usize {
    match v.pending_count {
        Some(n) => n,
        None => 1,
    }
}

/// What the key demands: a numeric prefix that fits in a `usize`.
pub open spec fn key_fits(v: AppView, k: Key) -> bool {
    counts_digit(v, k) ==> prefix_with(v, k) <= usize::MAX
}

/// The playback context of the explorer's listing: the playlist's URI, none
/// for the liked songs.
pub open spec fn stack_context(v: AppView) -> Option<Seq<char>> {
    if v.explorer_stack.len() > 0 && v.explorer_stack.last() is PlaylistTracks {
        Some("spotify:playlist:"@ + v.explorer_stack.last()->0@)
    } else {
        None
    }
}

/// Whether the player reports that it is playing.
pub open spec fn is_playing(v: AppView) -> bool {
    v.playback matches Some(p) && p.is_playing
}

/// `c` plays `track` within the context `ctx`: a track without an id plays
/// nothing; otherwise playback starts on the best known device and the
/// reducer learns of it.
pub open spec fn plays(v: AppView, track: TrackSummary, ctx: Option<Seq<char>>, c: Seq<Command>) -> bool {
    if track.id@.len() == 0 {
        c.len() == 0
    } else {
        &&& c.len() == 2
        &&& c[0] matches Command::StartPlayback { track_uri, context_uri, device_id } && track_uri@
            == "spotify:track:"@ + track.id@ && text_of(context_uri) == ctx && text_of(device_id) == best_device(
            v.playback,
            v.devices,
        )
        &&& c[1] matches Command::Emit(AppEvent::PlayTrack { track: t, context_uri: u }) && t == track && text_of(u)
            == ctx
    }
}

/// Whether a track with the id is among the liked songs.
pub open spec fn is_liked(v: AppView, id: Seq<char>) -> bool {
    exists|i: int| 0 <= i < v.liked_tracks.len() && (#[trigger] v.liked_tracks[i]).id@ == id
}

/// `c` carries out a track menu action on `track`: play it, queue it, or
/// like it (unlike it when it is liked already; a track without an id is
/// left alone). Cancelling does nothing more than closing the menu, and
/// adding to a playlist sends nothing from here.
pub open spec fn runs_action(v: AppView, a: TrackAction, track: TrackSummary, c: Seq<Command>) -> bool {
    match a {
        TrackAction::PlayNow => plays(v, track, stack_context(v), c),
        TrackAction::AddToQueue => c.len() == 1 && (c[0] matches Command::Enqueue { track_id, name } && track_id@
            == track.id@ && name@ == track.name@),
        TrackAction::Like => if track.id@.len() == 0 {
            c.len() == 0
        } else {
            c.len() == 1 && (c[0] matches Command::ToggleLike { track_id, name, liked } && track_id@ == track.id@
                && name@ == track.name@ && liked == is_liked(v, track.id@))
        },
        TrackAction::AddToPlaylist => c.len() == 0,
        TrackAction::Cancel => c.len() == 0,
        TrackAction::ToPlaylist(i) => if i < v.playlists.len() && track.id@.len() > 0 {
            c.len() == 1 && (c[0] matches Command::AddToPlaylist { playlist_id, playlist_name, track_uri }
                && playlist_id@ == v.playlists[i as int].id@ && playlist_name@ == v.playlists[i as int].name@
                && track_uri@ == "spotify:track:"@ + track.id@)
        } else {
            c.len() == 0
        },
    }
}

/// `c` is the single event `e`.
pub open spec fn emits(c: Seq<Command>, e: AppEvent) -> bool {
    c == seq![Command::Emit(e)]
}

/// The work a key hands over in the search overlay: close it, play the
/// highlighted result, move the highlight with the arrows, or edit the
/// query (every character types, `j` and `k` too).
pub open spec fn search_commands(v: AppView, k: Key, c: Seq<Command>) -> bool {
    let q = v.search.query;
    if k == Key::Esc {
        emits(c, AppEvent::CloseSearch)
    } else if k == Key::Enter {
        if (v.search.selected as int) < v.search.results.len() {
            &&& c.len() >= 1
            &&& c[0] == Command::Emit(AppEvent::CloseSearch)
            &&& plays(v, v.search.results[v.search.selected as int], None, c.skip(1))
        } else {
            c.len() == 0
        }
    } else if k == Key::Up {
        emits(c, AppEvent::MoveUp(1))
    } else if k == Key::Down {
        emits(c, AppEvent::MoveDown(1))
    } else if k == Key::Backspace {
        c.len() == 1 && (c[0] matches Command::Emit(AppEvent::SearchQueryChanged(s)) && s@ == (if q.len() > 0 {
            q.drop_last()
        } else {
            q
        }))
    } else if k is Char {
        c.len() == 1 && (c[0] matches Command::Emit(AppEvent::SearchQueryChanged(s)) && s@ == q.push(k->0))
    } else {
        c.len() == 0
    }
}

/// The work a key hands over in the track menu: close it, run the
/// highlighted action, move the highlight, or edit the filter.
pub open spec fn menu_commands(v: AppView, k: Key, c: Seq<Command>) -> bool {
    let q = v.track_menu.query;
    if k == Key::Esc {
        emits(c, AppEvent::CloseTrackMenu)
    } else if k == Key::Up {
        emits(c, AppEvent::MoveUp(1))
    } else if k == Key::Down {
        emits(c, AppEvent::MoveDown(1))
    } else if k == Key::Enter {
        if (v.track_menu.selected as int) < v.track_menu.actions.len() && v.track_menu.track is Some
            && v.track_menu.actions[v.track_menu.selected as int] == TrackAction::AddToPlaylist {
            emits(c, AppEvent::TrackMenuPickPlaylist)
        } else if (v.track_menu.selected as int) < v.track_menu.actions.len() && v.track_menu.track is Some {
            &&& c.len() >= 1
            &&& c[0] == Command::Emit(AppEvent::CloseTrackMenu)
            &&& runs_action(
                v,
                v.track_menu.actions[v.track_menu.selected as int],
                v.track_menu.track->0,
                c.skip(1),
            )
        } else {
            c.len() == 0
        }
    } else if k == Key::Backspace {
        c.len() == 1 && (c[0] matches Command::Emit(AppEvent::TrackMenuQueryChanged(s)) && s@ == (if q.len() > 0 {
            q.drop_last()
        } else {
            q
        }))
    } else if k is Char {
        c.len() == 1 && (c[0] matches Command::Emit(AppEvent::TrackMenuQueryChanged(s)) && s@ == q.push(k->0))
    } else {
        c.len() == 0
    }
}

/// The work a key hands over in the profile overlay: close it, change the
/// section, or log out once the logout button has the focus.
pub open spec fn profile_commands(v: AppView, k: Key, c: Seq<Command>) -> bool {
    if k == Key::Esc || k == Key::Char('p') {
        emits(c, AppEvent::CloseProfile)
    } else if k == Key::Up || k == Key::Char('k') {
        emits(c, AppEvent::MoveUp(1))
    } else if k == Key::Down || k == Key::Char('j') {
        emits(c, AppEvent::MoveDown(1))
    } else if k == Key::Enter && v.profile.logout_sel {
        emits(c, AppEvent::ProfileLogout)
    } else {
        c.len() == 0
    }
}

/// The work a key hands over in the panes, the numeric prefix applied to
/// the motions.
pub open spec fn normal_commands(v: AppView, k: Key, c: Seq<Command>) -> bool {
    let n = motion_count(v);
    if k == Key::Char('j') || k == Key::Down {
        emits(c, AppEvent::MoveDown(n))
    } else if k == Key::Char('k') || k == Key::Up {
        emits(c, AppEvent::MoveUp(n))
    } else if k == Key::Char('G') {
        emits(c, AppEvent::GoBottom)
    } else if k == Key::Char('M') {
        emits(c, AppEvent::GoMiddle)
    } else if k == Key::Char('l') || k == Key::Right {
        emits(c, AppEvent::Enter)
    } else if k == Key::Char('h') || k == Key::Left || k == Key::Backspace {
        emits(c, AppEvent::Back)
    } else if k == Key::Enter {
        if v.focus == Focus::Explorer {
            if (v.explorer_selected_index as int) < v.explorer_items.len() {
                plays(v, v.explorer_items[v.explorer_selected_index as int], stack_context(v), c)
            } else {
                c.len() == 0
            }
        } else {
            emits(c, AppEvent::Enter)
        }
    } else if k == Key::Char(' ') {
        c == seq![Command::PauseOrResume { pause: is_playing(v) }, Command::Emit(AppEvent::TogglePause)]
    } else if k == Key::Char('n') {
        c == seq![Command::Emit(AppEvent::SkipNext), Command::Skip { forward: true }]
    } else if k == Key::Char('N') {
        c == seq![Command::Emit(AppEvent::SkipPrev), Command::Skip { forward: false }]
    } else if k == Key::Char('/') {
        emits(c, AppEvent::OpenSearch)
    } else if k == Key::Char('p') {
        c == seq![Command::Emit(AppEvent::OpenProfile), Command::FetchProfile]
    } else if k == Key::Char('i') {
        if v.focus == Focus::Explorer && v.explorer_items.len() > 0 {
            emits(c, AppEvent::OpenTrackMenu)
        } else {
            c.len() == 0
        }
    } else if k == Key::Char('q') {
        emits(c, AppEvent::Quit)
    } else {
        c.len() == 0
    }
}

/// The work the second key of a `g` sequence hands over.
pub open spec fn g_commands(k: Key, c: Seq<Command>) -> bool {
    if k == Key::Char('g') {
        emits(c, AppEvent::GoTop)
    } else if k == Key::Char('p') {
        emits(c, AppEvent::JumpToPlaylists)
    } else if k == Key::Char('l') {
        emits(c, AppEvent::JumpToLiked)
    } else {
        c.len() == 0
    }
}

/// The work a key hands over, by key-reading mode.
pub open spec fn key_commands(v: AppView, k: Key, c: Seq<Command>) -> bool {
    match v.key_mode {
        KeyMode::Search => search_commands(v, k, c),
        KeyMode::TrackMenu => menu_commands(v, k, c),
        KeyMode::Profile => profile_commands(v, k, c),
        KeyMode::Normal => if counts_digit(v, k) {
            c.len() == 0
        } else {
            normal_commands(v, k, c)
        },
        KeyMode::AwaitingG => g_commands(k, c),
    }
}

/// The logout focus as the profile overlay leaves it after the key.
pub open spec fn logout_focus(v: AppView, k: Key) -> bool {
    let sel = v.profile.logout_sel;
    let on_profile = v.profile.section == ProfileSection::Profile;
    if k == Key::Esc || k == Key::Char('p') {
        sel
    } else if k == Key::Up || k == Key::Char('k') || k == Key::Down || k == Key::Char('j') {
        false
    } else if k == Key::Tab || k == Key::BackTab {
        if on_profile { !sel } else { sel }
    } else if k == Key::Enter {
        sel || on_profile
    } else {
        sel
    }
}

/// The change a key makes at once: the numeric prefix grows with a digit
/// and is used up by any other key in the panes; `g` waits for a second
/// key, which ends the wait; in the profile overlay the logout button gains
/// or loses the focus.
pub open spec fn key_state(v: AppView, k: Key) -> AppView {
    match v.key_mode {
        KeyMode::Search | KeyMode::TrackMenu => v,
        KeyMode::Profile => AppView { profile: ProfileState { logout_sel: logout_focus(v, k), ..v.profile }, ..v },
        KeyMode::Normal => if counts_digit(v, k) {
            AppView { pending_count: Some(prefix_with(v, k) as usize), ..v }
        } else if k == Key::Char('g') {
            AppView { pending_count: None, key_mode: KeyMode::AwaitingG, ..v }
        } else {
            AppView { pending_count: None, ..v }
        },
        KeyMode::AwaitingG => AppView { pending_count: None, key_mode: KeyMode::Normal, ..v },
    }
}

fn copy_text(s: &Option<String>) -> (r: Option<String>)
    ensures
        text_of(r) == text_of(*s),
{
    match s {
        Some(t) => Some(t.clone()),
        None => None,
    }
}

fn context_of(state: &AppState) -> (r: Option<String>)
    ensures
        text_of(r) == stack_context(state@),
{
    let n = state.explorer_stack.len();
    if n > 0 {
        match &state.explorer_stack[n - 1] {
            ExplorerNode::PlaylistTracks(id, _, _) => Some(playlist_context_uri(id.as_str())),
            ExplorerNode::LikedTracks => None,
        }
    } else {
        None
    }
}

fn play_commands(state: &AppState, track: &TrackSummary, context_uri: Option<String>) -> (c: Vec<Command>)
    ensures
        plays(state@, *track, text_of(context_uri), c@),
{
    if track.id.as_str().is_empty() {
        return Vec::new();
    }
    let uri = track_uri(track.id.as_str());
    let device_id = state.best_device_id();
    let ctx = copy_text(&context_uri);
    let mut c: Vec<Command> = Vec::new();
    c.push(Command::StartPlayback { track_uri: uri, context_uri: ctx, device_id });
    c.push(Command::Emit(AppEvent::PlayTrack { track: track.clone(), context_uri }));
    c
}

fn single(e: AppEvent) -> (c: Vec<Command>)
    ensures
        emits(c@, e),
{
    let mut c: Vec<Command> = Vec::new();
    c.push(Command::Emit(e));
    assert(c@ =~= seq![Command::Emit(e)]);
    c
}

fn pair(a: Command, b: Command) -> (c: Vec<Command>)
    ensures
        c@ == seq![a, b],
{
    let mut c: Vec<Command> = Vec::new();
    c.push(a);
    c.push(b);
    assert(c@ =~= seq![a, b]);
    c
}

fn prepend(first: Command, rest: Vec<Command>) -> (c: Vec<Command>)
    ensures
        c@.len() == rest@.len() + 1,
        c@[0] == first,
        c@.skip(1) == rest@,
{
    let ghost r = rest@;
    let mut c: Vec<Command> = Vec::new();
    c.push(first);
    let mut rest = rest;
    c.append(&mut rest);
    assert(c@.skip(1) =~= r);
    c
}

fn search_key(state: &AppState, key: Key) -> (c: Vec<Command>)
    ensures
        search_commands(state@, key, c@),
{
    match key {
        Key::Esc => single(AppEvent::CloseSearch),
        Key::Enter => match state.search.selected_track() {
            Some(track) => {
                let rest = play_commands(state, track, None);
                prepend(Command::Emit(AppEvent::CloseSearch), rest)
            },
            None => Vec::new(),
        },
        Key::Up => single(AppEvent::MoveUp(1)),
        Key::Down => single(AppEvent::MoveDown(1)),
        Key::Backspace => {
            let q = crate::text::without_last_char(state.search.query.as_str());
            single(AppEvent::SearchQueryChanged(q))
        },
        Key::Char(ch) => {
            let mut q = state.search.query.clone();
            crate::text::string_push(&mut q, ch);
            single(AppEvent::SearchQueryChanged(q))
        },
        _ => Vec::new(),
    }
}

fn action_commands(state: &AppState, action: TrackAction, track: &TrackSummary) -> (c: Vec<Command>)
    ensures
        runs_action(state@, action, *track, c@),
{
    match action {
        TrackAction::PlayNow => {
            let ctx = context_of(state);
            play_commands(state, track, ctx)
        },
        TrackAction::AddToQueue => {
            let mut c: Vec<Command> = Vec::new();
            c.push(Command::Enqueue { track_id: track.id.clone(), name: track.name.clone() });
            c
        },
        TrackAction::Like => {
            let mut c: Vec<Command> = Vec::new();
            if !track.id.as_str().is_empty() {
                let liked = liked_has(state, track.id.as_str());
                c.push(Command::ToggleLike { track_id: track.id.clone(), name: track.name.clone(), liked });
            }
            c
        },
        TrackAction::AddToPlaylist => Vec::new(),
        TrackAction::Cancel => Vec::new(),
        TrackAction::ToPlaylist(i) => {
            let mut c: Vec<Command> = Vec::new();
            if i < state.playlists.len() && !track.id.as_str().is_empty() {
                let p = &state.playlists[i];
                c.push(Command::AddToPlaylist {
                    playlist_id: p.id.clone(),
                    playlist_name: p.name.clone(),
                    track_uri: track_uri(track.id.as_str()),
                });
            }
            c
        },
    }
}

fn liked_has(state: &AppState, id: &str) -> (r: bool)
    ensures
        r == is_liked(state@, id@),
{
    let mut i: usize = 0;
    while i < state.liked_tracks.len()
        invariant
            i <= state.liked_tracks.len(),
            forall|k: int| 0 <= k < i ==> (#[trigger] state.liked_tracks@[k]).id@ != id@,
        decreases state.liked_tracks.len() - i,
    {
        if text_eq(state.liked_tracks[i].id.as_str(), id) {
            return true;
        }
        i = i + 1;
    }
    false
}

fn menu_key(state: &AppState, key: Key) -> (c: Vec<Command>)
    ensures
        menu_commands(state@, key, c@),
{
    match key {
        Key::Esc => single(AppEvent::CloseTrackMenu),
        Key::Up => single(AppEvent::MoveUp(1)),
        Key::Down => single(AppEvent::MoveDown(1)),
        Key::Enter => {
            match (state.track_menu.selected_action(), &state.track_menu.track) {
                (Some(TrackAction::AddToPlaylist), Some(_)) => single(AppEvent::TrackMenuPickPlaylist),
                (Some(action), Some(track)) => {
                    let rest = action_commands(state, *action, track);
                    prepend(Command::Emit(AppEvent::CloseTrackMenu), rest)
                },
                _ => Vec::new(),
            }
        },
        Key::Backspace => {
            let q = crate::text::without_last_char(state.track_menu.query.as_str());
            single(AppEvent::TrackMenuQueryChanged(q))
        },
        Key::Char(ch) => {
            let mut q = state.track_menu.query.clone();
            crate::text::string_push(&mut q, ch);
            single(AppEvent::TrackMenuQueryChanged(q))
        },
        _ => Vec::new(),
    }
}

fn profile_key(state: &mut AppState, key: Key) -> (c: Vec<Command>)
    requires
        old(state).key_mode == KeyMode::Profile,
    ensures
        final(state)@ == key_state(old(state)@, key),
        profile_commands(old(state)@, key, c@),
{
    let on_profile = state.profile.section == ProfileSection::Profile;
    match key {
        Key::Esc | Key::Char('p') => single(AppEvent::CloseProfile),
        Key::Up | Key::Char('k') => {
            state.profile.logout_sel = false;
            single(AppEvent::MoveUp(1))
        },
        Key::Down | Key::Char('j') => {
            state.profile.logout_sel = false;
            single(AppEvent::MoveDown(1))
        },
        Key::Tab | Key::BackTab => {
            if on_profile {
                state.profile.logout_sel = !state.profile.logout_sel;
            }
            Vec::new()
        },
        Key::Enter => {
            if state.profile.logout_sel {
                single(AppEvent::ProfileLogout)
            } else {
                if on_profile {
                    state.profile.logout_sel = true;
                }
                Vec::new()
            }
        },
        _ => Vec::new(),
    }
}

fn normal_key(state: &AppState, key: Key, count: usize) -> (c: Vec<Command>)
    requires
        count == motion_count(state@),
    ensures
        normal_commands(state@, key, c@),
{
    match key {
        Key::Char('j') | Key::Down => single(AppEvent::MoveDown(count)),
        Key::Char('k') | Key::Up => single(AppEvent::MoveUp(count)),
        Key::Char('G') => single(AppEvent::GoBottom),
        Key::Char('M') => single(AppEvent::GoMiddle),
        Key::Char('l') | Key::Right => single(AppEvent::Enter),
        Key::Char('h') | Key::Left | Key::Backspace => single(AppEvent::Back),
        Key::Enter => {
            if state.focus == Focus::Explorer {
                let idx = state.explorer_selected_index;
                if idx < state.explorer_items.len() {
                    let ctx = context_of(state);
                    play_commands(state, &state.explorer_items[idx], ctx)
                } else {
                    Vec::new()
                }
            } else {
                single(AppEvent::Enter)
            }
        },
        Key::Char(' ') => {
            let pause = match &state.playback {
                Some(p) => p.is_playing,
                None => false,
            };
            pair(Command::PauseOrResume { pause }, Command::Emit(AppEvent::TogglePause))
        },
        Key::Char('n') => pair(Command::Emit(AppEvent::SkipNext), Command::Skip { forward: true }),
        Key::Char('N') => pair(Command::Emit(AppEvent::SkipPrev), Command::Skip { forward: false }),
        Key::Char('/') => single(AppEvent::OpenSearch),
        Key::Char('p') => pair(Command::Emit(AppEvent::OpenProfile), Command::FetchProfile),
        Key::Char('i') => {
            if state.focus == Focus::Explorer && state.explorer_items.len() > 0 {
                single(AppEvent::OpenTrackMenu)
            } else {
                Vec::new()
            }
        },
        Key::Char('q') => single(AppEvent::Quit),
        _ => Vec::new(),
    }
}

fn g_key(key: Key) -> (c: Vec<Command>)
    ensures
        g_commands(key, c@),
{
    match key {
        Key::Char('g') => single(AppEvent::GoTop),
        Key::Char('p') => single(AppEvent::JumpToPlaylists),
        Key::Char('l') => single(AppEvent::JumpToLiked),
        _ => Vec::new(),
    }
}

/// Whether the key can be taken: a digit must keep the numeric prefix
/// within a `usize`.
pub fn key_fits_state(state: &AppState, key: Key) -> (r: bool)
    ensures
        r == key_fits(state@, key),
{
    if state.key_mode != KeyMode::Normal {
        return true;
    }
    match key {
        Key::Char(c) => {
            if '0' <= c && c <= '9' {
                let before: u128 = match state.pending_count {
                    Some(n) => n as u128,
                    None => 0,
                };
                let d: u128 = (c as u32 - '0' as u32) as u128;
                before * 10 + d <= usize::MAX as u128
            } else {
                true
            }
        },
        _ => true,
    }
}

fn pane_key(state: &mut AppState, key: Key) -> (c: Vec<Command>)
    requires
        old(state).key_mode == KeyMode::Normal,
        key_fits(old(state)@, key),
    ensures
        final(state)@ == key_state(old(state)@, key),
        key_commands(old(state)@, key, c@),
{
    if let Key::Char(ch) = key {
        if '0' <= ch && ch <= '9' {
            let before: usize = match state.pending_count {
                Some(n) => n,
                None => 0,
            };
            let d: usize = (ch as u32 - '0' as u32) as usize;
            state.pending_count = Some(before * 10 + d);
            return Vec::new();
        }
    }
    let count: usize = match state.pending_count {
        Some(n) => n,
        None => 1,
    };
    let c = normal_key(state, key, count);
    state.pending_count = None;
    if key == Key::Char('g') {
        state.key_mode = KeyMode::AwaitingG;
    }
    c
}

fn second_g_key(state: &mut AppState, key: Key) -> (c: Vec<Command>)
    requires
        old(state).key_mode == KeyMode::AwaitingG,
    ensures
        final(state)@ == key_state(old(state)@, key),
        key_commands(old(state)@, key, c@),
{
    state.pending_count = None;
    state.key_mode = KeyMode::Normal;
    g_key(key)
}

/// Takes a key: makes the change it calls for at once and returns the work
/// it hands to the event loop, in order.
pub fn handle_key(state: &mut AppState, key: Key) -> (c: Vec<Command>)
    requires
        key_fits(old(state)@, key),
    ensures
        final(state)@ == key_state(old(state)@, key),
        key_commands(old(state)@, key, c@),
{
    match state.key_mode {
        KeyMode::Search => search_key(state, key),
        KeyMode::TrackMenu => menu_key(state, key),
        KeyMode::Profile => profile_key(state, key),
        KeyMode::Normal => pane_key(state, key),
        KeyMode::AwaitingG => second_g_key(state, key),
    }
}

} // verus!
