use spot_tty::app::App;
use spot_tty::cover::ImageProtocol;
use spot_tty::model::{Device, PlaybackState, PlaylistSummary, TrackSummary, UserProfile};
use spot_tty::profile::ProfileSection;
use spot_tty::reducer::{fits, reduce, AppEvent, Effect};
use spot_tty::state::{first_active_id, AppState, AppStatus, ExplorerNode, Focus, KeyMode};
use spot_tty::trackmenu::TrackAction;

fn track(id: &str, name: &str) -> TrackSummary {
    TrackSummary {
        id: id.to_string(),
        name: name.to_string(),
        artist: format!("{name} artist"),
        album: format!("{name} album"),
        album_image_url: Some(format!("https://img/{id}")),
        duration_ms: 180_000,
    }
}

fn playlist(id: &str, owner: bool) -> PlaylistSummary {
    PlaylistSummary { id: id.to_string(), name: format!("List {id}"), track_count: 3, owner, image_url: None }
}

fn playback(track_id: &str, playing: bool) -> PlaybackState {
    PlaybackState {
        track_id: track_id.to_string(),
        track_name: "Now".to_string(),
        artist: "A".to_string(),
        album: "B".to_string(),
        album_image_url: None,
        duration_ms: 100_000,
        progress_ms: 99_990,
        is_playing: playing,
        device_id: None,
    }
}

fn apply(state: &mut AppState, event: AppEvent, now: u64) -> Effect {
    assert!(fits(state, &event));
    reduce(state, event, now)
}

fn loaded_state() -> AppState {
    let mut s = AppState::initial(ImageProtocol::HalfBlock);
    apply(&mut s, AppEvent::UserLoaded("Ann".to_string()), 1);
    apply(&mut s, AppEvent::PlaylistsLoaded(vec![playlist("p0", true), playlist("p1", false), playlist("p2", true)]), 2);
    apply(&mut s, AppEvent::LikedTracksLoaded(vec![track("l0", "L0"), track("l1", "L1")]), 3);
    s
}

#[test]
fn the_library_is_ready_once_everything_arrived() {
    let mut s = AppState::initial(ImageProtocol::Kitty);
    assert_eq!(s.status, AppStatus::Loading);
    apply(&mut s, AppEvent::UserLoaded("Ann".to_string()), 1);
    assert_eq!(s.status, AppStatus::Loading);
    apply(&mut s, AppEvent::LikedTracksLoaded(vec![]), 2);
    assert_eq!(s.status, AppStatus::Loading);
    apply(&mut s, AppEvent::PlaylistsLoaded(vec![]), 3);
    assert_eq!(s.status, AppStatus::Ready);
    apply(&mut s, AppEvent::LoadError("boom".to_string()), 4);
    assert_eq!(s.status, AppStatus::Ready);
    assert_eq!(s.error_message, Some("boom".to_string()));
    assert_eq!(s.user_name, Some("Ann".to_string()));
}

#[test]
fn quitting_is_final_and_logout_deletes_the_token() {
    let mut s = loaded_state();
    assert_eq!(apply(&mut s, AppEvent::Quit, 5), Effect::Nothing);
    assert!(s.should_quit);
    for e in [AppEvent::MoveDown(1), AppEvent::Back, AppEvent::TogglePause, AppEvent::CloseProfile] {
        apply(&mut s, e, 6);
        assert!(s.should_quit);
    }
    let mut t = loaded_state();
    assert_eq!(apply(&mut t, AppEvent::ProfileLogout, 7), Effect::DeleteTokenCache);
    assert!(t.should_quit);
}

#[test]
fn playlists_loading_opens_the_first_listing() {
    let s = loaded_state();
    assert_eq!(s.explorer_stack.len(), 1);
    assert!(matches!(&s.explorer_stack[0], ExplorerNode::PlaylistTracks(id, name, true) if id == "p0" && name == "List p0"));
    assert!(s.explorer_fetch_pending);
    assert!(s.explorer_items.is_empty());
    assert_eq!(s.cached_stats.total_playlists, 3);
    assert_eq!(s.cached_stats.owned_playlists, 2);
    assert_eq!(s.cached_stats.total_liked, 2);
}

#[test]
fn sidebar_motion_opens_the_listing_under_the_cursor() {
    let mut s = loaded_state();
    apply(&mut s, AppEvent::MoveDown(1), 10);
    assert_eq!(s.navigation.selected_index, 1);
    assert!(matches!(&s.explorer_stack[0], ExplorerNode::PlaylistTracks(id, _, false) if id == "p1"));
    assert_eq!(s.last_nav_move, Some(10));
    apply(&mut s, AppEvent::MoveDown(100), 11);
    assert_eq!(s.navigation.selected_index, 3);
    assert!(matches!(s.explorer_stack[0], ExplorerNode::LikedTracks));
    assert_eq!(s.explorer_items.len(), 2);
    assert_eq!(s.explorer_items[0].id, "l0");
    assert!(!s.explorer_fetch_pending);
    apply(&mut s, AppEvent::MoveUp(7), 12);
    assert_eq!(s.navigation.selected_index, 0);
    apply(&mut s, AppEvent::GoMiddle, 13);
    assert_eq!(s.navigation.selected_index, 1);
    apply(&mut s, AppEvent::GoBottom, 14);
    assert_eq!(s.navigation.selected_index, 3);
    apply(&mut s, AppEvent::GoTop, 15);
    assert_eq!(s.navigation.selected_index, 0);
    assert_eq!(s.explorer_selected_index, 0);
}

#[test]
fn jumps_open_playlists_and_liked_songs() {
    let mut s = loaded_state();
    s.key_mode = KeyMode::AwaitingG;
    apply(&mut s, AppEvent::JumpToLiked, 20);
    assert_eq!(s.navigation.selected_index, 3);
    assert_eq!(s.key_mode, KeyMode::Normal);
    assert!(matches!(s.explorer_stack[0], ExplorerNode::LikedTracks));
    assert_eq!(s.explorer_items.len(), 2);
    apply(&mut s, AppEvent::JumpToPlaylists, 21);
    assert_eq!(s.navigation.selected_index, 0);
    assert!(s.explorer_fetch_pending);
}

#[test]
fn explorer_listing_and_cursor() {
    let mut s = loaded_state();
    apply(&mut s, AppEvent::Enter, 1);
    assert_eq!(s.focus, Focus::Explorer);
    apply(&mut s, AppEvent::ExplorerTracksLoaded(vec![track("a", "A"), track("b", "B"), track("c", "C")]), 2);
    assert_eq!(s.explorer_items.len(), 3);
    assert!(!s.explorer_fetch_pending);
    apply(&mut s, AppEvent::MoveDown(2), 3);
    assert_eq!(s.explorer_selected_index, 2);
    apply(&mut s, AppEvent::MoveDown(5), 4);
    assert_eq!(s.explorer_selected_index, 2);
    apply(&mut s, AppEvent::GoMiddle, 5);
    assert_eq!(s.explorer_selected_index, 1);
    apply(&mut s, AppEvent::Enter, 6);
    assert_eq!(s.focus, Focus::Explorer);
    apply(&mut s, AppEvent::Back, 7);
    assert_eq!(s.focus, Focus::Sidebar);
    // the search index holds every track once
    let ids: Vec<&str> = s.all_tracks.iter().map(|t| t.id.as_str()).collect();
    assert_eq!(ids, vec!["l0", "l1", "a", "b", "c"]);
    apply(&mut s, AppEvent::ExplorerTracksLoaded(vec![track("a", "A"), track("", "NoId"), track("d", "D")]), 8);
    let ids: Vec<&str> = s.all_tracks.iter().map(|t| t.id.as_str()).collect();
    assert_eq!(ids, vec!["l0", "l1", "a", "b", "c", "d"]);
}

#[test]
fn merging_a_listing_that_repeats_an_id_adds_it_once() {
    let mut s = loaded_state();
    apply(&mut s, AppEvent::ExplorerTracksLoaded(vec![track("x", "X"), track("x", "X again"), track("", "NoId")]), 1);
    let xs: Vec<&str> = s.all_tracks.iter().filter(|t| t.id == "x").map(|t| t.name.as_str()).collect();
    assert_eq!(xs, vec!["X"]);
    assert!(s.all_tracks.iter().all(|t| !t.id.is_empty()));
}

#[test]
fn toggling_pause_twice_restores_playback() {
    let mut s = loaded_state();
    apply(&mut s, AppEvent::TogglePause, 1);
    assert!(s.playback.is_none());
    apply(&mut s, AppEvent::PlaybackStateUpdated(Some(playback("t", true))), 2);
    apply(&mut s, AppEvent::TogglePause, 3);
    assert!(!s.playback.as_ref().unwrap().is_playing);
    apply(&mut s, AppEvent::TogglePause, 4);
    assert!(s.playback.as_ref().unwrap().is_playing);
}

#[test]
fn playing_devices_and_skips() {
    let mut s = loaded_state();
    apply(&mut s, AppEvent::PlayTrack { track: track("a", "A"), context_uri: Some("spotify:playlist:p0".to_string()) }, 1);
    assert_eq!(s.playing_context_uri, Some("spotify:playlist:p0".to_string()));
    apply(&mut s, AppEvent::DevicesUpdated(vec![Device { id: "d".to_string(), name: "D".to_string(), is_active: true }]), 2);
    assert_eq!(s.devices.len(), 1);
    assert_eq!(s.best_device_id(), Some("d".to_string()));
    apply(&mut s, AppEvent::SkipNext, 3);
    apply(&mut s, AppEvent::SkipPrev, 4);
    assert_eq!(s.devices.len(), 1);
}

#[test]
fn track_menu_opens_filters_and_closes() {
    let mut s = loaded_state();
    apply(&mut s, AppEvent::OpenTrackMenu, 1);
    assert_eq!(s.key_mode, KeyMode::Normal);
    apply(&mut s, AppEvent::ExplorerTracksLoaded(vec![track("a", "A"), track("b", "B")]), 2);
    s.focus = Focus::Explorer;
    apply(&mut s, AppEvent::MoveDown(1), 3);
    apply(&mut s, AppEvent::OpenTrackMenu, 4);
    assert_eq!(s.key_mode, KeyMode::TrackMenu);
    assert_eq!(s.track_menu.track.as_ref().unwrap().id, "b");
    assert_eq!(
        s.track_menu.actions,
        vec![TrackAction::Like, TrackAction::AddToQueue, TrackAction::AddToPlaylist, TrackAction::PlayNow, TrackAction::Cancel]
    );
    apply(&mut s, AppEvent::MoveDown(1), 5);
    assert_eq!(s.track_menu.selected, 1);
    apply(&mut s, AppEvent::TrackMenuQueryChanged("QUEUE".to_string()), 6);
    assert_eq!(s.track_menu.actions, vec![TrackAction::AddToQueue]);
    assert_eq!(s.track_menu.selected, 0);
    apply(&mut s, AppEvent::TrackMenuQueryChanged("zzz".to_string()), 7);
    assert!(s.track_menu.actions.is_empty());
    assert!(s.track_menu.selected_action().is_none());
    apply(&mut s, AppEvent::TrackMenuConfirm, 8);
    assert_eq!(s.key_mode, KeyMode::TrackMenu);
    apply(&mut s, AppEvent::CloseTrackMenu, 9);
    assert_eq!(s.key_mode, KeyMode::Normal);
    assert!(s.track_menu.track.is_none());
    assert!(s.track_menu.query.is_empty());
}

#[test]
fn profile_overlay_cycles_sections() {
    let mut s = loaded_state();
    apply(&mut s, AppEvent::OpenProfile, 1);
    assert_eq!(s.key_mode, KeyMode::Profile);
    apply(&mut s, AppEvent::ProfileSectionNext, 2);
    assert_eq!(s.profile.section, ProfileSection::Stats);
    apply(&mut s, AppEvent::MoveDown(1), 3);
    assert_eq!(s.profile.section, ProfileSection::Commands);
    apply(&mut s, AppEvent::MoveDown(1), 4);
    assert_eq!(s.profile.section, ProfileSection::Profile);
    apply(&mut s, AppEvent::MoveUp(1), 5);
    assert_eq!(s.profile.section, ProfileSection::Commands);
    apply(&mut s, AppEvent::ProfileSectionPrev, 6);
    assert_eq!(s.profile.section, ProfileSection::Stats);
    apply(&mut s, AppEvent::UserProfileLoaded(UserProfile::default()), 7);
    assert!(s.user_profile.is_some());
    apply(&mut s, AppEvent::CloseProfile, 8);
    assert_eq!(s.key_mode, KeyMode::Normal);
}

#[test]
fn toasts_expire_after_three_seconds() {
    let mut s = loaded_state();
    apply(&mut s, AppEvent::Toast("Added to queue: A".to_string()), 1_000);
    assert_eq!(s.active_toast(1_000), Some("Added to queue: A"));
    assert_eq!(s.active_toast(3_999), Some("Added to queue: A"));
    assert_eq!(s.active_toast(4_000), None);
    assert!(s.scroll_settled(0));
}

#[test]
fn motion_counts_that_overflow_do_not_fit() {
    let s = loaded_state();
    assert!(!fits(&s, &AppEvent::MoveDown(usize::MAX)));
    assert!(fits(&s, &AppEvent::MoveDown(1000)));
    assert!(!fits(&s, &AppEvent::MoveUp(usize::MAX)));
}

#[test]
fn the_app_starts_fresh_and_takes_events() {
    let mut app = App::new(ImageProtocol::ITerm2);
    assert_eq!(app.state.image_protocol, ImageProtocol::ITerm2);
    assert_eq!(app.state.status, AppStatus::Loading);
    assert_eq!(app.state.focus, Focus::Sidebar);
    assert_eq!(app.handle_event(AppEvent::Quit, 0), Effect::Nothing);
    assert!(app.state.should_quit);
}

#[test]
fn a_fresh_device_listing_offers_its_first_active_device() {
    let d = |id: &str, active: bool| Device { id: id.to_string(), name: id.to_string(), is_active: active };
    assert_eq!(first_active_id(&vec![]), None);
    assert_eq!(first_active_id(&vec![d("a", false), d("b", false)]), None);
    assert_eq!(first_active_id(&vec![d("a", false), d("b", true), d("c", true)]), Some("b".to_string()));
}

#[test]
fn moving_down_then_up_returns_the_cursor() {
    let mut s = loaded_state();
    s.focus = Focus::Explorer;
    apply(&mut s, AppEvent::ExplorerTracksLoaded((0..10).map(|i| track(&format!("t{i}"), "T")).collect()), 1);
    apply(&mut s, AppEvent::MoveDown(2), 2);
    apply(&mut s, AppEvent::MoveDown(5), 3);
    assert_eq!(s.explorer_selected_index, 7);
    apply(&mut s, AppEvent::MoveUp(5), 4);
    assert_eq!(s.explorer_selected_index, 2);
    s.focus = Focus::Sidebar;
    apply(&mut s, AppEvent::MoveDown(2), 5);
    apply(&mut s, AppEvent::MoveUp(2), 6);
    assert_eq!(s.navigation.selected_index, 0);
}

#[test]
fn opening_and_closing_overlays_changes_nothing_else() {
    let mut s = loaded_state();
    apply(&mut s, AppEvent::ExplorerTracksLoaded(vec![track("a", "A")]), 1);
    apply(&mut s, AppEvent::OpenProfile, 2);
    apply(&mut s, AppEvent::CloseProfile, 3);
    assert_eq!(s.key_mode, KeyMode::Normal);
    assert_eq!(s.profile.section, ProfileSection::Profile);
    apply(&mut s, AppEvent::OpenTrackMenu, 4);
    apply(&mut s, AppEvent::CloseTrackMenu, 5);
    assert_eq!(s.key_mode, KeyMode::Normal);
    assert!(s.track_menu.track.is_none());
    assert!(s.track_menu.actions.is_empty());
}

#[test]
fn the_search_overlay_matches_locally_then_merges_the_catalog() {
    let mut s = loaded_state();
    s.search.query = "old".to_string();
    s.search.results = vec![track("z", "Z")];
    s.search.selected = 0;
    apply(&mut s, AppEvent::OpenSearch, 1);
    assert_eq!(s.key_mode, KeyMode::Search);
    assert!(s.search.query.is_empty());
    assert!(s.search.results.is_empty());
    assert!(!s.search.is_searching);
    // the local index answers at once, ignoring case, on name, artist or album
    apply(&mut s, AppEvent::SearchQueryChanged("L1".to_string()), 2);
    assert_eq!(s.search.query, "L1");
    assert!(s.search.is_searching);
    let ids: Vec<&str> = s.search.results.iter().map(|t| t.id.as_str()).collect();
    assert_eq!(ids, vec!["l1"]);
    apply(&mut s, AppEvent::SearchQueryChanged("ALBUM".to_string()), 3);
    let ids: Vec<&str> = s.search.results.iter().map(|t| t.id.as_str()).collect();
    assert_eq!(ids, vec!["l0", "l1"]);
    // the catalog's results join after them, each id once
    apply(&mut s, AppEvent::SearchCatalogResults(vec![track("l1", "L1"), track("r1", "R1"), track("r1", "R1 again")]), 4);
    assert!(!s.search.is_searching);
    let ids: Vec<&str> = s.search.results.iter().map(|t| t.id.as_str()).collect();
    assert_eq!(ids, vec!["l0", "l1", "r1"]);
    apply(&mut s, AppEvent::MoveDown(2), 5);
    assert_eq!(s.search.selected, 2);
    assert_eq!(s.search.selected_track().unwrap().id, "r1");
    // a narrower list keeps the highlight on its last entry
    apply(&mut s, AppEvent::SearchQueryChanged("l0".to_string()), 6);
    assert_eq!(s.search.results.len(), 1);
    assert_eq!(s.search.selected, 0);
    // an empty query lists nothing and leaves the waiting flag as it was
    apply(&mut s, AppEvent::SearchQueryChanged(String::new()), 7);
    assert!(s.search.results.is_empty());
    assert!(s.search.is_searching);
    apply(&mut s, AppEvent::CloseSearch, 8);
    assert_eq!(s.key_mode, KeyMode::Normal);
}
