use spot_tty::control::{handle_key, key_fits_state, Command, Key};
use spot_tty::cover::ImageProtocol;
use spot_tty::model::{Device, PlaybackState, PlaylistSummary, TrackSummary};
use spot_tty::profile::ProfileSection;
use spot_tty::reducer::{fits, reduce, AppEvent};
use spot_tty::state::{AppState, Focus, KeyMode};
use spot_tty::trackmenu::TrackAction;

fn track(id: &str) -> TrackSummary {
    TrackSummary {
        id: id.to_string(),
        name: format!("Song {id}"),
        artist: "Art".to_string(),
        album: "Alb".to_string(),
        album_image_url: None,
        duration_ms: 1000,
    }
}

fn state_with_listing() -> AppState {
    let mut s = AppState::initial(ImageProtocol::HalfBlock);
    let pl = vec![PlaylistSummary { id: "p0".to_string(), name: "Mix".to_string(), track_count: 2, owner: true, image_url: None }];
    let e = AppEvent::PlaylistsLoaded(pl);
    assert!(fits(&s, &e));
    reduce(&mut s, e, 0);
    let e = AppEvent::ExplorerTracksLoaded(vec![track("a"), track("b"), track("")]);
    assert!(fits(&s, &e));
    reduce(&mut s, e, 0);
    s
}

fn single_event(c: &[Command]) -> &AppEvent {
    assert_eq!(c.len(), 1);
    match &c[0] {
        Command::Emit(e) => e,
        other => panic!("expected an event, got {other:?}"),
    }
}

#[test]
fn a_numeric_prefix_repeats_the_motion() {
    let mut s = state_with_listing();
    assert!(handle_key(&mut s, Key::Char('1')).is_empty());
    assert!(handle_key(&mut s, Key::Char('2')).is_empty());
    assert_eq!(s.pending_count, Some(12));
    let c = handle_key(&mut s, Key::Char('j'));
    assert!(matches!(single_event(&c), AppEvent::MoveDown(12)));
    assert_eq!(s.pending_count, None);
    let c = handle_key(&mut s, Key::Up);
    assert!(matches!(single_event(&c), AppEvent::MoveUp(1)));
}

#[test]
fn g_waits_for_a_second_key() {
    let mut s = state_with_listing();
    s.pending_count = Some(3);
    assert!(handle_key(&mut s, Key::Char('g')).is_empty());
    assert_eq!(s.key_mode, KeyMode::AwaitingG);
    assert_eq!(s.pending_count, None);
    let c = handle_key(&mut s, Key::Char('g'));
    assert!(matches!(single_event(&c), AppEvent::GoTop));
    assert_eq!(s.key_mode, KeyMode::Normal);
    handle_key(&mut s, Key::Char('g'));
    let c = handle_key(&mut s, Key::Char('l'));
    assert!(matches!(single_event(&c), AppEvent::JumpToLiked));
    handle_key(&mut s, Key::Char('g'));
    let c = handle_key(&mut s, Key::Char('p'));
    assert!(matches!(single_event(&c), AppEvent::JumpToPlaylists));
    handle_key(&mut s, Key::Char('g'));
    assert!(handle_key(&mut s, Key::Char('5')).is_empty());
    assert_eq!(s.key_mode, KeyMode::Normal);
    assert_eq!(s.pending_count, None);
}

#[test]
fn pane_keys_emit_their_events() {
    let mut s = state_with_listing();
    let cases = [
        (Key::Char('G'), "GoBottom"),
        (Key::Char('M'), "GoMiddle"),
        (Key::Char('l'), "Enter"),
        (Key::Right, "Enter"),
        (Key::Char('h'), "Back"),
        (Key::Backspace, "Back"),
        (Key::Char('q'), "Quit"),
    ];
    for (k, want) in cases {
        let c = handle_key(&mut s, k);
        assert_eq!(format!("{:?}", single_event(&c)), want);
    }
    let c = handle_key(&mut s, Key::Enter);
    assert!(matches!(single_event(&c), AppEvent::Enter));
    assert!(handle_key(&mut s, Key::Char('i')).is_empty());
    let c = handle_key(&mut s, Key::Char('/'));
    assert!(matches!(single_event(&c), AppEvent::OpenSearch));
    let c = handle_key(&mut s, Key::Char('n'));
    assert!(matches!(c.as_slice(), [Command::Emit(AppEvent::SkipNext), Command::Skip { forward: true }]));
    let c = handle_key(&mut s, Key::Char('N'));
    assert!(matches!(c.as_slice(), [Command::Emit(AppEvent::SkipPrev), Command::Skip { forward: false }]));
    let c = handle_key(&mut s, Key::Char('p'));
    assert!(matches!(c.as_slice(), [Command::Emit(AppEvent::OpenProfile), Command::FetchProfile]));
}

#[test]
fn space_pauses_or_resumes() {
    let mut s = state_with_listing();
    let c = handle_key(&mut s, Key::Char(' '));
    assert!(matches!(c.as_slice(), [Command::PauseOrResume { pause: false }, Command::Emit(AppEvent::TogglePause)]));
    s.playback = Some(PlaybackState {
        track_id: "a".to_string(),
        track_name: "x".to_string(),
        artist: String::new(),
        album: String::new(),
        album_image_url: None,
        duration_ms: 1,
        progress_ms: 0,
        is_playing: true,
        device_id: Some("dev9".to_string()),
    });
    let c = handle_key(&mut s, Key::Char(' '));
    assert!(matches!(c.as_slice(), [Command::PauseOrResume { pause: true }, Command::Emit(AppEvent::TogglePause)]));
}

#[test]
fn enter_in_the_explorer_plays_the_track_in_its_playlist() {
    let mut s = state_with_listing();
    s.focus = Focus::Explorer;
    s.devices = vec![
        Device { id: "idle".to_string(), name: "I".to_string(), is_active: false },
        Device { id: "live".to_string(), name: "L".to_string(), is_active: true },
    ];
    s.explorer_selected_index = 1;
    let c = handle_key(&mut s, Key::Enter);
    assert_eq!(c.len(), 2);
    match &c[0] {
        Command::StartPlayback { track_uri, context_uri, device_id } => {
            assert_eq!(track_uri, "spotify:track:b");
            assert_eq!(context_uri.as_deref(), Some("spotify:playlist:p0"));
            assert_eq!(device_id.as_deref(), Some("live"));
        },
        other => panic!("unexpected {other:?}"),
    }
    match &c[1] {
        Command::Emit(AppEvent::PlayTrack { track, context_uri }) => {
            assert_eq!(track.id, "b");
            assert_eq!(context_uri.as_deref(), Some("spotify:playlist:p0"));
        },
        other => panic!("unexpected {other:?}"),
    }
    s.explorer_selected_index = 2;
    assert!(handle_key(&mut s, Key::Enter).is_empty());
    s.explorer_selected_index = 9;
    assert!(handle_key(&mut s, Key::Enter).is_empty());
    let c = handle_key(&mut s, Key::Char('i'));
    assert!(matches!(single_event(&c), AppEvent::OpenTrackMenu));
}

#[test]
fn track_menu_keys_edit_the_filter_and_run_actions() {
    let mut s = state_with_listing();
    s.focus = Focus::Explorer;
    let e = AppEvent::OpenTrackMenu;
    reduce(&mut s, e, 0);
    assert_eq!(s.key_mode, KeyMode::TrackMenu);
    let c = handle_key(&mut s, Key::Char('q'));
    assert!(matches!(single_event(&c), AppEvent::TrackMenuQueryChanged(q) if q == "q"));
    s.track_menu.query = "qu".to_string();
    let c = handle_key(&mut s, Key::Backspace);
    assert!(matches!(single_event(&c), AppEvent::TrackMenuQueryChanged(q) if q == "q"));
    s.track_menu.selected = 1;
    let c = handle_key(&mut s, Key::Enter);
    assert_eq!(c.len(), 2);
    assert!(matches!(&c[0], Command::Emit(AppEvent::CloseTrackMenu)));
    assert!(matches!(&c[1], Command::Enqueue { track_id, name } if track_id == "a" && name == "Song a"));
    s.track_menu.selected = 3;
    assert_eq!(s.track_menu.actions[3], TrackAction::PlayNow);
    let c = handle_key(&mut s, Key::Enter);
    assert_eq!(c.len(), 3);
    assert!(matches!(&c[1], Command::StartPlayback { track_uri, .. } if track_uri == "spotify:track:a"));
    // like: the track is not among the liked songs yet
    s.track_menu.selected = 0;
    let c = handle_key(&mut s, Key::Enter);
    assert_eq!(c.len(), 2);
    assert!(matches!(&c[1], Command::ToggleLike { track_id, name, liked } if track_id == "a" && name == "Song a" && !liked));
    // unlike once it is
    s.liked_tracks = vec![s.track_menu.track.clone().unwrap()];
    let c = handle_key(&mut s, Key::Enter);
    assert!(matches!(&c[1], Command::ToggleLike { liked, .. } if *liked));
    // cancel only closes the menu
    s.track_menu.selected = 4;
    let c = handle_key(&mut s, Key::Enter);
    assert!(matches!(single_event(&c), AppEvent::CloseTrackMenu));
    let c = handle_key(&mut s, Key::Esc);
    assert!(matches!(single_event(&c), AppEvent::CloseTrackMenu));
    let c = handle_key(&mut s, Key::Down);
    assert!(matches!(single_event(&c), AppEvent::MoveDown(1)));
}

#[test]
fn profile_keys_guard_the_logout() {
    let mut s = state_with_listing();
    s.key_mode = KeyMode::Profile;
    assert!(handle_key(&mut s, Key::Enter).is_empty());
    assert!(s.profile.logout_sel);
    let c = handle_key(&mut s, Key::Enter);
    assert!(matches!(single_event(&c), AppEvent::ProfileLogout));
    let c = handle_key(&mut s, Key::Char('j'));
    assert!(matches!(single_event(&c), AppEvent::MoveDown(1)));
    assert!(!s.profile.logout_sel);
    assert!(handle_key(&mut s, Key::Tab).is_empty());
    assert!(s.profile.logout_sel);
    assert!(handle_key(&mut s, Key::BackTab).is_empty());
    assert!(!s.profile.logout_sel);
    s.profile.section = ProfileSection::Stats;
    assert!(handle_key(&mut s, Key::Tab).is_empty());
    assert!(!s.profile.logout_sel);
    assert!(handle_key(&mut s, Key::Enter).is_empty());
    assert!(!s.profile.logout_sel);
    let c = handle_key(&mut s, Key::Char('p'));
    assert!(matches!(single_event(&c), AppEvent::CloseProfile));
}

#[test]
fn search_keys_close_move_and_play() {
    let mut s = state_with_listing();
    s.key_mode = KeyMode::Search;
    let c = handle_key(&mut s, Key::Esc);
    assert!(matches!(single_event(&c), AppEvent::CloseSearch));
    assert!(handle_key(&mut s, Key::Enter).is_empty());
    s.search.results = vec![track("z")];
    let c = handle_key(&mut s, Key::Enter);
    assert_eq!(c.len(), 3);
    assert!(matches!(&c[0], Command::Emit(AppEvent::CloseSearch)));
    assert!(matches!(&c[1], Command::StartPlayback { context_uri: None, .. }));
    let c = handle_key(&mut s, Key::Char('x'));
    assert!(matches!(single_event(&c), AppEvent::SearchQueryChanged(q) if q == "x"));
    assert!(handle_key(&mut s, Key::Tab).is_empty());
}

#[test]
fn a_prefix_that_would_overflow_does_not_fit() {
    let mut s = state_with_listing();
    s.pending_count = Some(usize::MAX / 10);
    assert!(!key_fits_state(&s, Key::Char('9')));
    assert!(key_fits_state(&s, Key::Char('j')));
    s.key_mode = KeyMode::AwaitingG;
    assert!(key_fits_state(&s, Key::Char('9')));
}

#[test]
fn every_overlay_closes_on_escape() {
    for mode in [KeyMode::Search, KeyMode::TrackMenu, KeyMode::Profile] {
        let mut s = state_with_listing();
        s.key_mode = mode;
        let c = handle_key(&mut s, Key::Esc);
        let Command::Emit(e) = c.into_iter().next().unwrap() else { panic!("an event expected") };
        assert!(fits(&s, &e));
        reduce(&mut s, e, 1);
        assert_eq!(s.key_mode, KeyMode::Normal);
    }
}

#[test]
fn only_a_focused_logout_button_logs_out() {
    let keys = [Key::Enter, Key::Tab, Key::Char('j'), Key::Esc, Key::Char('x')];
    for mode in [KeyMode::Normal, KeyMode::Search, KeyMode::TrackMenu, KeyMode::Profile] {
        for k in keys {
            let mut s = state_with_listing();
            s.key_mode = mode;
            let c = handle_key(&mut s, k);
            assert!(!c.iter().any(|cmd| matches!(cmd, Command::Emit(AppEvent::ProfileLogout))));
        }
    }
}

#[test]
fn slash_opens_search_and_keys_type_into_it() {
    let mut s = state_with_listing();
    let c = handle_key(&mut s, Key::Char('/'));
    assert!(matches!(single_event(&c), AppEvent::OpenSearch));
    reduce(&mut s, AppEvent::OpenSearch, 1);
    assert_eq!(s.key_mode, KeyMode::Search);
    let c = handle_key(&mut s, Key::Char('j'));
    assert!(matches!(single_event(&c), AppEvent::SearchQueryChanged(q) if q == "j"));
    s.search.query = "ab".to_string();
    let c = handle_key(&mut s, Key::Backspace);
    assert!(matches!(single_event(&c), AppEvent::SearchQueryChanged(q) if q == "a"));
    let c = handle_key(&mut s, Key::Down);
    assert!(matches!(single_event(&c), AppEvent::MoveDown(1)));
    let c = handle_key(&mut s, Key::Esc);
    assert!(matches!(single_event(&c), AppEvent::CloseSearch));
}

#[test]
fn add_to_playlist_expands_into_the_own_playlists() {
    let mut s = state_with_listing();
    let e = AppEvent::PlaylistsLoaded(vec![
        PlaylistSummary { id: "p0".to_string(), name: "Mix".to_string(), track_count: 2, owner: true, image_url: None },
        PlaylistSummary { id: "p1".to_string(), name: "Theirs".to_string(), track_count: 2, owner: false, image_url: None },
        PlaylistSummary { id: "p2".to_string(), name: "Road trip".to_string(), track_count: 2, owner: true, image_url: None },
    ]);
    assert!(fits(&s, &e));
    reduce(&mut s, e, 0);
    s.focus = Focus::Explorer;
    reduce(&mut s, AppEvent::OpenTrackMenu, 1);
    s.track_menu.selected = 2;
    assert_eq!(s.track_menu.actions[2], TrackAction::AddToPlaylist);
    let c = handle_key(&mut s, Key::Enter);
    assert!(matches!(single_event(&c), AppEvent::TrackMenuPickPlaylist));
    reduce(&mut s, AppEvent::TrackMenuPickPlaylist, 2);
    assert_eq!(s.key_mode, KeyMode::TrackMenu);
    assert!(s.track_menu.picking_playlist);
    assert_eq!(s.track_menu.actions, vec![TrackAction::ToPlaylist(0), TrackAction::ToPlaylist(2)]);
    assert_eq!(s.track_menu.selected, 0);
    reduce(&mut s, AppEvent::TrackMenuQueryChanged("ROAD".to_string()), 3);
    assert_eq!(s.track_menu.actions, vec![TrackAction::ToPlaylist(2)]);
    let c = handle_key(&mut s, Key::Enter);
    assert_eq!(c.len(), 2);
    assert!(matches!(&c[0], Command::Emit(AppEvent::CloseTrackMenu)));
    assert!(matches!(&c[1], Command::AddToPlaylist { playlist_id, playlist_name, track_uri }
        if playlist_id == "p2" && playlist_name == "Road trip" && track_uri == "spotify:track:a"));
    reduce(&mut s, AppEvent::CloseTrackMenu, 4);
    assert!(!s.track_menu.picking_playlist);
}
