use spot_tty::cover::{CellArea, ImageProtocol};
use spot_tty::model::{PlaybackState, PlaylistSummary, TrackSummary};
use spot_tty::reducer::AppEvent;
use spot_tty::schedule::{covers_to_fetch, tick, visible_cover_urls, ExplorerFetcher, SearchDebouncer};
use spot_tty::state::{AppState, ExplorerNode};

fn track(id: &str, url: Option<&str>) -> TrackSummary {
    TrackSummary {
        id: id.to_string(),
        name: id.to_string(),
        artist: String::new(),
        album: String::new(),
        album_image_url: url.map(|u| u.to_string()),
        duration_ms: 1,
    }
}

fn area(height: u16) -> CellArea {
    CellArea { x: 0, y: 0, width: 80, height }
}

fn playing(progress: u32, duration: u32, is_playing: bool) -> PlaybackState {
    PlaybackState {
        track_id: "t".to_string(),
        track_name: String::new(),
        artist: String::new(),
        album: String::new(),
        album_image_url: Some("player".to_string()),
        duration_ms: duration,
        progress_ms: progress,
        is_playing,
        device_id: None,
    }
}

#[test]
fn ticks_advance_only_while_playing() {
    let mut s = AppState::initial(ImageProtocol::HalfBlock);
    tick(&mut s);
    assert_eq!(s.visualizer_phase, 0);
    s.playback = Some(playing(1000, 1050, false));
    tick(&mut s);
    assert_eq!(s.playback.as_ref().unwrap().progress_ms, 1000);
    s.playback = Some(playing(1000, 1050, true));
    tick(&mut s);
    assert_eq!(s.playback.as_ref().unwrap().progress_ms, 1033);
    assert_eq!(s.visualizer_phase, 1);
    tick(&mut s);
    assert_eq!(s.playback.as_ref().unwrap().progress_ms, 1050);
    s.visualizer_phase = 99_999;
    tick(&mut s);
    assert_eq!(s.visualizer_phase, 0);
}

#[test]
fn visible_covers_put_the_selected_one_first() {
    let mut s = AppState::initial(ImageProtocol::HalfBlock);
    assert!(visible_cover_urls(&s, area(20)).is_empty());
    s.explorer_items = (0..20).map(|i| track(&format!("t{i}"), Some(&format!("u{i}")))).collect();
    // 20 rows tall: 17 usable lines, 5 rows in view, 7 covers wanted
    let urls = visible_cover_urls(&s, area(20));
    let want: Vec<String> = (0..7).map(|i| format!("u{i}")).collect();
    assert_eq!(urls, want);
    s.explorer_selected_index = 10;
    let urls = visible_cover_urls(&s, area(20));
    assert_eq!(urls, vec!["u10", "u6", "u7", "u8", "u9", "u11", "u12"]);
    s.explorer_items[10].album_image_url = Some("special".to_string());
    s.explorer_items[7].album_image_url = None;
    let urls = visible_cover_urls(&s, area(20));
    assert_eq!(urls, vec!["special", "u6", "u8", "u9", "u11", "u12"]);
    // a row in view that shares the selected cover does not list it twice
    s.explorer_items[8].album_image_url = Some("special".to_string());
    let urls = visible_cover_urls(&s, area(20));
    assert_eq!(urls, vec!["special", "u6", "u9", "u11", "u12"]);
}

#[test]
fn covers_to_fetch_skips_cached_and_running_ones() {
    let mut s = AppState::initial(ImageProtocol::HalfBlock);
    s.explorer_items = vec![track("a", Some("same")), track("b", Some("same")), track("c", Some("other")), track("d", None)];
    s.playlists = vec![
        PlaylistSummary { id: "p".to_string(), name: "P".to_string(), track_count: 1, owner: true, image_url: Some("other".to_string()) },
        PlaylistSummary { id: "q".to_string(), name: "Q".to_string(), track_count: 1, owner: true, image_url: Some("plist".to_string()) },
    ];
    s.playback = Some(playing(0, 1, true));
    s.cover_fetching = vec!["other".to_string()];
    let due = covers_to_fetch(&mut s, area(20), area(20));
    assert_eq!(due, vec!["player".to_string(), "same".to_string(), "plist".to_string()]);
    assert_eq!(s.cover_fetching, vec!["other".to_string(), "player".to_string(), "same".to_string(), "plist".to_string()]);
    let again = covers_to_fetch(&mut s, area(20), area(20));
    assert!(again.is_empty());
}

#[test]
fn the_explorer_fetches_each_playlist_once() {
    let mut f = ExplorerFetcher::new();
    let p = ExplorerNode::PlaylistTracks("p1".to_string(), "One".to_string(), true);
    let liked = ExplorerNode::LikedTracks;
    assert_eq!(f.next_fetch(None, false), None);
    assert_eq!(f.next_fetch(Some(&liked), false), None);
    assert_eq!(f.next_fetch(Some(&p), true), Some("p1".to_string()));
    assert!(f.in_progress);
    assert_eq!(f.next_fetch(Some(&p), true), None);
    f.observe(&AppEvent::ExplorerTracksLoaded(vec![]));
    assert!(!f.in_progress);
    assert_eq!(f.next_fetch(Some(&p), false), None);
    // the reducer emptied the listing again: fetch anew
    assert_eq!(f.next_fetch(Some(&p), true), Some("p1".to_string()));
    f.observe(&AppEvent::LoadError("x".to_string()));
    assert_eq!(f.next_fetch(Some(&liked), false), None);
    assert!(matches!(f.last, Some(ExplorerNode::LikedTracks)));
    assert!(!f.in_progress);
    f.observe(&AppEvent::Quit);
    let q = ExplorerNode::PlaylistTracks("p2".to_string(), "Two".to_string(), false);
    assert_eq!(f.next_fetch(Some(&q), false), Some("p2".to_string()));
}

#[test]
fn the_catalog_is_asked_once_the_query_rests() {
    let mut d = SearchDebouncer::new();
    assert_eq!(d.poll(true, "da", true, 1000), None);
    assert_eq!(d.poll(true, "da", true, 1399), None);
    assert_eq!(d.poll(true, "da", true, 1400), Some("da".to_string()));
    assert_eq!(d.poll(true, "da", true, 5000), None);
    assert_eq!(d.poll(true, "daf", true, 5000), None);
    assert_eq!(d.poll(true, "daf", false, 6000), None);
    assert_eq!(d.poll(true, "daf", true, 6000), Some("daf".to_string()));
    assert_eq!(d.poll(false, "daf", true, 7000), None);
    assert!(d.last_query.is_empty());
    let mut e = SearchDebouncer::new();
    assert_eq!(e.poll(true, "", true, 1000), None);
    assert_eq!(e.poll(true, "", true, 9000), None);
}
