use spot_tty::model::{PlaylistSummary, TrackSummary, UserProfile};
use spot_tty::profile::{ProfileSection, ProfileState};
use spot_tty::settings::Settings;
use spot_tty::stats::compute_stats;
use spot_tty::trackmenu::{TrackAction, TrackMenuState};

fn liked(artist: &str, album: &str, ms: u32) -> TrackSummary {
    TrackSummary {
        id: format!("{artist}-{album}-{ms}"),
        name: "t".to_string(),
        artist: artist.to_string(),
        album: album.to_string(),
        album_image_url: None,
        duration_ms: ms,
    }
}

#[test]
fn stats_count_and_rank_the_library() {
    let playlists = vec![
        PlaylistSummary { id: "a".to_string(), name: "A".to_string(), track_count: 1, owner: true, image_url: None },
        PlaylistSummary { id: "b".to_string(), name: "B".to_string(), track_count: 1, owner: false, image_url: None },
    ];
    let tracks = vec![
        liked("X", "x1", 1000),
        liked("Y", "y1", 2000),
        liked("X", "x1", 3000),
        liked("Z", "z1", 4000),
        liked("X", "x2", 5000),
        liked("Y", "y1", 6000),
    ];
    let s = compute_stats(&UserProfile::default(), &playlists, &tracks);
    assert_eq!(s.total_liked, 6);
    assert_eq!(s.total_playlists, 2);
    assert_eq!(s.owned_playlists, 1);
    assert_eq!(s.unique_artists, 3);
    assert_eq!(s.unique_albums, 4);
    assert_eq!(s.total_duration_ms, 21000);
    assert_eq!(s.top_artists, vec!["X", "Y", "Z"]);
    assert_eq!(s.top_albums.len(), 4);
    let mut two = s.top_albums[0..2].to_vec();
    two.sort();
    assert_eq!(two, vec!["x1", "y1"]);
    let empty = compute_stats(&UserProfile::default(), &vec![], &vec![]);
    assert_eq!(empty.total_liked, 0);
    assert!(empty.top_artists.is_empty());
}

#[test]
fn stats_keep_at_most_eight_artists_and_five_albums() {
    let tracks: Vec<TrackSummary> = (0..12).map(|i| liked(&format!("A{i}"), &format!("B{i}"), 1)).collect();
    let s = compute_stats(&UserProfile::default(), &vec![], &tracks);
    assert_eq!(s.unique_artists, 12);
    assert_eq!(s.top_artists.len(), 8);
    assert_eq!(s.top_albums.len(), 5);
}

#[test]
fn profile_sections_cycle_both_ways() {
    assert_eq!(ProfileSection::all(), [ProfileSection::Profile, ProfileSection::Stats, ProfileSection::Commands]);
    assert_eq!(ProfileSection::Stats.label(), "Stats");
    assert_eq!(ProfileSection::Commands.index(), 2);
    let mut p = ProfileState::default();
    p.logout_sel = true;
    p.next_section();
    assert_eq!(p.section, ProfileSection::Stats);
    assert!(!p.logout_sel);
    p.next_section();
    p.next_section();
    assert_eq!(p.section, ProfileSection::Profile);
    p.prev_section();
    assert_eq!(p.section, ProfileSection::Commands);
    p.next_section();
    assert_eq!(p.section, ProfileSection::Profile);
}

#[test]
fn track_menu_filters_by_label_ignoring_case() {
    let t = liked("X", "x", 1);
    let mut m = TrackMenuState::open(t);
    assert_eq!(
        m.actions,
        vec![TrackAction::Like, TrackAction::AddToQueue, TrackAction::AddToPlaylist, TrackAction::PlayNow, TrackAction::Cancel]
    );
    assert_eq!(m.selected, 0);
    assert!(m.query.is_empty());
    assert_eq!(TrackAction::PlayNow.label(), "▶  Play now");
    assert_eq!(TrackAction::Like.label(), "♥  Like / Unlike");
    assert_eq!(TrackAction::AddToPlaylist.label(), "↗  Add to playlist");
    assert_eq!(TrackAction::Cancel.label(), "✕  Cancel");
    assert_eq!(TrackAction::AddToQueue.label_parts(), ("+  ".to_string(), "Add to queue".to_string()));
    m.query = "PLAY".to_string();
    m.rebuild_actions();
    assert_eq!(m.actions, vec![TrackAction::AddToPlaylist, TrackAction::PlayNow]);
    m.query = "now".to_string();
    m.rebuild_actions();
    assert_eq!(m.actions, vec![TrackAction::PlayNow]);
    m.query = "".to_string();
    m.selected = 1;
    m.rebuild_actions();
    assert_eq!(m.selected, 1);
    assert_eq!(m.selected_action(), Some(&TrackAction::AddToQueue));
    m.selected = 9;
    m.rebuild_actions();
    assert_eq!(m.selected, 4);
    assert_eq!(m.selected_action(), Some(&TrackAction::Cancel));
}

#[test]
fn settings_need_a_client_id() {
    let ok = Settings::resolve(Some("id".to_string()), None, None, None).unwrap();
    assert_eq!(ok.client_id, "id");
    assert_eq!(ok.client_secret, "");
    assert_eq!(ok.redirect_uri, "http://127.0.0.1:8888/callback");
    let custom = Settings::resolve(Some("id".to_string()), Some("s".to_string()), Some("http://x/cb".to_string()), None).unwrap();
    assert_eq!(custom.client_secret, "s");
    assert_eq!(custom.redirect_uri, "http://x/cb");
    let err = Settings::resolve(Some(String::new()), None, None, Some("/home/u/.config/spot-tty/.env".to_string())).unwrap_err();
    assert!(err.starts_with("RSPOTIFY_CLIENT_ID is not set.\n\nAdd your Spotify credentials to:\n\n\t/home/u/.config/spot-tty/.env\n\n"));
    assert!(err.ends_with("Get these from https://developer.spotify.com/dashboard"));
    let fallback = Settings::resolve(None, None, None, None).unwrap_err();
    assert!(fallback.contains("~/.config/spot-tty/.env"));
}
