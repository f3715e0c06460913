use spot_tty::cover::{CellArea, ImageProtocol};
use spot_tty::model::{PlaybackState, PlaylistSummary, TrackSummary, UserProfile, UserStats};
use spot_tty::panes::{
    account_name, breadcrumb, detail_cover_area, detail_cover_ready, detail_text, explorer_body, explorer_rows,
    focus_label, is_compact, liked_entry, pending_text, playlists_pane, row_cover_slots, sidebar_scroll,
    table_selection, title_width, visualizer, ExplorerBody, PlaylistsPane, RowStyle,
};
use spot_tty::profile_view::{
    is_premium, library_lines, pad, profile_fields, profile_initial, quick_stats, ranked_rows, time_parts,
};
use spot_tty::state::{AppState, ExplorerNode, Focus};

fn playlist(i: usize) -> PlaylistSummary {
    PlaylistSummary {
        id: format!("p{i}"),
        name: format!("Playlist number {i}"),
        track_count: i as u32 * 10,
        owner: i % 2 == 0,
        image_url: Some(format!("img{i}")),
    }
}

fn track(id: &str, name: &str) -> TrackSummary {
    TrackSummary {
        id: id.to_string(),
        name: name.to_string(),
        artist: "An Artist With A Rather Long Name".to_string(),
        album: "Album".to_string(),
        album_image_url: Some(format!("cover-{id}")),
        duration_ms: 61_000,
    }
}

#[test]
fn breadcrumbs_and_labels() {
    let mut s = AppState::initial(ImageProtocol::HalfBlock);
    assert_eq!(breadcrumb(&s), "Library");
    s.explorer_stack = vec![ExplorerNode::LikedTracks];
    assert_eq!(breadcrumb(&s), "Library › Liked Songs");
    s.explorer_stack = vec![ExplorerNode::PlaylistTracks("x".to_string(), "Chill".to_string(), true)];
    assert_eq!(breadcrumb(&s), "Library › Playlist › Chill");
    assert_eq!(focus_label(Focus::Sidebar), "SIDEBAR");
    assert_eq!(focus_label(Focus::Explorer), "EXPLORER");
    assert_eq!(pending_text(&s), "");
    s.pending_count = Some(42);
    assert_eq!(pending_text(&s), "42");
    assert_eq!(account_name(&s), "Connecting…");
    s.user_name = Some("Ann".to_string());
    assert_eq!(account_name(&s), "Ann");
    assert_eq!(visualizer(0), "▂▅▇▆▃▂▇▅▃▂");
    assert_eq!(visualizer(3), "▆▃▂▇▅▃▂▂▅▇");
}

#[test]
fn sidebar_scroll_keeps_the_cursor_in_view() {
    assert_eq!(sidebar_scroll(0, 10, 4), 0);
    assert_eq!(sidebar_scroll(3, 10, 4), 0);
    assert_eq!(sidebar_scroll(4, 10, 4), 1);
    assert_eq!(sidebar_scroll(9, 10, 4), 6);
    assert_eq!(sidebar_scroll(10, 10, 4), 6);
    assert_eq!(sidebar_scroll(5, 3, 4), 0);
}

#[test]
fn playlists_pane_lays_out_rows() {
    let mut s = AppState::initial(ImageProtocol::HalfBlock);
    let inner = CellArea { x: 1, y: 4, width: 28, height: 9 };
    assert!(matches!(playlists_pane(&s, inner, 18), PlaylistsPane::Loading));
    s.loaded_playlists = true;
    assert!(matches!(playlists_pane(&s, inner, 18), PlaylistsPane::Empty));
    s.playlists = (0..5).map(playlist).collect();
    s.navigation.selected_index = 3;
    let PlaylistsPane::Rows(rows) = playlists_pane(&s, inner, 18) else { panic!("rows expected") };
    // 9 lines hold two rows of 4; the cursor on entry 3 scrolls by two
    assert_eq!(rows.len(), 2);
    assert_eq!(rows[0].index, 2);
    assert_eq!(rows[0].y, 4);
    assert_eq!(rows[1].index, 3);
    assert_eq!(rows[1].y, 8);
    assert!(rows[1].highlighted);
    assert!(!rows[0].highlighted);
    assert_eq!(rows[1].number, "  4 │ ");
    assert_eq!(rows[1].name, "Playlist nu…");
    assert_eq!(rows[1].detail, "30 tracks  ⊘");
    assert_eq!(rows[0].detail, "20 tracks");
    assert_eq!(rows[0].cover, None);
    s.focus = Focus::Explorer;
    let PlaylistsPane::Rows(rows) = playlists_pane(&s, inner, 18) else { panic!("rows expected") };
    assert!(!rows[1].highlighted);
    let tiny = CellArea { x: 0, y: 0, width: 10, height: 3 };
    let PlaylistsPane::Rows(rows) = playlists_pane(&s, tiny, 0) else { panic!("rows expected") };
    assert!(rows.is_empty());
    s.navigation.selected_index = 5;
    let e = liked_entry(&s);
    assert_eq!(e.number, "  6 │ ");
    assert!(e.selected);
    assert!(!e.highlighted);
}

#[test]
fn explorer_body_and_rows() {
    let mut s = AppState::initial(ImageProtocol::HalfBlock);
    assert_eq!(explorer_body(&s), ExplorerBody::NoListing);
    s.explorer_stack = vec![ExplorerNode::PlaylistTracks("x".to_string(), "X".to_string(), false)];
    assert_eq!(explorer_body(&s), ExplorerBody::NotOwned);
    s.explorer_stack = vec![ExplorerNode::LikedTracks];
    assert_eq!(explorer_body(&s), ExplorerBody::Loading);
    s.explorer_items = vec![track("a", "First"), track("b", "Second song title"), track("", "Local")];
    assert_eq!(explorer_body(&s), ExplorerBody::Tracks);
    assert!(is_compact(119));
    assert!(!is_compact(120));
    assert_eq!(title_width(100), 42);
    assert_eq!(title_width(60), 10);
    s.focus = Focus::Explorer;
    s.explorer_selected_index = 1;
    s.playback = Some(PlaybackState {
        track_id: "a".to_string(),
        track_name: String::new(),
        artist: String::new(),
        album: String::new(),
        album_image_url: None,
        duration_ms: 0,
        progress_ms: 0,
        is_playing: true,
        device_id: None,
    });
    let rows = explorer_rows(&s, 10);
    assert_eq!(rows.len(), 3);
    assert_eq!(rows[0].relative, 1);
    assert_eq!(rows[0].number, "   1 ");
    assert!(rows[0].playing);
    assert_eq!(rows[0].style, RowStyle::Playing);
    assert_eq!(rows[1].style, RowStyle::Cursor);
    assert_eq!(rows[1].title, "Second so…");
    assert_eq!(rows[1].artist, "An Artist With A Rath…");
    assert_eq!(rows[1].time, "1:01");
    assert_eq!(rows[2].style, RowStyle::Plain);
    assert!(!rows[2].playing);
    assert_eq!(table_selection(&s), 1);
    s.explorer_selected_index = 7;
    assert_eq!(table_selection(&s), 2);
}

#[test]
fn cover_slots_follow_the_listing() {
    let mut s = AppState::initial(ImageProtocol::HalfBlock);
    s.explorer_items = (0..10).map(|i| track(&format!("t{i}"), "x")).collect();
    let col = CellArea { x: 2, y: 5, width: 7, height: 13 };
    let slots = row_cover_slots(&s, col);
    // 12 usable lines: four rows of three
    assert_eq!(slots.len(), 4);
    assert_eq!(slots[0].index, 0);
    assert_eq!(slots[0].area, CellArea { x: 2, y: 6, width: 6, height: 3 });
    assert_eq!(slots[3].area.y, 15);
    assert_eq!(slots[3].cover, None);
    s.explorer_selected_index = 6;
    let slots = row_cover_slots(&s, col);
    assert_eq!(slots.len(), 1);
    assert_eq!(slots[0].index, 3);
    assert_eq!(slots[0].area.y, 15);
    s.explorer_selected_index = 7;
    assert!(row_cover_slots(&s, col).is_empty());
}

#[test]
fn detail_panel_geometry_and_text() {
    let inner = CellArea { x: 10, y: 2, width: 40, height: 30 };
    assert_eq!(detail_cover_area(inner, false, false), CellArea { x: 11, y: 2, width: 38, height: 19 });
    assert_eq!(detail_cover_area(inner, false, true), CellArea { x: 11, y: 2, width: 38, height: 30 });
    assert_eq!(detail_cover_area(inner, true, false), CellArea { x: 18, y: 2, width: 24, height: 5 });
    let narrow = CellArea { x: 0, y: 0, width: 20, height: 4 };
    assert_eq!(detail_cover_area(narrow, false, false), CellArea { x: 0, y: 0, width: 20, height: 4 });
    let d = detail_text(&track("a", "A fairly long title"), 10);
    assert_eq!(d.name, "A fairly …");
    assert_eq!(d.album, "Al…");
    assert_eq!(d.time, "1:01");
    let mut s = AppState::initial(ImageProtocol::HalfBlock);
    assert!(!detail_cover_ready(&s, 0));
    s.explorer_items = vec![track("a", "A")];
    assert!(!detail_cover_ready(&s, 0));
}

#[test]
fn profile_header_and_fields() {
    assert_eq!(profile_initial("émile"), 'É');
    assert_eq!(profile_initial("ann"), 'A');
    assert_eq!(profile_initial(""), '?');
    assert_eq!(profile_initial("ßen"), 'S');
    assert!(is_premium(&Some("premium".to_string())));
    assert!(!is_premium(&Some("free".to_string())));
    assert!(!is_premium(&None));
    let p = UserProfile {
        display_name: "Ann".to_string(),
        id: "uid".to_string(),
        email: None,
        country: Some("NO".to_string()),
        product: None,
        followers: 7,
        avatar_url: None,
    };
    let lines: Vec<(String, String)> = profile_fields(&p).into_iter().map(|l| (l.label, l.value)).collect();
    assert_eq!(
        lines,
        vec![
            (format!("{:<12}  ", "ID"), "uid".to_string()),
            (format!("{:<12}  ", "Country"), "NO".to_string()),
            (format!("{:<12}  ", "Followers"), "7".to_string()),
        ]
    );
    let mut s = AppState::initial(ImageProtocol::HalfBlock);
    s.playlists = vec![playlist(1)];
    let q = quick_stats(&s);
    assert_eq!(q[0].label, format!("{:<14}", "Playlists"));
    assert_eq!(q[0].value, "1");
    assert_eq!(q[1].label, format!("{:<14}", "Liked songs"));
    assert_eq!(q[1].value, "0");
}

#[test]
fn library_card_and_listening_time() {
    let stats = UserStats {
        total_liked: 4,
        total_playlists: 2,
        owned_playlists: 1,
        unique_artists: 3,
        unique_albums: 2,
        total_duration_ms: 90_061_000,
        top_artists: vec![],
        top_albums: vec![],
    };
    let lines = library_lines(&stats);
    assert_eq!(lines.len(), 7);
    assert_eq!(lines[0].label, format!("  {:<16}", "Liked tracks"));
    assert_eq!(lines[0].value, "4");
    assert_eq!(lines[5].value, "1d 1h 1m");
    assert_eq!(lines[6].label, format!("  {:<16}", "Avg track"));
    assert_eq!(lines[6].value, "375:15");
    let empty = library_lines(&UserStats::default());
    assert_eq!(empty[6].value, "0:00");
    assert_eq!(time_parts(90_061_000), (1, 1, 1));
    assert_eq!(time_parts(3_599_999), (0, 0, 59));
}

#[test]
fn ranked_lists_shrink_their_bars() {
    let items: Vec<String> = (1..=5).map(|i| format!("Name {i}")).collect();
    let rows = ranked_rows(&items, 3, 20);
    assert_eq!(rows.len(), 3);
    assert_eq!(rows[0].rank, "   1. ");
    assert_eq!((rows[0].filled, rows[0].empty), (8, 0));
    assert_eq!((rows[1].filled, rows[1].empty), (7, 1));
    assert_eq!((rows[2].filled, rows[2].empty), (5, 3));
    assert_eq!(rows[0].label, "Name…");
    let wide = ranked_rows(&items, 3, 21);
    assert_eq!(wide[0].label, "Name 1");
    let narrow = ranked_rows(&items, 3, 19);
    assert_eq!(narrow[0].label, "Nam…");
    let single = ranked_rows(&vec!["Solo".to_string()], 10, 30);
    assert_eq!(single.len(), 1);
    assert_eq!(single[0].filled, 8);
    assert_eq!(single[0].label, "Solo");
    assert!(ranked_rows(&vec![], 5, 30).is_empty());
    let many: Vec<String> = (0..10).map(|i| format!("{i}")).collect();
    let rows = ranked_rows(&many, 12, 30);
    assert_eq!(rows[9].rank, "  10. ");
    assert_eq!(rows[9].filled, 1);
    // narrower boxes shrink the bar, then the rank column; no line overflows
    let tight = ranked_rows(&items, 3, 10);
    assert_eq!(tight[0].rank, "   1. ");
    assert_eq!((tight[0].filled, tight[0].empty, tight[0].gap), (3, 0, true));
    assert_eq!((tight[2].filled, tight[2].empty), (2, 1));
    assert_eq!(tight[0].label, "");
    let tiny = ranked_rows(&items, 3, 4);
    assert_eq!(tiny[0].rank, "   1");
    assert_eq!((tiny[0].filled, tiny[0].empty, tiny[0].gap), (0, 0, false));
    assert_eq!(tiny[0].label, "");
    for w in 0..40u16 {
        for r in ranked_rows(&items, 5, w) {
            let cells = r.rank.chars().count() + r.filled + r.empty + usize::from(r.gap) + r.label.chars().count();
            assert!(cells <= w as usize);
        }
    }
    assert_eq!(pad(CellArea { x: 1, y: 1, width: 10, height: 3 }, 2, 1), CellArea { x: 3, y: 2, width: 6, height: 1 });
}

#[test]
fn notices_sit_bottom_right() {
    let screen = CellArea { x: 0, y: 0, width: 100, height: 40 };
    let a = spot_tty::panes::toast_area("Added to queue: A", screen);
    assert_eq!(a, CellArea { x: 76, y: 36, width: 23, height: 3 });
    let small = CellArea { x: 0, y: 0, width: 10, height: 2 };
    let b = spot_tty::panes::toast_area("a long notice text", small);
    assert_eq!(b, CellArea { x: 0, y: 0, width: 10, height: 3 });
    let accented = spot_tty::panes::toast_area("é", screen);
    assert_eq!(accented.width, 8);
}
