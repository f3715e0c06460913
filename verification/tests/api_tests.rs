use spot_tty::api::{
    after_get_response, api_url, best_image, cached_token_step, command_outcome, ids_body, playlist_add_url,
    saved_tracks_url, uris_body, devices_from, has_required_scopes,
    hides_listing_error, liked_page_url, next_page_offset, parse_u64, play_body, play_url, playback_from,
    player_body_readable, playlist_context_uri, playlist_item_summaries, playlist_items_url,
    playlist_page_summaries, playlist_summary, playlists_page_url, queue_accepted, queue_url,
    required_scopes, saved_summaries, search_url, to_summary, track_summaries, track_uri, user_profile_from,
    CommandOutcome, GetStep, TokenStep, RawAlbum, RawArtist, RawDevice, RawFollowers, RawImage, RawMe, RawMeta,
    RawOwner, RawPlayer, RawPlayerDevice, RawPlaylist, RawPlaylistItem, RawSaved, RawTrack,
};

fn image(url: &str, width: Option<u32>) -> RawImage {
    RawImage { url: url.to_string(), width }
}

fn raw_track(id: Option<&str>, name: &str) -> RawTrack {
    RawTrack {
        id: id.map(|s| s.to_string()),
        name: name.to_string(),
        duration_ms: 200_000,
        artists: vec![RawArtist { name: "Artist A".to_string() }, RawArtist { name: "Artist B".to_string() }],
        album: Some(RawAlbum {
            name: "Album".to_string(),
            images: Some(vec![image("big", Some(640)), image("mid", Some(300)), image("small", Some(64))]),
        }),
    }
}

#[test]
fn best_image_prefers_the_smallest_of_at_least_300px() {
    assert_eq!(best_image(&None), None);
    assert_eq!(best_image(&Some(vec![])), None);
    let imgs = Some(vec![image("big", Some(640)), image("mid", Some(300)), image("small", Some(64))]);
    assert_eq!(best_image(&imgs), Some("mid".to_string()));
    let small_only = Some(vec![image("a", Some(64)), image("b", Some(32))]);
    assert_eq!(best_image(&small_only), Some("a".to_string()));
    let unknown = Some(vec![image("big", Some(640)), image("unknown", None)]);
    assert_eq!(best_image(&unknown), Some("big".to_string()));
    let only_unknown = Some(vec![image("u1", None), image("u2", None)]);
    assert_eq!(best_image(&only_unknown), Some("u1".to_string()));
}

#[test]
fn to_summary_reads_a_track() {
    let s = to_summary(&raw_track(Some("t1"), "Song"));
    assert_eq!(s.id, "t1");
    assert_eq!(s.name, "Song");
    assert_eq!(s.artist, "Artist A");
    assert_eq!(s.album, "Album");
    assert_eq!(s.album_image_url, Some("mid".to_string()));
    assert_eq!(s.duration_ms, 200_000);
    let bare = to_summary(&RawTrack { id: None, name: "X".to_string(), duration_ms: 1, artists: vec![], album: None });
    assert_eq!(bare.id, "");
    assert_eq!(bare.artist, "");
    assert_eq!(bare.album, "");
    assert_eq!(bare.album_image_url, None);
}

#[test]
fn playlist_summaries_count_tracks_and_ownership() {
    let p = RawPlaylist {
        id: "p1".to_string(),
        name: "Mine".to_string(),
        track_meta_new: Some(RawMeta { total: 12 }),
        tracks: Some(RawMeta { total: 99 }),
        owner: Some(RawOwner { id: "me".to_string() }),
        images: Some(vec![image("cover", None)]),
    };
    let s = playlist_summary(&p, "me");
    assert_eq!(s.track_count, 12);
    assert!(s.owner);
    assert_eq!(s.image_url, Some("cover".to_string()));
    let q = RawPlaylist {
        id: "p2".to_string(),
        name: "Theirs".to_string(),
        track_meta_new: None,
        tracks: Some(RawMeta { total: 7 }),
        owner: Some(RawOwner { id: "other".to_string() }),
        images: None,
    };
    let t = playlist_summary(&q, "me");
    assert_eq!(t.track_count, 7);
    assert!(!t.owner);
    let r = RawPlaylist { id: "p3".to_string(), name: "?".to_string(), track_meta_new: None, tracks: None, owner: None, images: None };
    let u = playlist_summary(&r, "me");
    assert_eq!(u.track_count, 0);
    assert!(!u.owner);
    let all = playlist_page_summaries(&vec![p, q], "me");
    assert_eq!(all.len(), 2);
    assert_eq!(all[1].name, "Theirs");
}

#[test]
fn listing_entries_become_summaries() {
    let items = vec![
        RawPlaylistItem { item: Some(raw_track(Some("new"), "N")), track: Some(raw_track(Some("old"), "O")) },
        RawPlaylistItem { item: None, track: Some(raw_track(Some("old2"), "O2")) },
        RawPlaylistItem { item: None, track: None },
    ];
    let s = playlist_item_summaries(&items);
    assert_eq!(s.len(), 2);
    assert_eq!(s[0].id, "new");
    assert_eq!(s[1].id, "old2");
    let saved = saved_summaries(&vec![RawSaved { track: raw_track(Some("liked"), "L") }]);
    assert_eq!(saved.len(), 1);
    assert_eq!(saved[0].id, "liked");
    let found = track_summaries(&vec![raw_track(None, "A"), raw_track(Some("b"), "B")], 20);
    assert_eq!(found.len(), 2);
    assert_eq!(found[0].id, "");
}

#[test]
fn search_results_stop_at_the_limit_and_at_fifty() {
    let page: Vec<RawTrack> = (0..60).map(|i| raw_track(Some(&format!("t{i}")), "T")).collect();
    let few = track_summaries(&page, 3);
    let ids: Vec<&str> = few.iter().map(|t| t.id.as_str()).collect();
    assert_eq!(ids, vec!["t0", "t1", "t2"]);
    assert_eq!(track_summaries(&page, 51).len(), 50);
    assert_eq!(track_summaries(&page, 0).len(), 0);
    assert_eq!(
        search_url("x", 60),
        Some("https://api.spotify.com/v1/search?q=x&type=track&limit=50".to_string())
    );
}

#[test]
fn devices_without_id_are_left_out() {
    let raw = vec![
        RawDevice { id: None, name: "ghost".to_string(), is_active: true },
        RawDevice { id: Some("d1".to_string()), name: "Speaker".to_string(), is_active: false },
    ];
    let d = devices_from(&raw);
    assert_eq!(d.len(), 1);
    assert_eq!(d[0].id, "d1");
    assert_eq!(d[0].name, "Speaker");
    assert!(!d[0].is_active);
}

#[test]
fn user_profile_reads_the_me_object() {
    let me = RawMe {
        id: "uid".to_string(),
        display_name: None,
        email: Some("a@b.c".to_string()),
        country: Some("SE".to_string()),
        product: Some("premium".to_string()),
        followers: Some(RawFollowers { total: 42 }),
        images: Some(vec![image("avatar", Some(300))]),
    };
    let p = user_profile_from(&me);
    assert_eq!(p.display_name, "uid");
    assert_eq!(p.id, "uid");
    assert_eq!(p.email, Some("a@b.c".to_string()));
    assert_eq!(p.country, Some("SE".to_string()));
    assert_eq!(p.product, Some("premium".to_string()));
    assert_eq!(p.followers, 42);
    assert_eq!(p.avatar_url, Some("avatar".to_string()));
}

#[test]
fn playback_reads_the_player_object() {
    let none = RawPlayer { is_playing: true, progress_ms: Some(5), item: None, device: None };
    assert!(playback_from(&none).is_none());
    let p = RawPlayer {
        is_playing: false,
        progress_ms: None,
        item: Some(raw_track(Some("t9"), "Nine")),
        device: Some(RawPlayerDevice { id: Some("dev".to_string()) }),
    };
    let s = playback_from(&p).unwrap();
    assert_eq!(s.track_id, "t9");
    assert_eq!(s.track_name, "Nine");
    assert_eq!(s.artist, "Artist A");
    assert_eq!(s.album, "Album");
    assert_eq!(s.album_image_url, Some("mid".to_string()));
    assert_eq!(s.progress_ms, 0);
    assert!(!s.is_playing);
    assert_eq!(s.device_id, Some("dev".to_string()));
}

#[test]
fn paging_stops_on_an_empty_page_or_the_last_link() {
    assert_eq!(next_page_offset(0, 50, true), Some(50));
    assert_eq!(next_page_offset(50, 13, false), None);
    assert_eq!(next_page_offset(100, 0, true), None);
}

#[test]
fn rate_limited_gets_are_retried_then_given_up() {
    assert_eq!(after_get_response(0, 429, Some("3")), GetStep::Retry { attempt: 1, sleep_secs: 4 });
    assert_eq!(after_get_response(1, 429, None), GetStep::Retry { attempt: 2, sleep_secs: 6 });
    assert_eq!(after_get_response(2, 429, Some("soon")), GetStep::Retry { attempt: 3, sleep_secs: 6 });
    assert_eq!(after_get_response(3, 429, Some("+10")), GetStep::Retry { attempt: 4, sleep_secs: 11 });
    assert_eq!(after_get_response(4, 429, Some("1")), GetStep::GiveUp);
    assert_eq!(after_get_response(0, 500, None), GetStep::Failed);
    assert_eq!(after_get_response(0, 301, None), GetStep::Failed);
    assert_eq!(after_get_response(0, 200, None), GetStep::Parse);
    assert_eq!(after_get_response(0, 204, None), GetStep::Parse);
}

#[test]
fn parse_u64_reads_like_from_str() {
    assert_eq!(parse_u64("0"), Some(0));
    assert_eq!(parse_u64("+42"), Some(42));
    assert_eq!(parse_u64("18446744073709551615"), Some(u64::MAX));
    assert_eq!(parse_u64("18446744073709551616"), None);
    assert_eq!(parse_u64(""), None);
    assert_eq!(parse_u64("+"), None);
    assert_eq!(parse_u64("-1"), None);
    assert_eq!(parse_u64("1 "), None);
    for s in ["7", "+7", "x", "007", "99999999999999999999"] {
        assert_eq!(parse_u64(s), s.parse::<u64>().ok());
    }
}

#[test]
fn command_statuses_are_classified() {
    assert_eq!(command_outcome(200), CommandOutcome::Done);
    assert_eq!(command_outcome(204), CommandOutcome::Done);
    assert_eq!(command_outcome(404), CommandOutcome::NoActiveDevice);
    assert_eq!(command_outcome(403), CommandOutcome::Failed);
    assert!(queue_accepted(204));
    assert!(!queue_accepted(404));
    assert!(player_body_readable(200, "{}"));
    assert!(!player_body_readable(204, "{}"));
    assert!(!player_body_readable(500, "{}"));
    assert!(!player_body_readable(200, ""));
    assert!(hides_listing_error("HTTP 403 Forbidden: {}"));
    assert!(!hides_listing_error("HTTP 404 Not Found"));
}

#[test]
fn request_urls() {
    assert_eq!(api_url("/me"), "https://api.spotify.com/v1/me");
    assert_eq!(playlists_page_url(100), "https://api.spotify.com/v1/me/playlists?limit=50&offset=100");
    assert_eq!(playlist_items_url("abc", 0), "https://api.spotify.com/v1/playlists/abc/items?limit=50&offset=0");
    assert_eq!(liked_page_url(50), "https://api.spotify.com/v1/me/tracks?limit=50&offset=50");
    assert_eq!(play_url(None), "https://api.spotify.com/v1/me/player/play");
    assert_eq!(play_url(Some("d1")), "https://api.spotify.com/v1/me/player/play?device_id=d1");
    assert_eq!(queue_url("t1"), "https://api.spotify.com/v1/me/player/queue?uri=spotify:track:t1");
    assert_eq!(track_uri("t1"), "spotify:track:t1");
    assert_eq!(playlist_context_uri("p1"), "spotify:playlist:p1");
}

#[test]
fn search_url_encodes_the_query() {
    assert_eq!(search_url("   ", 30), None);
    assert_eq!(
        search_url("daft punk/é", 30),
        Some("https://api.spotify.com/v1/search?q=daft%20punk%2F%C3%A9&type=track&limit=30".to_string())
    );
    assert_eq!(
        search_url("a-b_c.d~e", 5),
        Some("https://api.spotify.com/v1/search?q=a-b_c.d~e&type=track&limit=5".to_string())
    );
}

#[test]
fn play_body_is_json() {
    assert_eq!(play_body("spotify:track:t1", None), "{\"uris\":[\"spotify:track:t1\"]}");
    assert_eq!(
        play_body("spotify:track:t1", Some("spotify:playlist:p\"1")),
        "{\"context_uri\":\"spotify:playlist:p\\\"1\",\"offset\":{\"uri\":\"spotify:track:t1\"}}"
    );
    let body: serde_json::Value =
        serde_json::from_str(&play_body("spotify:track:x", Some("spotify:playlist:y"))).unwrap();
    assert_eq!(body["offset"]["uri"], "spotify:track:x");
}

#[test]
fn scopes_must_all_be_granted() {
    let all = required_scopes().join(" ");
    assert_eq!(required_scopes().len(), 12);
    assert!(has_required_scopes(&vec![all.clone()]));
    let missing = all.replace("user-read-currently-playing", "");
    assert!(!has_required_scopes(&vec![missing]));
    let split: Vec<String> = required_scopes().iter().map(|s| s.to_string()).collect();
    assert!(has_required_scopes(&split));
    assert!(!has_required_scopes(&vec![]));
}

#[test]
fn a_cached_token_is_checked_before_use() {
    let all: Vec<String> = required_scopes().iter().map(|s| s.to_string()).collect();
    let partial = vec!["user-read-private".to_string()];
    assert_eq!(cached_token_step(&None, None), TokenStep::SignIn);
    assert_eq!(cached_token_step(&Some(partial.clone()), None), TokenStep::DiscardAndSignIn);
    assert_eq!(cached_token_step(&Some(partial), Some(true)), TokenStep::DiscardAndSignIn);
    assert_eq!(cached_token_step(&Some(all.clone()), None), TokenStep::Verify);
    assert_eq!(cached_token_step(&Some(all.clone()), Some(true)), TokenStep::UseCached);
    assert_eq!(cached_token_step(&Some(all), Some(false)), TokenStep::SignIn);
}

#[test]
fn like_and_playlist_requests_carry_the_track_in_the_body() {
    assert_eq!(saved_tracks_url(), "https://api.spotify.com/v1/me/tracks");
    assert_eq!(ids_body("4iV5W9uYEdYUVa79Axb7Rh"), "{\"ids\":[\"4iV5W9uYEdYUVa79Axb7Rh\"]}");
    assert_eq!(ids_body("a\"b"), "{\"ids\":[\"a\\\"b\"]}");
    assert_eq!(playlist_add_url("p9"), "https://api.spotify.com/v1/playlists/p9/tracks");
    assert_eq!(uris_body("spotify:track:t1"), "{\"uris\":[\"spotify:track:t1\"]}");
}
