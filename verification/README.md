# spot_tty

A Spotify client for the terminal, whose core is proved correct with Verus.

## Layout

- `src/` — the verified library:
  - `state.rs`, `reducer.rs`, `app.rs` — the application state, its
    mathematical view and well-formedness, and the event reducer with an
    exact contract per event.
  - `control.rs` — what every key does in every key-reading mode.
  - `schedule.rs` — the playback clock, which covers to fetch, when to
    fetch the explorer's listing, and when to send a search to the catalog.
  - `panes.rs`, `profile_view.rs`, `layout.rs` — what each pane shows: rows in
    view, cell texts, highlights and cover placement.
  - `api.rs`, `settings.rs` — the Spotify Web API rules: URLs, request bodies,
    retry and status handling, reading the responses, and the sign-in steps
    with a cached token.
  - `stats.rs`, `model.rs` — the library records and their statistics.
  - `cover.rs`, `encoding.rs` — the Kitty and iTerm2 image escape sequences,
    Base64 and the cover cache's file names.
  - `text.rs`, `trackmenu.rs`, `profile.rs` — text formatting, the track
    action menu and the profile overlay's navigation.
  - `laws.rs` — properties that span several events or keys.
- `app/` — the terminal program: HTTP, OAuth, the disk cache, the event loop
  and drawing with ratatui.
- `tests/` — tests of the library on concrete values.

Verify with Verus on `src/lib.rs`; the tests and the program build with Cargo.
