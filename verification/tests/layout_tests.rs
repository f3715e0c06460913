use spot_tty::cover::CellArea;
use spot_tty::layout::{playlist_columns, playlist_text_width, split};

#[test]
fn the_screen_splits_into_sidebar_main_and_player() {
    let a = split(CellArea { x: 0, y: 0, width: 120, height: 40 });
    assert_eq!(a.sidebar, CellArea { x: 0, y: 0, width: 30, height: 37 });
    assert_eq!(a.main, CellArea { x: 30, y: 0, width: 90, height: 37 });
    assert_eq!(a.player, CellArea { x: 0, y: 37, width: 120, height: 3 });
}

#[test]
fn playlist_rows_leave_room_for_the_cover() {
    let inner = CellArea { x: 1, y: 4, width: 28, height: 20 };
    let (cover, text) = playlist_columns(inner);
    assert_eq!(cover, CellArea { x: 1, y: 4, width: 9, height: 4 });
    assert_eq!(text, CellArea { x: 10, y: 4, width: 19, height: 4 });
    assert_eq!(playlist_text_width(inner), 18);
}
