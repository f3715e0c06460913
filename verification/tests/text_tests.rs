use spot_tty::text::{
    decimal_string, fmt_ms, format_clock, format_duration, is_blank, left_aligned, right_aligned, text_contains,
    text_eq, trunc, without_last_char, contains_word,
};

#[test]
fn fmt_ms_shows_minutes_and_two_digit_seconds() {
    assert_eq!(fmt_ms(0), "0:00");
    assert_eq!(fmt_ms(7_000), "0:07");
    assert_eq!(fmt_ms(187_999), "3:07");
    assert_eq!(fmt_ms(3_600_000), "60:00");
}

#[test]
fn format_clock_handles_long_durations() {
    assert_eq!(format_clock(225_000), "3:45");
    assert_eq!(format_clock(10_000_000_000), "166666:40");
}

#[test]
fn format_duration_splits_days_hours_minutes() {
    assert_eq!(format_duration(0), "0d 0h 0m");
    assert_eq!(format_duration(90_061_000), "1d 1h 1m");
    assert_eq!(format_duration(2 * 86_400_000 + 5 * 3_600_000 + 13 * 60_000 + 59_999), "2d 5h 13m");
}

#[test]
fn trunc_keeps_short_text_and_marks_cuts() {
    assert_eq!(trunc("hello", 0), "");
    assert_eq!(trunc("hello", 5), "hello");
    assert_eq!(trunc("hello", 10), "hello");
    assert_eq!(trunc("hello world", 5), "hell…");
    assert_eq!(trunc("héllo wörld", 3), "hé…");
    assert_eq!(trunc("abc", 1), "…");
}

#[test]
fn decimal_and_alignment() {
    assert_eq!(decimal_string(0), "0");
    assert_eq!(decimal_string(18446744073709551615), "18446744073709551615");
    assert_eq!(right_aligned(7, 3), "  7");
    assert_eq!(right_aligned(1234, 3), "1234");
    assert_eq!(left_aligned("ID", 5), "ID   ");
    assert_eq!(left_aligned("Followers", 4), "Followers");
}

#[test]
fn without_last_char_removes_one_character() {
    assert_eq!(without_last_char(""), "");
    assert_eq!(without_last_char("a"), "");
    assert_eq!(without_last_char("héé"), "hé");
}

#[test]
fn text_searches() {
    assert!(text_contains("queue it", "ue i"));
    assert!(text_contains("abc", ""));
    assert!(!text_contains("abc", "abcd"));
    assert!(text_eq("same", "same"));
    assert!(!text_eq("same", "Same"));
    assert!(is_blank(" \t\n"));
    assert!(!is_blank(" x "));
    assert!(contains_word("user-read-email playlist-read-private", "playlist-read-private"));
    assert!(!contains_word("user-read-emails", "user-read-email"));
}
