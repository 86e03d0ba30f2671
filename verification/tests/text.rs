use calibrate::text::{
    begins_with, can_truncate, contains, decimal_text, drop_start, finishes_with, join_texts,
    lines_of, pad_left, pad_right, parse_u32, parse_within, replace_char, same_ignoring_case,
    split_text, trimmed, truncate, words_of,
};
use calibrate::time::{day_text, minute_text, EARLIEST, LATEST};

#[test]
fn times_are_shown_in_utc() {
    assert_eq!(day_text(0), "1970-01-01");
    assert_eq!(minute_text(0), "1970-01-01 00:00 UTC");
    assert_eq!(minute_text(-1), "1969-12-31 23:59 UTC");
    assert_eq!(day_text(951_782_400), "2000-02-29");
    assert_eq!(day_text(EARLIEST), "-262143-01-01");
    assert_eq!(minute_text(LATEST), "+262142-12-31 23:59 UTC");
}

#[test]
fn texts_are_searched() {
    assert!(contains("training loop", "ing l"));
    assert!(contains("abc", ""));
    assert!(!contains("abc", "abcd"));
    assert!(begins_with("--pid 3", "--") && finishes_with("80gb", "gb"));
    assert!(same_ignoring_case("RunPod", "rUNpOD") && !same_ignoring_case("Ä", "ä"));
}

#[test]
fn texts_are_taken_apart_and_joined() {
    assert_eq!(split_text("a,,b", ','), vec!["a", "", "b"]);
    assert_eq!(words_of("  a\t b\nc "), vec!["a", "b", "c"]);
    assert_eq!(lines_of("a\r\nb\n"), vec!["a", "b"]);
    assert_eq!(trimmed(" \t x y \n"), "x y");
    assert_eq!(join_texts(&vec!["a".to_string(), "b".to_string()], ", "), "a, b");
    assert_eq!(drop_start("tesla t4", "tesla "), "t4");
    assert_eq!(replace_char("a-b-c", '-', ' '), "a b c");
}

#[test]
fn numbers_are_read_and_written() {
    for n in [0, 7, 10, 12345, u64::MAX] {
        assert_eq!(decimal_text(n), n.to_string());
        assert_eq!(parse_within(&decimal_text(n), u64::MAX), Some(n));
    }
    assert_eq!(parse_u32("4294967295"), Some(u32::MAX));
    assert_eq!(parse_u32("4294967296"), None);
    assert_eq!(parse_u32(""), None);
    assert_eq!(parse_u32("-1"), None);
    assert_eq!(parse_u32("+5"), Some(5));
}

#[test]
fn fields_are_padded_by_characters() {
    assert_eq!(pad_right("Δ", 3), "Δ  ");
    assert_eq!(pad_left("ab", 4), "  ab");
    assert_eq!(pad_left("abcde", 4), "abcde");
}

#[test]
fn texts_are_cut_between_characters() {
    assert!(can_truncate("aé", 1) && !can_truncate("aé", 2));
    assert_eq!(truncate("aéz", 3), "aé…");
}
