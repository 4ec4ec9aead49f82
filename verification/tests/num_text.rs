use sentiment_analyzer::num::{parse_scaled, format_scaled};
use sentiment_analyzer::text::{split_lines, truncate_display};

#[test]
fn parse_scaled_basic() {
    assert_eq!(parse_scaled("0.05"), Some(500));
    assert_eq!(parse_scaled("-0.05"), Some(-500));
    assert_eq!(parse_scaled("0.1"), Some(1000));
    assert_eq!(parse_scaled("0.2"), Some(2000));
    assert_eq!(parse_scaled("1.5"), Some(15000));
    assert_eq!(parse_scaled("2"), Some(20000));
    assert_eq!(parse_scaled("0.6369"), Some(6369));
    assert_eq!(parse_scaled("-0.6369"), Some(-6369));
    assert_eq!(parse_scaled("0.0000"), Some(0));
}

#[test]
fn parse_scaled_rejects_malformed() {
    assert_eq!(parse_scaled(""), None);
    assert_eq!(parse_scaled("-"), None);
    assert_eq!(parse_scaled("abc"), None);
    assert_eq!(parse_scaled(".5"), None);
    assert_eq!(parse_scaled("5."), None);
    assert_eq!(parse_scaled("0.12345"), None);
    assert_eq!(parse_scaled("1.2.3"), None);
    assert_eq!(parse_scaled("1 "), None);
    assert_eq!(parse_scaled("123456789012345"), None);
}

#[test]
fn format_scaled_basic() {
    assert_eq!(format_scaled(500), "0.0500");
    assert_eq!(format_scaled(-500), "-0.0500");
    assert_eq!(format_scaled(0), "0.0000");
    assert_eq!(format_scaled(6369), "0.6369");
    assert_eq!(format_scaled(15000), "1.5000");
    assert_eq!(format_scaled(-516), "-0.0516");
    assert_eq!(format_scaled(123456), "12.3456");
}

#[test]
fn format_parse_round_trip() {
    for v in [0i64, 1, -1, 500, -500, 9999, 10000, 123456, -987654] {
        assert_eq!(parse_scaled(&format_scaled(v)), Some(v));
    }
}

#[test]
fn truncate_keeps_short_text() {
    assert_eq!(truncate_display("hello"), "hello");
    let exactly_50 = "x".repeat(50);
    assert_eq!(truncate_display(&exactly_50), exactly_50);
}

#[test]
fn truncate_cuts_long_text() {
    let long = "a".repeat(70);
    let cut = truncate_display(&long);
    assert_eq!(cut.chars().count(), 50);
    assert_eq!(cut, "a".repeat(50));
}

#[test]
fn truncate_cuts_on_character_boundaries() {
    let long = "é".repeat(60);
    let cut = truncate_display(&long);
    assert_eq!(cut.chars().count(), 50);
    assert_eq!(cut, "é".repeat(50));
}

#[test]
fn split_lines_keeps_blank_lines() {
    let lines = split_lines("a\nb\r\n\nc");
    assert_eq!(lines, vec!["a", "b", "", "c"]);
}

#[test]
fn split_lines_trailing_newline() {
    assert_eq!(split_lines("a\nb\n"), vec!["a", "b"]);
    assert_eq!(split_lines(""), Vec::<String>::new());
    assert_eq!(split_lines("\n"), vec![""]);
}
