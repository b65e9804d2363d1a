use tweetvault_desktop::text::{
    chars_of, find_in, is_space_char, line_containing, parse_count, split_labels, trim_text, word_at,
};

#[test]
fn find_first_occurrence() {
    let s = chars_of("abcabc");
    let m = chars_of("bc");
    assert_eq!(find_in(&s, &m, 0), Some(1));
    assert_eq!(find_in(&s, &m, 2), Some(4));
    assert_eq!(find_in(&s, &m, 5), None);
    assert_eq!(find_in(&s, &chars_of(""), 6), Some(6));
}

#[test]
fn line_around_marker() {
    assert_eq!(line_containing("a\nxx key yy\nb", "key"), Some("xx key yy".to_string()));
    assert_eq!(line_containing("key", "key"), Some("key".to_string()));
    assert_eq!(line_containing("a\nb", "key"), None);
}

#[test]
fn words_by_position() {
    assert_eq!(word_at("  one\ttwo\n three ", 0), Some("one".to_string()));
    assert_eq!(word_at("  one\ttwo\n three ", 2), Some("three".to_string()));
    assert_eq!(word_at("  one\ttwo\n three ", 3), None);
    assert_eq!(word_at("", 0), None);
}

#[test]
fn parse_decimal() {
    assert_eq!(parse_count("42"), Some(42));
    assert_eq!(parse_count("+0"), Some(0));
    assert_eq!(parse_count("007"), Some(7));
    assert_eq!(parse_count(""), None);
    assert_eq!(parse_count("+"), None);
    assert_eq!(parse_count("4x"), None);
    assert_eq!(parse_count("99999999999"), None);
}

#[test]
fn trim_both_ends() {
    assert_eq!(trim_text(" \t a b \n"), "a b");
    assert_eq!(trim_text("   "), "");
    assert_eq!(trim_text("\u{85}x\u{200a}"), "x");
}

#[test]
fn whitespace_set() {
    assert!(is_space_char(' '));
    assert!(is_space_char('\u{2028}'));
    assert!(!is_space_char('\u{200b}'));
    assert!(!is_space_char('a'));
}

#[test]
fn labels_between_commas() {
    assert_eq!(split_labels(" a ,b,, c "), vec!["a".to_string(), "b".to_string(), "c".to_string()]);
    assert_eq!(split_labels(""), Vec::<String>::new());
    assert_eq!(split_labels(" , "), Vec::<String>::new());
}
