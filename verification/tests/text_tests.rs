use sparkspeech::text::text_contains;
use sparkspeech::text::{
    append_text_fragment, blank, count_text_chars, format_duration_for_log, is_whitespace,
    merge_realtime_text, parse_u64, push_decimal, transcript_preview_lines, trimmed,
};

#[test]
fn whitespace_matches_std_for_every_char() {
    for code in 0u32..=0x10FFFF {
        if let Some(c) = char::from_u32(code) {
            assert_eq!(is_whitespace(c), c.is_whitespace(), "code point {code:#x}");
        }
    }
}

#[test]
fn trims_like_std() {
    for text in ["", "  ", " a ", "\u{3000}你好\u{3000}", "\t\nx y\r\n", "a"] {
        assert_eq!(trimmed(text), text.trim());
        assert_eq!(blank(text), text.trim().is_empty());
    }
}

#[test]
fn counts_characters_without_white_space() {
    assert_eq!(count_text_chars(" a b\tc\n"), 3);
    assert_eq!(count_text_chars("你好 世界"), 4);
    assert_eq!(count_text_chars(""), 0);
}

#[test]
fn formats_durations_as_minutes_and_seconds() {
    assert_eq!(format_duration_for_log(0), "00:00");
    assert_eq!(format_duration_for_log(61_000), "01:01");
    assert_eq!(format_duration_for_log(59_999), "00:59");
    assert_eq!(format_duration_for_log(6_000_000), "100:00");
}

#[test]
fn parses_unsigned_numbers_like_std() {
    for text in ["0", "42", "+7", "", "+", "-1", "1a", " 1", "18446744073709551615", "18446744073709551616", "007"] {
        assert_eq!(parse_u64(text), text.parse::<u64>().ok(), "{text:?}");
    }
}

#[test]
fn decimal_text_reads_back() {
    for n in [0u64, 9, 10, 12345, u64::MAX] {
        let mut s = String::new();
        push_decimal(&mut s, n);
        assert_eq!(s, n.to_string());
        assert_eq!(parse_u64(&s), Some(n));
    }
}

#[test]
fn merges_growing_realtime_text() {
    assert_eq!(merge_realtime_text("你好", "你好世界"), "你好世界");
}

#[test]
fn merge_keeps_previous_when_incoming_is_blank_or_a_suffix() {
    assert_eq!(merge_realtime_text(" 今天天气 ", "  "), "今天天气");
    assert_eq!(merge_realtime_text("今天天气很好", "很好"), "今天天气很好");
}

#[test]
fn merge_appends_new_text_with_space_between_ascii_words() {
    assert_eq!(merge_realtime_text("hello", "world"), "hello world");
    assert_eq!(merge_realtime_text("你好", "世界"), "你好世界");
    assert_eq!(merge_realtime_text("", " abc "), "abc");
}

#[test]
fn appending_a_fragment_twice_changes_nothing() {
    let mut target = String::from("abc");
    append_text_fragment(&mut target, " def ");
    assert_eq!(target, "abc def");
    append_text_fragment(&mut target, " def ");
    assert_eq!(target, "abc def");
    append_text_fragment(&mut target, "   ");
    assert_eq!(target, "abc def");
}

#[test]
fn preview_keeps_last_140_characters() {
    assert!(transcript_preview_lines("   ").is_empty());
    assert_eq!(transcript_preview_lines(" 短句 "), vec!["短句".to_string()]);
    let long: String = std::iter::repeat('字').take(150).collect::<String>() + "尾";
    let lines = transcript_preview_lines(&long);
    assert_eq!(lines.len(), 1);
    assert_eq!(lines[0].chars().count(), 140);
    assert!(lines[0].ends_with('尾'));
}

#[test]
fn text_contains_finds_any_occurrence() {
    assert!(text_contains("HTTP error: 401 Unauthorized", "401"));
    assert!(text_contains("abc", ""));
    assert!(text_contains("你好世界", "世界"));
    assert!(!text_contains("40", "401"));
    assert!(!text_contains("HTTP error: 403", "401"));
}

#[test]
fn merging_again_changes_nothing() {
    for (previous, incoming) in [("  hello ", " world "), ("你好", "你好世界"), ("abc", "bc"), ("x", "  ")] {
        let once = merge_realtime_text(previous, incoming);
        assert_eq!(once, once.trim());
        assert_eq!(merge_realtime_text(&once, incoming), once);
    }
    assert_eq!(merge_realtime_text("  hello ", " world "), "hello world");
}
