use clippie::tui::components::{
    PREVIEW_HEADER_LINES,
    delete_confirmation_title, delete_preview, display_line, entry_segments, find_occurrences,
    first_match_line, follow_preview, format_relative_date, line_matches, split_at_ranges, split_words, status_badge, wrap_text,
    PatternType, Segment, SegmentKind, StatusBadge,
};
use clippie::tui::patterns::{
    char_index_at, char_utf8_len, find_patterns, highlight_patterns, highlight_search,
};

fn shape(segments: &[Segment]) -> Vec<(&str, SegmentKind)> {
    segments.iter().map(|s| (s.text.as_str(), s.kind)).collect()
}

#[test]
fn test_format_relative_date_now() {
    let now = 1_700_000_000;
    assert_eq!(format_relative_date(now, now), "now");
}

#[test]
fn test_format_relative_date_minutes_ago() {
    let now = 1_700_000_000;
    let date = now - 5 * 60;
    assert_eq!(format_relative_date(date, now), "5m ago");
}

#[test]
fn test_find_patterns_email() {
    let patterns = find_patterns("Contact: user@example.com");
    assert_eq!(patterns.len(), 1);
    assert!(matches!(patterns[0].2, PatternType::Email));
}

#[test]
fn test_find_patterns_url() {
    let patterns = find_patterns("Visit https://example.com");
    assert_eq!(patterns.len(), 1);
    assert!(matches!(patterns[0].2, PatternType::Url));
}

#[test]
fn test_wrap_text() {
    let wrapped = wrap_text("hello world test", 10);
    assert_eq!(wrapped.len(), 2);
}

#[test]
fn test_highlight_search() {
    let spans = highlight_search("Hello World", "world");
    assert_eq!(spans.len(), 2);
}

#[test]
fn test_highlight_search_unicode() {
    let spans = highlight_search("H\u{e9}llo W\u{f6}rld", "w\u{f6}rld");
    assert_eq!(spans.len(), 2);
}

#[test]
fn test_highlight_search_empty_text() {
    let spans = highlight_search("", "query");
    assert_eq!(spans.len(), 1);
}

#[test]
fn test_highlight_search_query_longer_than_text() {
    let spans = highlight_search("ab", "abcdef");
    assert_eq!(spans.len(), 1);
}

#[test]
fn relative_dates() {
    let now = 1_000_000_000;
    assert_eq!(format_relative_date(now + 500, now), "now");
    assert_eq!(format_relative_date(now - 59, now), "now");
    assert_eq!(format_relative_date(now - 60, now), "1m ago");
    assert_eq!(format_relative_date(now - 3599, now), "59m ago");
    assert_eq!(format_relative_date(now - 3600, now), "1h ago");
    assert_eq!(format_relative_date(now - 86_399, now), "23h ago");
    assert_eq!(format_relative_date(now - 86_400, now), "1d ago");
    assert_eq!(format_relative_date(now - 6 * 86_400, now), "6d ago");
    assert_eq!(format_relative_date(now - 7 * 86_400, now), "1w ago");
    assert_eq!(format_relative_date(now - 34 * 86_400, now), "4w ago");
    assert_eq!(format_relative_date(now - 35 * 86_400, now), "1mo ago");
    assert_eq!(format_relative_date(now - 400 * 86_400, now), "13mo ago");
    assert_eq!(format_relative_date(i64::MIN, i64::MAX), "7116799411153mo ago");
}

#[test]
fn status_bar() {
    assert_eq!(status_badge(true, "x", true, true), StatusBadge::Quit);
    assert_eq!(status_badge(true, "x", false, true), StatusBadge::Delete);
    assert_eq!(status_badge(true, "", false, false), StatusBadge::Filter);
    assert_eq!(status_badge(false, "x", false, false), StatusBadge::Filtered);
    assert_eq!(status_badge(false, "", false, false), StatusBadge::Normal);
    assert_eq!(StatusBadge::Delete.label(), " DELETE ");
    assert_eq!(StatusBadge::Filter.help(), " Type to filter  Enter:Keep  Esc:Clear ");
    assert_eq!(StatusBadge::Normal.help(), StatusBadge::Filtered.help());
    assert_eq!(
        StatusBadge::Normal.help(),
        " q:Quit  j/k:Nav  Enter:Copy  /:Filter  d/x:Del  D:Bulk  r:Refresh  h/l:Scroll "
    );
    assert_eq!(delete_confirmation_title(true, 0), " CONFIRM DELETION (1/3) ");
    assert_eq!(delete_confirmation_title(true, 2), " CONFIRM DELETION (3/3) ");
    assert_eq!(delete_confirmation_title(false, 2), " Confirm Deletion ");
}

#[test]
fn preview_follows_the_first_match() {
    assert_eq!(follow_preview(0, None, 100, 20), 0);
    assert_eq!(follow_preview(0, Some(10), 100, 20), 0);
    assert_eq!(follow_preview(0, Some(20), 100, 20), 15);
    assert_eq!(follow_preview(50, Some(3), 100, 20), 0);
    assert_eq!(follow_preview(50, Some(30), 100, 20), 25);
    assert_eq!(follow_preview(0, Some(99), 100, 20), 80);
    assert_eq!(follow_preview(90, None, 100, 20), 80);
    assert_eq!(follow_preview(5, None, 10, 20), 0);
}

#[test]
fn wrapping() {
    assert_eq!(wrap_text("hello world test", 10), vec!["hello", "world test"]);
    assert_eq!(wrap_text("hello world test", 11), vec!["hello world", "test"]);
    assert_eq!(wrap_text("  a   b  ", 3), vec!["a b"]);
    assert_eq!(wrap_text("abcdefgh ij", 4), vec!["abcdefgh", "ij"]);
    assert_eq!(wrap_text("ij abcdefgh kl", 4), vec!["ij", "abcdefgh", "kl"]);
    assert_eq!(wrap_text("as is", 0), vec!["as is"]);
    assert_eq!(wrap_text("", 5), vec![""]);
    assert!(wrap_text("   ", 5).is_empty());
    let chars: Vec<char> = " ab\tcd\u{3000}e ".chars().collect();
    assert_eq!(split_words(&chars), vec![(1, 3), (4, 6), (7, 8)]);
}

#[test]
fn search_highlights() {
    let spans = highlight_search("Hello World", "world");
    assert_eq!(shape(&spans), vec![("Hello ", SegmentKind::Plain), ("World", SegmentKind::Match)]);
    let spans = highlight_search("abcabcab", "ABC");
    assert_eq!(
        shape(&spans),
        vec![("abc", SegmentKind::Match), ("abc", SegmentKind::Match), ("ab", SegmentKind::Plain)]
    );
    let spans = highlight_search("aaaa", "aa");
    assert_eq!(shape(&spans), vec![("aa", SegmentKind::Match), ("aa", SegmentKind::Match)]);
    let spans = highlight_search("nothing here", "zzz");
    assert_eq!(shape(&spans), vec![("nothing here", SegmentKind::Plain)]);
    let spans = highlight_search("mail a@b.io", "");
    assert_eq!(
        shape(&spans),
        vec![("mail ", SegmentKind::Plain), ("a@b.io", SegmentKind::Pattern(PatternType::Email))]
    );
    let text: Vec<char> = "abab".chars().collect();
    let query: Vec<char> = "ab".chars().collect();
    assert_eq!(find_occurrences(&text, &query), vec![(0, 2), (2, 2)]);
    assert!(find_occurrences(&text, &Vec::new()).is_empty());
}

#[test]
fn patterns() {
    let found = find_patterns("id 123e4567-e89b-12d3-a456-426614174000 at 10.0.0.1");
    assert_eq!(found, vec![(3, 39, PatternType::Uuid), (43, 51, PatternType::Ip)]);
    let found = find_patterns("token=abc see http://x.y/z");
    assert_eq!(found, vec![(0, 9, PatternType::Secret), (14, 26, PatternType::Url)]);
    let found = find_patterns("https://user@example.com/path");
    assert_eq!(found, vec![(0, 29, PatternType::Url)]);
    assert!(find_patterns("plain words").is_empty());
    let spans = highlight_patterns("\u{e9}t\u{e9} a@b.io \u{2713}");
    assert_eq!(
        shape(&spans),
        vec![
            ("\u{e9}t\u{e9} ", SegmentKind::Plain),
            ("a@b.io", SegmentKind::Pattern(PatternType::Email)),
            (" \u{2713}", SegmentKind::Plain)
        ]
    );
    assert_eq!(shape(&highlight_patterns("")), vec![("", SegmentKind::Plain)]);
    assert_eq!(PatternType::Ip.pattern(), "\\b(?:\\d{1,3}\\.){3}\\d{1,3}\\b");
}

#[test]
fn byte_offsets_become_character_offsets() {
    let text = "a\u{e9}\u{2713}\u{1f600}z";
    let chars: Vec<char> = text.chars().collect();
    for c in &chars {
        assert_eq!(char_utf8_len(*c), c.len_utf8());
    }
    let mut at = 0;
    for (index, c) in chars.iter().enumerate() {
        assert_eq!(char_index_at(&chars, at), Some(index));
        at += c.len_utf8();
    }
    assert_eq!(char_index_at(&chars, text.len()), Some(chars.len()));
    assert_eq!(char_index_at(&chars, 2), None);
    assert_eq!(char_index_at(&chars, text.len() + 1), None);
}

#[test]
fn entry_rows() {
    let line: String = display_line("a\r\nb", 10).into_iter().collect();
    assert_eq!(line, "a\u{21b5}b");
    let line: String = display_line("abcdefghij", 5).into_iter().collect();
    assert_eq!(line, "abcd\u{2026}");
    let line: String = display_line("abc", 0).into_iter().collect();
    assert_eq!(line, "\u{2026}");
    let row = entry_segments("Hello World", "", 40);
    assert_eq!(shape(&row), vec![("Hello World", SegmentKind::Plain)]);
    let row = entry_segments("Hello World", "wor", 40);
    assert_eq!(shape(&row), vec![("Hello ", SegmentKind::Plain), ("Wor", SegmentKind::Match), ("ld", SegmentKind::Plain)]);
    let row = entry_segments("Hello World", "hw", 40);
    assert_eq!(
        shape(&row),
        vec![
            ("H", SegmentKind::Match),
            ("ello ", SegmentKind::Plain),
            ("W", SegmentKind::Match),
            ("orld", SegmentKind::Plain)
        ]
    );
    let row = entry_segments("Hello", "xyz", 40);
    assert_eq!(shape(&row), vec![("Hello", SegmentKind::Plain)]);
    let chars: Vec<char> = "abcdef".chars().collect();
    let cut = split_at_ranges(&chars, &vec![(1, 2, SegmentKind::Match), (0, 1, SegmentKind::Match), (5, 9, SegmentKind::Match)]);
    assert_eq!(
        shape(&cut),
        vec![("a", SegmentKind::Plain), ("bc", SegmentKind::Match), ("def", SegmentKind::Plain)]
    );
}

#[test]
fn delete_previews() {
    assert_eq!(delete_preview("a\nb"), "a\u{21b5}b");
    let long = "x".repeat(101);
    assert_eq!(delete_preview(&long), format!("{}...", "x".repeat(100)));
    let exact = "y".repeat(100);
    assert_eq!(delete_preview(&exact), exact);
}

#[test]
fn preview_lines_that_hold_the_filter() {
    assert!(line_matches("Hello World", "WORLD"));
    assert!(line_matches("Hello World", "o w"));
    assert!(!line_matches("Hello World", "hw"));
    assert!(line_matches("anything", ""));
    assert!(!line_matches("", "x"));
}

#[test]
fn rows_stay_plain_where_folding_changes_their_length() {
    // The capital I with a dot is two characters in lower case.
    let row = entry_segments("\u{130}stanbul", "bul", 40);
    assert_eq!(shape(&row), vec![("\u{130}stanbul", SegmentKind::Plain)]);
    let row = entry_segments("Istanbul", "bul", 40);
    assert_eq!(shape(&row), vec![("Istan", SegmentKind::Plain), ("bul", SegmentKind::Match)]);
}

fn preview_of(body: &[&str]) -> Vec<String> {
    let mut lines = vec!["\u{2500} 2024-01-15 10:30:00".to_string(), String::new()];
    lines.extend(body.iter().map(|l| l.to_string()));
    lines
}

#[test]
fn first_preview_line_that_holds_the_filter() {
    let lines = preview_of(&["alpha", "Beta gamma", "beta again"]);
    assert_eq!(PREVIEW_HEADER_LINES, 2);
    assert_eq!(first_match_line(&lines, "BETA"), Some(3));
    assert_eq!(first_match_line(&lines, "again"), Some(4));
    assert_eq!(first_match_line(&lines, "alpha"), Some(2));
    assert_eq!(first_match_line(&lines, "delta"), None);
}

#[test]
fn no_preview_line_without_a_filter() {
    let lines = preview_of(&["alpha", "beta"]);
    assert_eq!(first_match_line(&lines, ""), None);
    assert_eq!(first_match_line(&Vec::new(), "a"), None);
    assert_eq!(first_match_line(&preview_of(&[]), "a"), None);
}

#[test]
fn preview_header_is_not_searched() {
    let lines = preview_of(&["nothing here", "the year 2024"]);
    assert_eq!(first_match_line(&lines, "2024"), Some(3));
    assert_eq!(first_match_line(&lines, "10:30"), None);
}
