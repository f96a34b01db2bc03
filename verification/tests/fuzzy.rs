use clippie::tui::fuzzy::{fuzzy_match, fuzzy_match_chars};

#[test]
fn test_exact_match() {
    let result = fuzzy_match("hello world", "world");
    assert!(result.matched);
    assert!(result.is_exact);
    assert_eq!(result.match_positions, vec![(6, 5)]);
}

#[test]
fn test_fuzzy_match() {
    let result = fuzzy_match("hello world", "hlo");
    assert!(result.matched);
    assert!(!result.is_exact);
    assert!(!result.match_positions.is_empty());
}

#[test]
fn test_no_match() {
    let result = fuzzy_match("hello world", "xyz");
    assert!(!result.matched);
}

#[test]
fn test_case_insensitive() {
    let result = fuzzy_match("Hello World", "hello");
    assert!(result.matched);
    assert!(result.is_exact);
}

#[test]
fn test_fuzzy_multi_word() {
    let result = fuzzy_match(
        "dotnet nuget add source https://nuget.pkg.github.com",
        "dotnet source",
    );
    assert!(result.matched);
}

#[test]
fn fuzzy_ranges_are_leftmost_and_merged() {
    let result = fuzzy_match("hello world", "hlo");
    assert_eq!(result.match_positions, vec![(0, 1), (2, 1), (4, 1)]);
    let result = fuzzy_match("abcxdef", "abcdef");
    assert_eq!(result.match_positions, vec![(0, 3), (4, 3)]);
    assert!(!result.is_exact);
}

#[test]
fn no_match_has_no_ranges() {
    let result = fuzzy_match("hello world", "xyz");
    assert!(!result.is_exact);
    assert!(result.match_positions.is_empty());
}

#[test]
fn exact_match_takes_first_occurrence() {
    let result = fuzzy_match("abcabc", "bc");
    assert!(result.is_exact);
    assert_eq!(result.match_positions, vec![(1, 2)]);
}

#[test]
fn empty_query_matches_exactly_at_start() {
    let result = fuzzy_match("anything", "");
    assert!(result.matched);
    assert!(result.is_exact);
    assert_eq!(result.match_positions, vec![(0, 0)]);
    let result = fuzzy_match("", "");
    assert!(result.is_exact);
}

#[test]
fn query_longer_than_text_does_not_match() {
    let result = fuzzy_match("ab", "abc");
    assert!(!result.matched);
    assert!(!result.is_exact);
}

#[test]
fn ranges_count_characters_not_bytes() {
    let result = fuzzy_match("h\u{e9}llo w\u{f6}rld", "w\u{f6}rld");
    assert!(result.is_exact);
    assert_eq!(result.match_positions, vec![(6, 5)]);
}

#[test]
fn case_is_folded_before_matching() {
    // Would fail if the texts were handed on unchanged.
    let result = fuzzy_match("HELLO", "hello");
    assert!(result.is_exact);
    assert_eq!(result.match_positions, vec![(0, 5)]);
    let text: Vec<char> = "HELLO".chars().collect();
    let query: Vec<char> = "hello".chars().collect();
    assert!(!fuzzy_match_chars(&text, &query).matched);
}

#[test]
fn matching_is_deterministic() {
    let a = fuzzy_match("some longer text here", "slt");
    let b = fuzzy_match("some longer text here", "slt");
    assert_eq!(a.matched, b.matched);
    assert_eq!(a.is_exact, b.is_exact);
    assert_eq!(a.match_positions, b.match_positions);
}
