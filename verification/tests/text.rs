use clippie::clipboard::hash_content;
use clippie::text::{
    contains, is_whitespace_char, push_decimal, push_signed_decimal, same_text, to_chars,
    trimmed_len,
};

#[test]
fn test_hash_content() {
    let content = "test content";
    let hash = hash_content(content);
    assert_eq!(hash.len(), 64);
    assert!(hash.chars().all(|c| c.is_ascii_hexdigit()));
}

#[test]
fn test_hash_consistency() {
    let content = "test";
    let hash1 = hash_content(content);
    let hash2 = hash_content(content);
    assert_eq!(hash1, hash2);
}

#[test]
fn hash_is_sha256_in_lower_hex() {
    assert_eq!(
        hash_content("abc"),
        "ba7816bf8f01cfea414140de5dae2223b00361a396177a9cb410ff61f20015ad"
    );
    assert_eq!(
        hash_content(""),
        "e3b0c44298fc1c149afbf4c8996fb92427ae41e4649b934ca495991b7852b855"
    );
}

#[test]
fn one_changed_character_changes_the_hash() {
    assert_ne!(hash_content("test content"), hash_content("test contenu"));
    assert_ne!(hash_content("abc"), hash_content("abd"));
}

#[test]
fn whitespace_agrees_with_std_for_every_char() {
    let mut code: u32 = 0;
    while code <= 0x10ffff {
        if let Some(c) = char::from_u32(code) {
            assert_eq!(is_whitespace_char(c), c.is_whitespace(), "U+{:04X}", code);
        }
        code += 1;
    }
}

#[test]
fn trimmed_len_counts_what_trim_leaves() {
    assert_eq!(trimmed_len(""), 0);
    assert_eq!(trimmed_len("   \t\n"), 0);
    assert_eq!(trimmed_len("  abc  "), 3);
    assert_eq!(trimmed_len("a b"), 3);
    assert_eq!(trimmed_len("\u{3000}x\u{a0}"), 1);
    assert_eq!(trimmed_len("x"), 1);
    for s in ["", " ", "a", " a", "a ", "  a b  ", "\n\nq\t"] {
        assert_eq!(trimmed_len(s), s.trim().chars().count());
    }
}

#[test]
fn decimal_formatting() {
    let mut s = String::new();
    push_decimal(&mut s, 0);
    assert_eq!(s, "0");
    let mut s = String::from("n=");
    push_decimal(&mut s, 1234567890);
    assert_eq!(s, "n=1234567890");
    let mut s = String::new();
    push_decimal(&mut s, u64::MAX);
    assert_eq!(s, u64::MAX.to_string());
    let mut s = String::new();
    push_signed_decimal(&mut s, -42);
    assert_eq!(s, "-42");
    let mut s = String::new();
    push_signed_decimal(&mut s, i64::MIN);
    assert_eq!(s, i64::MIN.to_string());
    let mut s = String::new();
    push_signed_decimal(&mut s, i64::MAX);
    assert_eq!(s, i64::MAX.to_string());
}

#[test]
fn text_helpers() {
    assert_eq!(to_chars("h\u{e9}"), vec!['h', '\u{e9}']);
    assert!(same_text("abc", "abc"));
    assert!(!same_text("abc", "abd"));
    assert!(!same_text("abc", "ab"));
    assert!(contains("UNIQUE constraint failed: t.c", "UNIQUE constraint failed"));
    assert!(!contains("something else", "UNIQUE constraint failed"));
    assert!(contains("abc", ""));
}
