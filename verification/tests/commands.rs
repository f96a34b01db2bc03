use clippie::commands::{
    daemon_listed, is_yes, parse_existing_choice, plist_content, resolve_db_argument,
    resolve_setup_path, size_in_kb, ExistingStore, CLEAR_AGE_DAYS,
};
use clippie::error::CliError;
use clippie::text::trim_text;

#[test]
fn yes_answers() {
    assert!(is_yes("y"));
    assert!(is_yes(" Y\n"));
    assert!(!is_yes("yes"));
    assert!(!is_yes(""));
    assert!(!is_yes("n"));
    for s in ["y", "Y\n", " y ", "n", "", "yy", "\u{ff59}"] {
        assert_eq!(is_yes(s), s.trim().eq_ignore_ascii_case("y"));
    }
}

#[test]
fn existing_store_choices() {
    assert_eq!(parse_existing_choice("use\n"), Some(ExistingStore::Use));
    assert_eq!(parse_existing_choice(" U "), Some(ExistingStore::Use));
    assert_eq!(parse_existing_choice("NEW"), Some(ExistingStore::Replace));
    assert_eq!(parse_existing_choice("n"), Some(ExistingStore::Replace));
    assert_eq!(parse_existing_choice("maybe"), None);
    assert_eq!(parse_existing_choice(""), None);
}

#[test]
fn db_argument_paths() {
    let home = Some("/home/u".to_string());
    assert_eq!(resolve_db_argument("/abs/x.db", home.clone()).unwrap(), "/abs/x.db");
    assert_eq!(resolve_db_argument("/abs/x.db", None).unwrap(), "/abs/x.db");
    assert_eq!(resolve_db_argument("~/x.db", home.clone()).unwrap(), "/home/u/x.db");
    assert_eq!(resolve_db_argument("dir/x.db", home).unwrap(), "/home/u/dir/x.db");
    assert!(matches!(resolve_db_argument("x.db", None), Err(CliError::ConfigError(_))));
    assert!(matches!(resolve_db_argument("~/x.db", None), Err(CliError::ConfigError(_))));
}

#[test]
fn setup_paths() {
    assert_eq!(resolve_setup_path("\n", "/d/clipboard.db", "/h"), "/d/clipboard.db");
    assert_eq!(resolve_setup_path(" /abs/x.db \n", "/d", "/h"), "/abs/x.db");
    assert_eq!(resolve_setup_path("rel/x.db\n", "/d", "/h"), "/h/rel/x.db");
    assert_eq!(trim_text(" \t a b \n"), "a b");
}

#[test]
fn status_helpers() {
    assert!(daemon_listed("123\t0\tno.bechsor.clippy-daemon\n"));
    assert!(!daemon_listed("123\t0\tcom.apple.something\n"));
    assert_eq!(size_in_kb(0), 0);
    assert_eq!(size_in_kb(1023), 0);
    assert_eq!(size_in_kb(4096), 4);
    assert_eq!(CLEAR_AGE_DAYS, 30);
}

#[test]
fn plist_names_binary_and_logs() {
    let plist = plist_content("/bin/clippie", "/l/daemon.log", "/l/daemon.err");
    assert!(plist.starts_with("<?xml version=\"1.0\" encoding=\"UTF-8\"?>\n<!DOCTYPE plist"));
    assert!(plist.contains("<array>\n        <string>/bin/clippie</string>\n        <string>daemon</string>\n    </array>"));
    assert!(plist.contains("<key>StandardOutPath</key>\n    <string>/l/daemon.log</string>"));
    assert!(plist.contains("<key>StandardErrorPath</key>\n    <string>/l/daemon.err</string>"));
    assert!(plist.ends_with("</dict>\n</plist>"));
}
