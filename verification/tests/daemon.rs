use clippie::daemon::{is_recordable, DaemonAction, DaemonEvent, DaemonState, Phase, Reading};
use clippie::db::Database;
use tempfile::NamedTempFile;

fn text(s: &str) -> DaemonEvent<String> {
    DaemonEvent::Content(Reading::Text(s.to_string()))
}

fn daemon() -> DaemonState {
    DaemonState::new(Database::open(":memory:").unwrap(), 7)
}

#[test]
fn test_daemon_state_creation() {
    let tmp = NamedTempFile::new().unwrap();
    let db = Database::open(tmp.path().to_str().unwrap()).unwrap();
    let state = DaemonState::new(db, 0);
    assert_eq!(state.last_change_count, 0);
    assert!(matches!(state.phase, Phase::Idle));
}

#[test]
fn unchanged_token_keeps_polling() {
    let mut d = daemon();
    assert!(matches!(d.step(DaemonEvent::Token(Some(7)), false), DaemonAction::Poll));
    assert!(matches!(d.step(DaemonEvent::Token(None), false), DaemonAction::Poll));
    assert!(matches!(d.phase, Phase::Idle));
    assert_eq!(d.last_change_count, 7);
}

#[test]
fn stable_value_is_persisted_once() {
    let mut d = daemon();
    assert!(matches!(d.step(DaemonEvent::Token(Some(8)), false), DaemonAction::Read));
    assert_eq!(d.last_change_count, 8);
    assert!(matches!(d.step(text("abc"), false), DaemonAction::AwaitStability));
    match d.step(text("abc"), false) {
        DaemonAction::Persist(s) => assert_eq!(s, "abc"),
        other => panic!("expected a persist, got {:?}", other),
    }
    assert!(matches!(d.phase, Phase::Idle));
    assert!(matches!(d.step(DaemonEvent::Token(Some(8)), false), DaemonAction::Poll));
    assert!(matches!(d.step(text("abc"), false), DaemonAction::Poll));
}

#[test]
fn changed_value_is_never_persisted() {
    let mut d = daemon();
    d.step(DaemonEvent::Token(Some(8)), false);
    d.step(text("ab"), false);
    assert!(matches!(d.step(text("abc"), false), DaemonAction::AwaitStability));
    match &d.phase {
        Phase::CandidateDetected(c) => assert_eq!(c, "abc"),
        other => panic!("expected a candidate, got {:?}", other),
    }
    match d.step(text("abc"), false) {
        DaemonAction::Persist(s) => assert_eq!(s, "abc"),
        other => panic!("expected a persist, got {:?}", other),
    }
}

#[test]
fn returning_value_needs_its_own_window() {
    let mut d = daemon();
    d.step(DaemonEvent::Token(Some(8)), false);
    d.step(text("a"), false);
    assert!(matches!(d.step(text("b"), false), DaemonAction::AwaitStability));
    assert!(matches!(d.step(text("a"), false), DaemonAction::AwaitStability));
    assert!(matches!(d.step(text("a"), false), DaemonAction::Persist(_)));
}

#[test]
fn blank_and_missing_content_is_rejected() {
    let mut d = daemon();
    d.step(DaemonEvent::Token(Some(8)), false);
    assert!(matches!(d.step(text("  \n\t "), false), DaemonAction::Poll));
    assert!(matches!(d.phase, Phase::Idle));
    d.step(DaemonEvent::Token(Some(9)), false);
    assert!(matches!(d.step(DaemonEvent::Content(Reading::Empty), false), DaemonAction::Poll));
    d.step(DaemonEvent::Token(Some(10)), false);
    assert!(matches!(
        d.step(DaemonEvent::Content(Reading::Unreadable), false),
        DaemonAction::Poll
    ));
    d.step(DaemonEvent::Token(Some(11)), false);
    d.step(text("abc"), false);
    assert!(matches!(d.step(DaemonEvent::Content(Reading::Empty), false), DaemonAction::Poll));
    assert!(matches!(d.phase, Phase::Idle));
    assert!(!is_recordable(""));
    assert!(!is_recordable(" \u{a0} "));
    assert!(is_recordable(" x "));
}

#[test]
fn pause_suppresses_the_write_only() {
    let mut d = daemon();
    assert!(matches!(d.step(DaemonEvent::Token(Some(8)), true), DaemonAction::Read));
    assert!(matches!(d.step(text("abc"), true), DaemonAction::AwaitStability));
    assert!(matches!(d.step(text("abc"), true), DaemonAction::Poll));
    assert!(matches!(d.phase, Phase::Idle));
    assert_eq!(d.last_change_count, 8);
}

#[test]
fn unexpected_reports_ask_again() {
    let mut d = daemon();
    assert!(matches!(d.step(text("abc"), false), DaemonAction::Poll));
    d.step(DaemonEvent::Token(Some(8)), false);
    assert!(matches!(d.step(DaemonEvent::Token(Some(9)), false), DaemonAction::Read));
    assert_eq!(d.last_change_count, 8);
    d.step(text("abc"), false);
    assert!(matches!(
        d.step(DaemonEvent::Token(Some(9)), false),
        DaemonAction::AwaitStability
    ));
}

#[test]
fn end_to_end_scenario() {
    let mut d = daemon();
    assert_eq!(d.db.count_entries().unwrap(), 0);
    let mut ids = Vec::new();
    for token in [8, 9] {
        d.step(DaemonEvent::Token(Some(token)), false);
        d.step(text("abc"), false);
        match d.step(text("abc"), false) {
            DaemonAction::Persist(content) => ids.push(d.record(&content).unwrap()),
            other => panic!("expected a persist, got {:?}", other),
        }
        let entry = d.db.get_entry(ids[0]).unwrap().unwrap();
        assert_eq!(d.db.count_entries().unwrap(), 1);
        assert_eq!(entry.copy_count, ids.len() as i32);
    }
    assert_eq!(ids[0], ids[1]);
}

#[test]
fn end_to_end_timestamps() {
    let db = Database::open(":memory:").unwrap();
    let id = db.insert_entry_at("abc", "h", 100).unwrap();
    let first = db.get_entry(id).unwrap().unwrap();
    assert_eq!((first.created_at, first.last_copied, first.copy_count), (100, 100, 1));
    assert_eq!(db.insert_entry_at("abc", "h", 250).unwrap(), id);
    let second = db.get_entry(id).unwrap().unwrap();
    assert_eq!((second.created_at, second.last_copied, second.copy_count), (100, 250, 2));
    assert_eq!(db.count_entries().unwrap(), 1);
}
