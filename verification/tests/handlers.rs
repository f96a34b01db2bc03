use clippie::db::{ClipboardEntry, Database};
use clippie::tui::app::App;
use clippie::tui::events::{Event, KeyCode, KeyEvent, KeyModifiers};
use clippie::tui::handlers::{
    deleted_all_count_text, deleted_count_text, EventHandler, Step, StoreRequest,
};
use clippie::tui::mode::{DeletePeriod, Mode};
use tempfile::NamedTempFile;

fn create_test_app() -> App {
    App::new(vec![], "/test/db".to_string(), 80, 24)
}

fn key(c: char) -> KeyEvent {
    KeyEvent::new(KeyCode::Char(c), KeyModifiers::NONE)
}

fn press(app: &mut App, code: KeyCode) -> bool {
    EventHandler::handle(&Event::Key(KeyEvent::new(code, KeyModifiers::NONE)), app)
}

fn stored_app(tmp: &NamedTempFile, contents: &[&str]) -> (App, Database) {
    let path = tmp.path().to_str().unwrap().to_string();
    let db = Database::open(&path).unwrap();
    let mut now = 1000;
    for c in contents {
        db.insert_entry_at(c, c, now).unwrap();
        now -= 1;
    }
    let entries = db.get_all_entries().unwrap();
    (App::new(entries, path, 80, 24), db)
}

#[test]
fn test_handle_up_key() {
    let mut app = create_test_app();
    app.selected_index = 1;
    let event = Event::Key(KeyEvent::new(KeyCode::Up, KeyModifiers::NONE));
    EventHandler::handle(&event, &mut app);
    assert_eq!(app.selected_index, 0);
}

#[test]
fn test_handle_down_key() {
    let now = 0;
    let entries = vec![
        ClipboardEntry {
            id: 1,
            content: "entry1".to_string(),
            content_hash: String::new(),
            created_at: now,
            last_copied: now,
            copy_count: 1,
        },
        ClipboardEntry {
            id: 2,
            content: "entry2".to_string(),
            content_hash: String::new(),
            created_at: now,
            last_copied: now,
            copy_count: 1,
        },
    ];
    let mut app = App::new(entries, "/test/db".to_string(), 80, 24);
    let event = Event::Key(KeyEvent::new(KeyCode::Down, KeyModifiers::NONE));
    EventHandler::handle(&event, &mut app);
    assert_eq!(app.selected_index, 1);
}

#[test]
fn test_filter_mode() {
    let mut app = create_test_app();
    let event = Event::Key(KeyEvent::new(KeyCode::Char('/'), KeyModifiers::NONE));
    EventHandler::handle(&event, &mut app);
    assert!(app.is_filtering());
}

#[test]
fn test_quit() {
    let mut app = create_test_app();
    let event = Event::Key(KeyEvent::new(KeyCode::Char('q'), KeyModifiers::NONE));
    let should_exit = EventHandler::handle(&event, &mut app);
    assert!(should_exit);
}

#[test]
fn handlers_test_preview_scroll() {
    let mut app = create_test_app();
    let event = Event::Key(KeyEvent::new(KeyCode::Char('l'), KeyModifiers::NONE));
    EventHandler::handle(&event, &mut app);
    assert_eq!(app.preview_scroll, 1);

    let event = Event::Key(KeyEvent::new(KeyCode::Char('h'), KeyModifiers::NONE));
    EventHandler::handle(&event, &mut app);
    assert_eq!(app.preview_scroll, 0);
}

#[test]
fn test_escape_filter() {
    let mut app = create_test_app();
    app.start_filtering();
    app.filter_push('t');
    assert!(app.is_filtering());

    let event = Event::Key(KeyEvent::new(KeyCode::Esc, KeyModifiers::NONE));
    EventHandler::handle(&event, &mut app);
    assert!(!app.is_filtering());
    assert!(app.filter_text.is_empty());
}

#[test]
fn normal_mode_bindings() {
    let tmp = NamedTempFile::new().unwrap();
    let (mut app, _db) = stored_app(&tmp, &["a", "b", "c"]);
    assert!(!press(&mut app, KeyCode::Char('j')));
    assert_eq!(app.selected_index, 1);
    press(&mut app, KeyCode::Char('k'));
    assert_eq!(app.selected_index, 0);
    press(&mut app, KeyCode::Right);
    press(&mut app, KeyCode::PageDown);
    assert_eq!(app.preview_scroll, 11);
    press(&mut app, KeyCode::Left);
    press(&mut app, KeyCode::PageUp);
    assert_eq!(app.preview_scroll, 0);
    press(&mut app, KeyCode::Other);
    assert_eq!(app.mode, Mode::Normal);
    let with_alt = KeyEvent::new(KeyCode::Char('j'), KeyModifiers::ALT);
    EventHandler::handle(&Event::Key(with_alt), &mut app);
    assert_eq!(app.selected_index, 0);
    let ctrl_c = KeyEvent::new(KeyCode::Char('c'), KeyModifiers::CONTROL);
    assert!(EventHandler::handle(&Event::Key(ctrl_c), &mut app));
    press(&mut app, KeyCode::Down);
    assert!(press(&mut app, KeyCode::Enter));
    assert_eq!(app.selected_entry, Some("b".to_string()));
}

#[test]
fn quit_drops_a_kept_filter_first() {
    let mut app = create_test_app();
    press(&mut app, KeyCode::Char('/'));
    press(&mut app, KeyCode::Char('q'));
    assert_eq!(app.filter_text, "q");
    press(&mut app, KeyCode::Backspace);
    press(&mut app, KeyCode::Char('x'));
    press(&mut app, KeyCode::Enter);
    assert_eq!((app.mode, app.filter_text.as_str()), (Mode::Normal, "x"));
    assert!(!press(&mut app, KeyCode::Char('q')));
    assert!(app.filter_text.is_empty());
    assert!(press(&mut app, KeyCode::Esc));
}

#[test]
fn filter_ignores_control_alt_characters() {
    let mut app = create_test_app();
    app.start_filtering();
    let both = KeyModifiers::CONTROL | KeyModifiers::ALT;
    EventHandler::handle(&Event::Key(KeyEvent::new(KeyCode::Char('a'), both)), &mut app);
    assert!(app.filter_text.is_empty());
    let shift = KeyEvent::new(KeyCode::Char('A'), KeyModifiers::SHIFT);
    EventHandler::handle(&Event::Key(shift), &mut app);
    assert_eq!(app.filter_text, "A");
    press(&mut app, KeyCode::Delete);
    assert!(app.filter_text.is_empty());
}

#[test]
fn resize_tick_and_mouse() {
    let mut app = create_test_app();
    assert!(!EventHandler::handle(&Event::Resize(100, 40), &mut app));
    assert_eq!((app.terminal_width, app.terminal_height), (100, 40));
    assert!(!EventHandler::handle(&Event::Tick, &mut app));
    assert_eq!(app.tick_count, 1);
    assert!(!EventHandler::handle(&Event::Mouse, &mut app));
}

#[test]
fn a_key_clears_the_message() {
    let mut app = create_test_app();
    app.show_message("old");
    press(&mut app, KeyCode::Up);
    assert_eq!(app.message, None);
    app.show_message("old");
    EventHandler::handle(&Event::Tick, &mut app);
    assert_eq!(app.message, Some("old".to_string()));
}

#[test]
fn delete_all_needs_three_yeses() {
    let tmp = NamedTempFile::new().unwrap();
    let (mut app, db) = stored_app(&tmp, &["a", "b", "c"]);
    let shift_d = KeyEvent::new(KeyCode::Char('D'), KeyModifiers::SHIFT);
    EventHandler::handle(&Event::Key(shift_d), &mut app);
    assert_eq!(app.mode, Mode::SelectingPeriod);
    for _ in 0..5 {
        press(&mut app, KeyCode::Down);
    }
    press(&mut app, KeyCode::Enter);
    assert_eq!(app.mode, Mode::ConfirmingAll { confirmation_count: 0 });
    press(&mut app, KeyCode::Char('y'));
    press(&mut app, KeyCode::Char('Y'));
    assert_eq!(app.mode, Mode::ConfirmingAll { confirmation_count: 2 });
    assert_eq!(db.count_entries().unwrap(), 3);
    assert_eq!(app.entries.len(), 3);
    press(&mut app, KeyCode::Char('y'));
    assert_eq!(db.count_entries().unwrap(), 0);
    assert_eq!(app.mode, Mode::Normal);
    assert!(app.entries.is_empty());
    assert_eq!(app.message, Some("Deleted ALL 3 entries \u{2713}".to_string()));
}

#[test]
fn any_other_key_resets_the_count() {
    let tmp = NamedTempFile::new().unwrap();
    let (mut app, db) = stored_app(&tmp, &["a", "b"]);
    app.mode = Mode::ConfirmingAll { confirmation_count: 0 };
    press(&mut app, KeyCode::Char('y'));
    press(&mut app, KeyCode::Char('y'));
    press(&mut app, KeyCode::Char('x'));
    assert_eq!(app.mode, Mode::ConfirmingAll { confirmation_count: 0 });
    press(&mut app, KeyCode::Char('y'));
    press(&mut app, KeyCode::Char('y'));
    assert_eq!(app.mode, Mode::ConfirmingAll { confirmation_count: 2 });
    press(&mut app, KeyCode::Char('n'));
    assert_eq!(app.mode, Mode::Normal);
    app.mode = Mode::ConfirmingAll { confirmation_count: 2 };
    press(&mut app, KeyCode::Esc);
    assert_eq!(app.mode, Mode::Normal);
    assert_eq!(db.count_entries().unwrap(), 2);
}

#[test]
fn confirmed_single_delete_clamps_the_selection() {
    let tmp = NamedTempFile::new().unwrap();
    let (mut app, db) = stored_app(&tmp, &["a", "b", "c"]);
    press(&mut app, KeyCode::Down);
    press(&mut app, KeyCode::Down);
    press(&mut app, KeyCode::Char('x'));
    assert_eq!(app.mode, Mode::ConfirmingSingle);
    press(&mut app, KeyCode::Char('z'));
    assert_eq!(app.mode, Mode::ConfirmingSingle);
    press(&mut app, KeyCode::Char('y'));
    assert_eq!(app.mode, Mode::Normal);
    assert_eq!(db.count_entries().unwrap(), 2);
    assert_eq!(app.entries.len(), 2);
    assert_eq!(app.selected_index, 1);
    assert_eq!(app.message, Some("Entry deleted \u{2713}".to_string()));
    press(&mut app, KeyCode::Delete);
    press(&mut app, KeyCode::Char('n'));
    assert_eq!(db.count_entries().unwrap(), 2);
}

#[test]
fn plain_d_asks_before_it_deletes() {
    let tmp = NamedTempFile::new().unwrap();
    let (mut app, db) = stored_app(&tmp, &["a", "b"]);
    press(&mut app, KeyCode::Down);
    press(&mut app, KeyCode::Char('d'));
    assert_eq!(app.mode, Mode::ConfirmingSingle);
    assert_eq!(db.count_entries().unwrap(), 2);
    assert_eq!(app.entries.len(), 2);
    press(&mut app, KeyCode::Char('n'));
    assert_eq!(app.mode, Mode::Normal);
    assert_eq!(db.count_entries().unwrap(), 2);
    press(&mut app, KeyCode::Char('d'));
    press(&mut app, KeyCode::Char('y'));
    assert_eq!(app.message, Some("Entry deleted \u{2713}".to_string()));
    assert_eq!(db.count_entries().unwrap(), 1);
    assert_eq!((app.entries.len(), app.selected_index), (1, 0));
    assert_eq!(app.entries[0].content, "a");
    let mut empty = create_test_app();
    press(&mut empty, KeyCode::Char('d'));
    assert_eq!(empty.mode, Mode::Normal);
}

#[test]
fn refresh_key() {
    let tmp = NamedTempFile::new().unwrap();
    let (mut app, db) = stored_app(&tmp, &["a", "b"]);
    db.insert_entry_at("z", "z", 5000).unwrap();
    press(&mut app, KeyCode::Char('r'));
    assert_eq!(app.message, Some("Refreshed \u{21bb}".to_string()));
    assert_eq!(app.entries[0].content, "z");
}

#[test]
fn bulk_delete_of_a_period() {
    let tmp = NamedTempFile::new().unwrap();
    let (mut app, db) = stored_app(&tmp, &["old"]);
    db.insert_entry("fresh", "fresh").unwrap();
    app.refresh().unwrap();
    let ctrl_d = KeyEvent::new(KeyCode::Char('d'), KeyModifiers::CONTROL);
    EventHandler::handle(&Event::Key(ctrl_d), &mut app);
    press(&mut app, KeyCode::Char('j'));
    press(&mut app, KeyCode::Enter);
    assert_eq!(app.mode, Mode::ConfirmingBulk { period: DeletePeriod::Day });
    press(&mut app, KeyCode::Char('y'));
    assert_eq!(app.message, Some("Deleted 1 entries \u{2713}".to_string()));
    assert_eq!(app.entries.len(), 1);
    assert_eq!(app.entries[0].content, "old");
    assert_eq!(app.mode, Mode::Normal);
    app.mode = Mode::ConfirmingBulk { period: DeletePeriod::All };
    press(&mut app, KeyCode::Char('y'));
    assert_eq!(app.message, Some("Error: Use delete all confirmation".to_string()));
    assert_eq!(db.count_entries().unwrap(), 1);
}

#[test]
fn store_failures_become_messages() {
    let mut app = App::new(vec![], "/nonexistent-clippie-dir/x.db".to_string(), 80, 24);
    press(&mut app, KeyCode::Char('r'));
    assert!(app.message.clone().unwrap().starts_with("Refresh failed: Database error: "));
    app.mode = Mode::ConfirmingAll { confirmation_count: 2 };
    press(&mut app, KeyCode::Char('y'));
    assert!(app.message.clone().unwrap().starts_with("Database error: "));
    assert_eq!(app.mode, Mode::Normal);
}

#[test]
fn key_steps_name_their_requests() {
    let mut app = create_test_app();
    let step = EventHandler::handle_key(key('r'), &mut app);
    assert_eq!(step, Step { exit: false, request: StoreRequest::Refresh });
    let step = EventHandler::handle_key(key('d'), &mut app);
    assert_eq!(step.request, StoreRequest::Nothing);
    app.mode = Mode::ConfirmingAll { confirmation_count: 1 };
    assert_eq!(EventHandler::handle_key(key('y'), &mut app).request, StoreRequest::Nothing);
    assert_eq!(EventHandler::handle_key(key('y'), &mut app).request, StoreRequest::ClearAll);
    app.mode = Mode::ConfirmingBulk { period: DeletePeriod::Week };
    assert_eq!(
        EventHandler::handle_delete_mode(key('y'), &mut app).request,
        StoreRequest::DeleteRecent { period: DeletePeriod::Week }
    );
    app.mode = Mode::Filtering;
    assert_eq!(EventHandler::handle_filter_mode(key('y'), &mut app).request, StoreRequest::Nothing);
    assert_eq!(app.filter_text, "y");
    app.mode = Mode::Normal;
    assert!(EventHandler::handle_normal_mode(key('q'), &mut app).request == StoreRequest::Nothing);
    EventHandler::perform(StoreRequest::Nothing, &mut app);
    assert_eq!(app.message, None);
    assert_eq!(deleted_count_text(12), "Deleted 12 entries \u{2713}");
    assert_eq!(deleted_all_count_text(0), "Deleted ALL 0 entries \u{2713}");
}

#[test]
fn the_period_choice_stays_among_the_six() {
    let mut app = create_test_app();
    let ctrl_d = KeyEvent::new(KeyCode::Char('d'), KeyModifiers::CONTROL);
    EventHandler::handle(&Event::Key(ctrl_d), &mut app);
    assert_eq!(app.mode, Mode::SelectingPeriod);
    press(&mut app, KeyCode::Up);
    assert_eq!(app.delete_period_index, 0);
    for _ in 0..9 {
        press(&mut app, KeyCode::Down);
    }
    assert_eq!(app.delete_period_index, 5);
    press(&mut app, KeyCode::Up);
    assert_eq!(app.delete_period_index, 4);
}

#[test]
fn enter_on_an_empty_list_leaves_the_copy_as_it_was() {
    let mut app = create_test_app();
    press(&mut app, KeyCode::Enter);
    assert_eq!(app.selected_entry, None);
    app.selected_entry = Some("kept".to_string());
    press(&mut app, KeyCode::Enter);
    assert_eq!(app.selected_entry, Some("kept".to_string()));
}
