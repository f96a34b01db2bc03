use clippie::db::{ClipboardEntry, Database};
use clippie::tui::app::{snapshots_differ, App};
use clippie::tui::mode::{DeleteMode, DeletePeriod, Mode};
use tempfile::NamedTempFile;

fn create_test_entry(content: &str) -> ClipboardEntry {
    ClipboardEntry {
        id: 1,
        content: content.to_string(),
        content_hash: String::new(),
        created_at: 0,
        last_copied: 0,
        copy_count: 1,
    }
}

fn app_with(contents: &[&str]) -> App {
    let entries = contents.iter().map(|c| create_test_entry(c)).collect();
    App::new(entries, "/test/db".to_string(), 80, 24)
}

fn visible(app: &App) -> Vec<String> {
    app.filtered_entries().iter().map(|e| e.content.clone()).collect()
}

#[test]
fn test_app_creation() {
    let app = App::new(vec![], "/test/db".to_string(), 80, 24);
    assert_eq!(app.entries.len(), 0);
    assert_eq!(app.selected_index, 0);
    assert_eq!(app.preview_scroll, 0);
}

#[test]
fn test_filter_text() {
    let mut app = App::new(vec![], "/test/db".to_string(), 80, 24);
    app.filter_push('t');
    assert_eq!(app.filter_text, "t");
    app.filter_push('e');
    assert_eq!(app.filter_text, "te");
    app.filter_pop();
    assert_eq!(app.filter_text, "t");
}

#[test]
fn test_select_up_down() {
    let entries = vec![
        create_test_entry("one"),
        create_test_entry("two"),
        create_test_entry("three"),
    ];
    let mut app = App::new(entries, "/test/db".to_string(), 80, 24);

    assert_eq!(app.selected_index, 0);
    app.select_down();
    assert_eq!(app.selected_index, 1);
    app.select_down();
    assert_eq!(app.selected_index, 2);
    app.select_down();
    assert_eq!(app.selected_index, 2);

    app.select_up();
    assert_eq!(app.selected_index, 1);
    app.select_up();
    assert_eq!(app.selected_index, 0);
    app.select_up();
    assert_eq!(app.selected_index, 0);
}

#[test]
fn test_filtering_mode() {
    let mut app = App::new(vec![], "/test/db".to_string(), 80, 24);
    assert!(!app.is_filtering());

    app.start_filtering();
    assert!(app.is_filtering());
    assert!(app.filter_text.is_empty());

    app.filter_push('t');
    app.confirm_filter();
    assert!(!app.is_filtering());
    assert_eq!(app.filter_text, "t");

    app.stop_filtering();
    assert!(app.filter_text.is_empty());
}

#[test]
fn app_test_preview_scroll() {
    let mut app = App::new(vec![], "/test/db".to_string(), 80, 24);
    assert_eq!(app.preview_scroll, 0);

    app.scroll_preview_down();
    assert_eq!(app.preview_scroll, 1);
    app.scroll_preview_down();
    assert_eq!(app.preview_scroll, 2);

    app.scroll_preview_up();
    assert_eq!(app.preview_scroll, 1);
    app.scroll_preview_up();
    assert_eq!(app.preview_scroll, 0);
    app.scroll_preview_up();
    assert_eq!(app.preview_scroll, 0);

    app.preview_scroll = 5;
    app.reset_preview_scroll();
    assert_eq!(app.preview_scroll, 0);
}

#[test]
fn test_get_list_height() {
    let app = App::new(vec![], "/test/db".to_string(), 80, 24);
    assert_eq!(app.get_list_height(), 20);
}

#[test]
fn test_entry_count_info() {
    let entries = vec![create_test_entry("hello"), create_test_entry("world")];
    let mut app = App::new(entries, "/test/db".to_string(), 80, 24);
    assert_eq!(app.get_entry_count_info(), "2 entries");

    app.filter_text = "hello".to_string();
    assert_eq!(app.get_entry_count_info(), "2 entries, 1 matches");
}

#[test]
fn exact_matches_come_before_fuzzy_ones() {
    let mut app = app_with(&["a-x-b", "zab", "nothing", "a..b", "AB"]);
    app.filter_text = "ab".to_string();
    assert_eq!(visible(&app), vec!["zab", "AB", "a-x-b", "a..b"]);
    assert_eq!(app.filtered_indices(), vec![1, 4, 0, 3]);
    app.filter_text.clear();
    assert_eq!(app.filtered_indices(), vec![0, 1, 2, 3, 4]);
}

#[test]
fn window_follows_the_selection() {
    let mut app = app_with(&["0", "1", "2", "3", "4", "5"]);
    app.update_terminal_size(80, 7);
    assert_eq!(app.get_list_height(), 3);
    assert_eq!(app.get_preview_height(), 3);
    app.preview_scroll = 4;
    app.select_down();
    assert_eq!(app.preview_scroll, 0);
    app.select_down();
    assert_eq!((app.selected_index, app.scroll_offset), (2, 0));
    app.select_down();
    assert_eq!((app.selected_index, app.scroll_offset), (3, 1));
    let shown: Vec<&str> =
        app.get_visible_entries().iter().map(|e| e.content.as_str()).collect();
    assert_eq!(shown, vec!["1", "2", "3"]);
    app.select_up();
    app.select_up();
    assert_eq!((app.selected_index, app.scroll_offset), (1, 1));
    app.select_up();
    assert_eq!((app.selected_index, app.scroll_offset), (0, 0));
    app.update_terminal_size(80, 3);
    assert_eq!(app.get_list_height(), 0);
    assert!(app.get_visible_entries().is_empty());
}

#[test]
fn visible_entries_stop_at_the_end() {
    let mut app = app_with(&["0", "1", "2"]);
    app.scroll_offset = 2;
    assert_eq!(app.get_visible_entries().len(), 1);
    app.scroll_offset = 3;
    assert!(app.get_visible_entries().is_empty());
}

#[test]
fn typing_a_filter_resets_the_selection() {
    let mut app = app_with(&["a", "b", "c"]);
    app.select_down();
    app.select_down();
    app.preview_scroll = 3;
    app.filter_push('x');
    assert_eq!((app.selected_index, app.scroll_offset, app.preview_scroll), (0, 0, 0));
    app.filter_pop();
    app.filter_pop();
    assert!(app.filter_text.is_empty());
}

#[test]
fn commit_hands_back_the_selected_content() {
    let mut app = app_with(&["one", "two"]);
    app.select_down();
    assert_eq!(app.current_entry().unwrap().content, "two");
    assert_eq!(app.select_entry(), Some("two".to_string()));
    assert_eq!(app.selected_entry, Some("two".to_string()));
    let mut empty = app_with(&[]);
    assert!(empty.current_entry().is_none());
    assert_eq!(empty.select_entry(), None);
    assert_eq!(empty.selected_entry, None);
}

#[test]
fn delete_flow_steps() {
    let mut app = app_with(&["one"]);
    assert!(!app.is_in_delete_mode());
    assert_eq!(app.delete_mode(), DeleteMode::Inactive);
    app.start_single_delete();
    assert_eq!(app.mode, Mode::ConfirmingSingle);
    assert_eq!(app.delete_mode(), DeleteMode::ConfirmingSingle);
    app.cancel_delete();
    assert_eq!(app.mode, Mode::Normal);
    app.start_bulk_delete();
    assert!(app.is_in_delete_mode());
    app.delete_period_up();
    assert_eq!(app.delete_period_index, 0);
    for _ in 0..9 {
        app.delete_period_down();
    }
    assert_eq!(app.delete_period_index, 5);
    app.confirm_delete_period();
    assert_eq!(app.mode, Mode::ConfirmingAll { confirmation_count: 0 });
    app.delete_period_index = 2;
    app.confirm_delete_period();
    assert_eq!(app.mode, Mode::ConfirmingBulk { period: DeletePeriod::Week });
    app.cancel_delete();
    assert_eq!(app.delete_period_index, 0);
    let mut empty = app_with(&[]);
    empty.start_single_delete();
    assert_eq!(empty.mode, Mode::Normal);
}

#[test]
fn periods() {
    assert_eq!(DeletePeriod::Hour.to_days(), Some(1));
    assert_eq!(DeletePeriod::Day.to_days(), Some(1));
    assert_eq!(DeletePeriod::Week.to_days(), Some(7));
    assert_eq!(DeletePeriod::Month.to_days(), Some(30));
    assert_eq!(DeletePeriod::Year.to_days(), Some(365));
    assert_eq!(DeletePeriod::All.to_days(), None);
    assert_eq!(DeletePeriod::Hour.display(), "Last Hour");
    assert_eq!(DeletePeriod::All.display(), "ALL ENTRIES");
    assert_eq!(DeletePeriod::from_index(3), DeletePeriod::Month);
    assert_eq!(DeletePeriod::from_index(5), DeletePeriod::All);
    assert_eq!(DeletePeriod::from_index(6), DeletePeriod::Day);
    assert_eq!(DeletePeriod::Hour.to_span(), Some((1, 3600)));
    assert_eq!(DeletePeriod::Day.to_span(), Some((1, 86_400)));
    assert_eq!(DeletePeriod::Week.to_span(), Some((7, 86_400)));
    assert_eq!(DeletePeriod::Month.to_span(), Some((30, 86_400)));
    assert_eq!(DeletePeriod::Year.to_span(), Some((365, 86_400)));
    assert_eq!(DeletePeriod::All.to_span(), None);
}

#[test]
fn deleting_the_last_row_selects_the_new_last_row() {
    let mut app = app_with(&["a", "b", "c"]);
    app.selected_index = 2;
    app.scroll_offset = 2;
    app.remove_content("c");
    assert_eq!(visible(&app), vec!["a", "b"]);
    assert_eq!((app.selected_index, app.scroll_offset), (1, 1));
    app.remove_content("a");
    assert_eq!(app.selected_index, 0);
    app.remove_content("b");
    assert!(app.entries.is_empty());
    assert_eq!(app.selected_index, 0);
}

#[test]
fn resync_clamps_and_refresh_resets() {
    let mut app = app_with(&["a", "b", "c"]);
    app.selected_index = 2;
    app.resync(vec![create_test_entry("a"), create_test_entry("b")]);
    assert_eq!(app.selected_index, 1);
    app.apply_refresh(vec![create_test_entry("a"), create_test_entry("b")]);
    assert_eq!(app.selected_index, 1);
    let mut touched = create_test_entry("b");
    touched.last_copied = 9;
    assert!(snapshots_differ(&app.entries, &vec![create_test_entry("a"), touched.clone()]));
    app.apply_refresh(vec![create_test_entry("a"), touched]);
    assert_eq!(app.selected_index, 0);
    assert_eq!(app.entries[1].last_copied, 9);
    app.selected_index = 1;
    app.apply_refresh(vec![create_test_entry("a")]);
    assert_eq!((app.entries.len(), app.selected_index), (1, 0));
}

#[test]
fn store_backed_operations() {
    let tmp = NamedTempFile::new().unwrap();
    let path = tmp.path().to_str().unwrap().to_string();
    let db = Database::open(&path).unwrap();
    db.insert_entry_at("first", "h1", 10).unwrap();
    db.insert_entry_at("second", "h2", 20).unwrap();
    let mut app = App::new(vec![], path, 80, 24);
    app.refresh().unwrap();
    assert_eq!(visible(&app), vec!["second", "first"]);
    assert_eq!(app.get_db_path_short(), app.db_path);
    app.select_down();
    assert!(app.delete_current_entry().unwrap());
    assert_eq!(visible(&app), vec!["second"]);
    assert_eq!(app.selected_index, 0);
    assert_eq!(db.count_entries().unwrap(), 1);
    db.insert_entry_at("third", "h3", 30).unwrap();
    for _ in 0..49 {
        app.on_tick();
    }
    assert_eq!(app.entries.len(), 1);
    app.on_tick();
    assert_eq!(visible(&app), vec!["third", "second"]);
    assert_eq!(app.tick_count, 0);
    app.show_message("hi");
    assert_eq!(app.message, Some("hi".to_string()));
    app.clear_message();
    assert_eq!(app.message, None);
    let mut none = App::new(vec![], app.db_path.clone(), 80, 24);
    assert!(!none.delete_current_entry().unwrap());
}
