//! How the browser reacts to events.
//!
//! A key press first changes the state and says what it asks of the store
//! ([`EventHandler::handle_key`], which touches nothing but the state). The
//! request is then carried out against the store and its outcome folded
//! back into the state ([`EventHandler::perform`]).

use vstd::prelude::*;
use vstd::string::StringExecFns;
use crate::db::{Database, EntryView};
use crate::error::CliError;
use crate::text::{decimal, push_signed_decimal};
use crate::tui::app::{App, AppView};
use crate::tui::events::{Event, KeyCode, KeyEvent, KeyModifiers};
use crate::tui::mode::{DeletePeriod, Mode, CONFIRMATIONS_FOR_ALL, PERIOD_COUNT};

verus! {

/// What a key press asks of the store.
#[derive(Debug, Clone, Copy, PartialEq, Eq, Structural)]
pub enum StoreRequest {
    /// Nothing: the store is not touched.
    Nothing,
    /// Read the entries again.
    Refresh,
    /// Delete the entry with this id; the user has confirmed.
    DeleteEntry { id: i64 },
    /// Delete the entries of this period; the user has confirmed.
    DeleteRecent { period: DeletePeriod },
    /// Delete everything; the user has confirmed three times.
    ClearAll,
}

/// What a key press leads to, besides the change of state.
#[derive(Debug, Clone, Copy, PartialEq, Eq, Structural)]
pub struct Step {
    /// The session ends.
    pub exit: bool,
    pub request: StoreRequest,
}

/// Rows that Page Up and Page Down scroll the preview.
pub const PAGE_ROWS: usize = 10;

pub open spec fn stay(v: AppView) -> (AppView, Step) {
    (v, Step { exit: false, request: StoreRequest::Nothing })
}

pub open spec fn leave(v: AppView) -> (AppView, Step) {
    (v, Step { exit: true, request: StoreRequest::Nothing })
}

pub open spec fn ask(v: AppView, request: StoreRequest) -> (AppView, Step) {
    (v, Step { exit: false, request })
}

impl AppView {
    /// The preview scrolled up by `rows`, not past its top.
    pub open spec fn preview_up_by(self, rows: int) -> AppView {
        AppView {
            preview_scroll: if self.preview_scroll >= rows {
                self.preview_scroll - rows
            } else {
                0
            },
            ..self
        }
    }

    /// The preview scrolled down by `rows`, not past the largest offset.
    pub open spec fn preview_down_by(self, rows: int) -> AppView {
        AppView {
            preview_scroll: if self.preview_scroll + rows <= usize::MAX {
                self.preview_scroll + rows
            } else {
                usize::MAX as int
            },
            ..self
        }
    }

    /// A key in normal mode.
    pub open spec fn on_normal_key(self, key: KeyEvent) -> (AppView, Step) {
        match key.code {
            KeyCode::Up => if key.plain() {
                stay(self.select_up())
            } else {
                stay(self)
            },
            KeyCode::Down => if key.plain() {
                stay(self.select_down())
            } else {
                stay(self)
            },
            KeyCode::Enter => leave(self.select_entry()),
            KeyCode::Left => if key.plain() {
                stay(self.scroll_preview_up())
            } else {
                stay(self)
            },
            KeyCode::Right => if key.plain() {
                stay(self.scroll_preview_down())
            } else {
                stay(self)
            },
            KeyCode::PageUp => stay(self.preview_up_by(PAGE_ROWS as int)),
            KeyCode::PageDown => stay(self.preview_down_by(PAGE_ROWS as int)),
            KeyCode::Esc => if key.plain() {
                self.back_or_quit()
            } else {
                stay(self)
            },
            KeyCode::Delete => if key.plain() {
                stay(self.start_single_delete())
            } else {
                stay(self)
            },
            KeyCode::Char(c) => if key.plain() {
                if c == 'k' {
                    stay(self.select_up())
                } else if c == 'j' {
                    stay(self.select_down())
                } else if c == '/' {
                    stay(self.start_filtering())
                } else if c == 'r' {
                    ask(self, StoreRequest::Refresh)
                } else if c == 'd' {
                    stay(self.start_single_delete())
                } else if c == 'h' {
                    stay(self.scroll_preview_up())
                } else if c == 'l' {
                    stay(self.scroll_preview_down())
                } else if c == 'q' {
                    self.back_or_quit()
                } else if c == 'x' {
                    stay(self.start_single_delete())
                } else {
                    stay(self)
                }
            } else if key.with_control() {
                if c == 'c' {
                    leave(self)
                } else if c == 'd' {
                    stay(self.start_bulk_delete())
                } else {
                    stay(self)
                }
            } else if key.with_shift() && c == 'D' {
                stay(self.start_bulk_delete())
            } else {
                stay(self)
            },
            _ => stay(self),
        }
    }

    /// Escape and `q`: drop the filter if there is one, else end the
    /// session.
    pub open spec fn back_or_quit(self) -> (AppView, Step) {
        if self.mode == Mode::Filtering || self.filter_text.len() > 0 {
            stay(self.stop_filtering())
        } else {
            leave(self)
        }
    }

    /// A key while the filter is typed.
    pub open spec fn on_filter_key(self, key: KeyEvent) -> (AppView, Step) {
        match key.code {
            KeyCode::Esc => stay(self.stop_filtering()),
            KeyCode::Enter => stay(self.confirm_filter()),
            KeyCode::Backspace => stay(self.filter_pop()),
            KeyCode::Delete => stay(self.filter_pop()),
            KeyCode::Char(c) => if !key.has_control_and_alt() {
                stay(self.filter_push(c))
            } else {
                stay(self)
            },
            _ => stay(self),
        }
    }

    /// A key in the period dialog.
    pub open spec fn on_period_key(self, key: KeyEvent) -> (AppView, Step) {
        match key.code {
            KeyCode::Up => if key.plain() {
                stay(self.delete_period_up())
            } else {
                stay(self)
            },
            KeyCode::Down => if key.plain() {
                stay(self.delete_period_down())
            } else {
                stay(self)
            },
            KeyCode::Enter => stay(self.confirm_delete_period()),
            KeyCode::Esc => if key.plain() {
                stay(self.cancel_delete())
            } else {
                stay(self)
            },
            KeyCode::Char(c) => if key.plain() {
                if c == 'k' {
                    stay(self.delete_period_up())
                } else if c == 'j' {
                    stay(self.delete_period_down())
                } else if c == 'q' {
                    stay(self.cancel_delete())
                } else {
                    stay(self)
                }
            } else {
                stay(self)
            },
            _ => stay(self),
        }
    }

    /// A key while the browser asks whether to delete the selected entry.
    pub open spec fn on_single_key(self, key: KeyEvent) -> (AppView, Step) {
        if key.affirms() {
            match self.current() {
                Some(entry) => ask(
                    self.cancel_delete(),
                    StoreRequest::DeleteEntry { id: entry.id as i64 },
                ),
                None => stay(self.cancel_delete()),
            }
        } else if key.declines() {
            stay(self.cancel_delete())
        } else {
            stay(self)
        }
    }

    /// A key while the browser asks whether to delete a period.
    pub open spec fn on_bulk_key(self, key: KeyEvent, period: DeletePeriod) -> (AppView, Step) {
        if key.affirms() {
            ask(self.cancel_delete(), StoreRequest::DeleteRecent { period })
        } else if key.declines() {
            stay(self.cancel_delete())
        } else {
            stay(self)
        }
    }

    /// A key while the browser asks whether to delete everything. A yes
    /// counts; the third yes in a row asks the store to wipe. A no leaves
    /// the flow, and any other key starts the count over.
    pub open spec fn on_wipe_key(self, key: KeyEvent, confirmation_count: u8) -> (AppView, Step) {
        if key.affirms() {
            if confirmation_count + 1 >= CONFIRMATIONS_FOR_ALL {
                ask(self.cancel_delete(), StoreRequest::ClearAll)
            } else {
                stay(
                    AppView {
                        mode: Mode::ConfirmingAll {
                            confirmation_count: (confirmation_count + 1) as u8,
                        },
                        ..self
                    },
                )
            }
        } else if key.declines() {
            stay(self.cancel_delete())
        } else {
            stay(AppView { mode: Mode::ConfirmingAll { confirmation_count: 0 }, ..self })
        }
    }

    /// A key in the delete flow.
    pub open spec fn on_delete_key(self, key: KeyEvent) -> (AppView, Step) {
        match self.mode {
            Mode::SelectingPeriod => self.on_period_key(key),
            Mode::ConfirmingSingle => self.on_single_key(key),
            Mode::ConfirmingBulk { period } => self.on_bulk_key(key, period),
            Mode::ConfirmingAll { confirmation_count } => self.on_wipe_key(key, confirmation_count),
            _ => stay(self),
        }
    }

    /// A key press: the message on display goes, then the key acts
    /// according to the mode.
    pub open spec fn on_key(self, key: KeyEvent) -> (AppView, Step) {
        let cleared = self.clear_message();
        if cleared.mode.in_delete_flow() {
            cleared.on_delete_key(key)
        } else if cleared.mode == Mode::Filtering {
            cleared.on_filter_key(key)
        } else {
            cleared.on_normal_key(key)
        }
    }
}

/// `after` is `before` with a message that begins with `prefix`.
pub open spec fn reports(before: AppView, after: AppView, prefix: Seq<char>) -> bool {
    exists|detail: Seq<char>| after == #[trigger] before.show_message(prefix + detail)
}

/// `after` is `before` with the given message, and with what the store
/// holds now if that could be read.
pub open spec fn resynced_with(before: AppView, after: AppView, text: Seq<char>) -> bool {
    after == before.show_message(text) || exists|loaded: Seq<EntryView>|
        after == (#[trigger] before.resynced(loaded)).show_message(text)
}

pub open spec fn refresh_done() -> Seq<char> {
    "Refreshed ↻"@
}

pub open spec fn refresh_failed() -> Seq<char> {
    "Refresh failed: "@
}

pub open spec fn delete_failed() -> Seq<char> {
    "Delete failed: "@
}

pub open spec fn store_unavailable() -> Seq<char> {
    "Database error: "@
}

pub open spec fn entry_deleted_confirmed() -> Seq<char> {
    "Entry deleted ✓"@
}

pub open spec fn entry_not_found() -> Seq<char> {
    "Entry not found"@
}

pub open spec fn wrong_flow() -> Seq<char> {
    "Error: Use delete all confirmation"@
}

/// The message after a bulk delete of `count` entries.
pub open spec fn deleted_count(count: int) -> Seq<char> {
    "Deleted "@ + decimal(count) + " entries ✓"@
}

/// The message after a wipe of `count` entries.
pub open spec fn deleted_all_count(count: int) -> Seq<char> {
    "Deleted ALL "@ + decimal(count) + " entries ✓"@
}

/// Every way in which carrying out `request` can leave the state: one for
/// each answer that the store can give.
pub open spec fn performed(before: AppView, request: StoreRequest, after: AppView) -> bool {
    match request {
        StoreRequest::Nothing => after == before,
        StoreRequest::Refresh => {
            ||| exists|loaded: Seq<EntryView>|
                after == (#[trigger] before.refreshed(loaded)).show_message(refresh_done())
            ||| reports(before, after, refresh_failed())
        },
        StoreRequest::DeleteEntry { id } => {
            ||| after == before.show_message(entry_not_found())
            ||| resynced_with(before, after, entry_deleted_confirmed())
            ||| reports(before, after, delete_failed())
            ||| reports(before, after, store_unavailable())
        },
        StoreRequest::DeleteRecent { period } => if period == DeletePeriod::All {
            after == before.show_message(wrong_flow())
        } else {
            ||| exists|count: int| count >= 0 && resynced_with(before, after, #[trigger] deleted_count(count))
            ||| reports(before, after, delete_failed())
            ||| reports(before, after, store_unavailable())
        },
        StoreRequest::ClearAll => {
            ||| exists|count: int|
                count >= 0 && resynced_with(before, after, #[trigger] deleted_all_count(count))
            ||| reports(before, after, delete_failed())
            ||| reports(before, after, store_unavailable())
        },
    }
}

/// Every way in which an event can leave the state.
pub open spec fn handled(before: AppView, event: Event, after: AppView) -> bool {
    match event {
        Event::Key(key) => performed(before.on_key(key).0, before.on_key(key).1.request, after),
        Event::Mouse => after == before,
        Event::Resize(width, height) => after == before.update_terminal_size(
            width as int,
            height as int,
        ),
        Event::Tick => if before.ticked().1 {
            after == before.ticked().0 || exists|loaded: Seq<EntryView>|
                after == #[trigger] before.ticked().0.refreshed(loaded)
        } else {
            after == before.ticked().0
        },
    }
}

/// Whether an event ends the session.
pub open spec fn exits(before: AppView, event: Event) -> bool {
    event matches Event::Key(key) && before.on_key(key).1.exit
}

/// Two yeses in a row ask nothing of the store and change no entry; the
/// third asks for the wipe and ends the count.
pub proof fn lemma_wipe_takes_three(v: AppView, first: KeyEvent, second: KeyEvent, third: KeyEvent)
    requires
        v.mode == (Mode::ConfirmingAll { confirmation_count: 0 }),
        first.affirms(),
        second.affirms(),
        third.affirms(),
    ensures
        ({
            let (one, step_one) = v.on_key(first);
            let (two, step_two) = one.on_key(second);
            let (three, step_three) = two.on_key(third);
            &&& step_one == (Step { exit: false, request: StoreRequest::Nothing })
            &&& step_two == (Step { exit: false, request: StoreRequest::Nothing })
            &&& one.mode == (Mode::ConfirmingAll { confirmation_count: 1 })
            &&& two.mode == (Mode::ConfirmingAll { confirmation_count: 2 })
            &&& two.entries == v.entries
            &&& step_three == (Step { exit: false, request: StoreRequest::ClearAll })
            &&& three.mode == Mode::Normal
            &&& three.mode.confirmations() == 0
            &&& three.entries == v.entries
        }),
{
}

/// While the browser asks whether to delete everything, any key that is
/// not a yes brings the count back to zero and asks nothing of the store.
pub proof fn lemma_other_key_resets_count(v: AppView, key: KeyEvent)
    requires
        v.mode is ConfirmingAll,
        !key.affirms(),
    ensures
        v.on_key(key).0.mode.confirmations() == 0,
        v.on_key(key).1 == (Step { exit: false, request: StoreRequest::Nothing }),
        v.on_key(key).0.entries == v.entries,
{
}

/// A key asks for the wipe only as the third yes in a row.
pub proof fn lemma_wipe_only_on_third_yes(v: AppView, key: KeyEvent)
    ensures
        v.on_key(key).1.request == StoreRequest::ClearAll <==> (key.affirms()
            && v.mode.confirmations() + 1 >= CONFIRMATIONS_FOR_ALL),
{
}

/// A key asks the store to delete only as a yes to the question that is
/// open: a single entry while that is asked, a period while that is asked,
/// everything as the third yes. Outside of the delete flow no key asks for
/// a delete.
pub proof fn lemma_delete_needs_confirmation(v: AppView, key: KeyEvent)
    ensures
        v.on_key(key).1.request is DeleteEntry ==> v.mode == Mode::ConfirmingSingle
            && key.affirms(),
        v.on_key(key).1.request is DeleteRecent ==> v.mode is ConfirmingBulk && key.affirms(),
        v.on_key(key).1.request is ClearAll ==> v.mode is ConfirmingAll && key.affirms(),
        !v.mode.in_delete_flow() ==> v.on_key(key).1.request == StoreRequest::Nothing || v.on_key(
            key,
        ).1.request == StoreRequest::Refresh,
{
}

/// In normal mode a key can at most open a question: the mode after it is
/// normal, filtering, the question for the selected entry, or the choice
/// of a period.
pub proof fn lemma_normal_key_opens_at_most_a_question(v: AppView, key: KeyEvent)
    requires
        v.mode == Mode::Normal,
    ensures
        ({
            let after = v.on_key(key).0.mode;
            after == Mode::Normal || after == Mode::Filtering || after == Mode::ConfirmingSingle
                || after == Mode::SelectingPeriod
        }),
{
}

/// A key press alone changes no entry: entries change only when a request
/// to the store is carried out.
pub proof fn lemma_key_keeps_entries(v: AppView, key: KeyEvent)
    ensures
        v.on_key(key).0.entries == v.entries,
{
}

/// Filtering and the delete flow exclude one another: a key never acts in
/// both, and typing a filter never asks anything of the store.
pub proof fn lemma_filtering_asks_nothing(v: AppView, key: KeyEvent)
    requires
        v.mode == Mode::Filtering,
    ensures
        v.on_key(key).1 == (Step { exit: false, request: StoreRequest::Nothing }),
        !v.on_key(key).0.mode.in_delete_flow(),
{
}

/// The chosen time range stays one of the six: if the index names a range
/// before a key press, it names one after it.
pub proof fn lemma_key_keeps_period_in_range(v: AppView, key: KeyEvent)
    requires
        0 <= v.delete_period_index < PERIOD_COUNT,
    ensures
        0 <= v.on_key(key).0.delete_period_index < PERIOD_COUNT,
{
}

/// A key press fills in the text to copy only from the row that the
/// selection points at: with no row there, what was there before stays.
pub proof fn lemma_key_copies_only_a_row(v: AppView, key: KeyEvent)
    requires
        v.current() is None,
    ensures
        v.on_key(key).0.selected_entry == v.selected_entry,
{
}

/// The selection never leaves the filtered view: if it points at a row, or
/// at 0 while there is none, it does so after every key press.
pub proof fn lemma_key_keeps_selection_in_bounds(v: AppView, key: KeyEvent)
    requires
        v.selection_in_bounds(),
    ensures
        v.on_key(key).0.selection_in_bounds(),
{
    let cleared = v.clear_message();
    assert(cleared.visible() == v.visible());
    crate::tui::app::lemma_navigation_keeps_selection(cleared);
}

/// And it does so after every event, whatever the store answers.
pub proof fn lemma_event_keeps_selection_in_bounds(before: AppView, event: Event, after: AppView)
    requires
        before.selection_in_bounds(),
        handled(before, event, after),
    ensures
        after.selection_in_bounds(),
{
    match event {
        Event::Key(key) => {
            lemma_key_keeps_selection_in_bounds(before, key);
            let mid = before.on_key(key).0;
            lemma_performed_keeps_selection_in_bounds(mid, before.on_key(key).1.request, after);
        },
        _ => {},
    }
}

/// Carrying out a request leaves the selection inside the filtered view.
pub proof fn lemma_performed_keeps_selection_in_bounds(
    before: AppView,
    request: StoreRequest,
    after: AppView,
)
    requires
        before.selection_in_bounds(),
        performed(before, request, after),
    ensures
        after.selection_in_bounds(),
{
}

/// `prefix` followed by the message of `e`.
fn failure_text(prefix: &str, e: &CliError) -> (r: String)
    ensures
        exists|detail: Seq<char>| r@ == prefix@ + detail,
{
    let detail = e.message();
    let r = String::from_str(prefix).concat(detail.as_str());
    assert(r@ == prefix@ + detail@);
    r
}

/// The message after a bulk delete of `count` entries.
pub fn deleted_count_text(count: i64) -> (r: String)
    ensures
        r@ == deleted_count(count as int),
{
    let mut out = String::from_str("Deleted ");
    push_signed_decimal(&mut out, count);
    out.append(" entries ✓");
    out
}

/// The message after a wipe of `count` entries.
pub fn deleted_all_count_text(count: i64) -> (r: String)
    ensures
        r@ == deleted_all_count(count as int),
{
    let mut out = String::from_str("Deleted ALL ");
    push_signed_decimal(&mut out, count);
    out.append(" entries ✓");
    out
}

pub struct EventHandler;

impl EventHandler {
    /// Handles one event: changes the state, carries out what the event asks
    /// of the store at the state's `db_path`, and says whether the session
    /// ends.
    pub fn handle(event: &Event, app: &mut App) -> (exit: bool)
        ensures
            exit == exits(old(app)@, *event),
            handled(old(app)@, *event, final(app)@),
    {
        match event {
            Event::Key(key) => {
                let step = Self::handle_key(*key, app);
                Self::perform(step.request, app);
                step.exit
            },
            Event::Mouse => false,
            Event::Resize(width, height) => {
                app.update_terminal_size(*width as usize, *height as usize);
                false
            },
            Event::Tick => {
                app.on_tick();
                false
            },
        }
    }

    /// Applies a key press to the state, and says whether the session ends
    /// and what the key asks of the store. The store is not touched.
    pub fn handle_key(key: KeyEvent, app: &mut App) -> (step: Step)
        ensures
            (final(app)@, step) == old(app)@.on_key(key),
    {
        app.clear_message();
        if app.is_in_delete_mode() {
            Self::handle_delete_mode(key, app)
        } else if app.is_filtering() {
            Self::handle_filter_mode(key, app)
        } else {
            Self::handle_normal_mode(key, app)
        }
    }

    fn stay() -> (step: Step)
        ensures
            step == (Step { exit: false, request: StoreRequest::Nothing }),
    {
        Step { exit: false, request: StoreRequest::Nothing }
    }

    fn leave() -> (step: Step)
        ensures
            step == (Step { exit: true, request: StoreRequest::Nothing }),
    {
        Step { exit: true, request: StoreRequest::Nothing }
    }

    fn ask(request: StoreRequest) -> (step: Step)
        ensures
            step == (Step { exit: false, request }),
    {
        Step { exit: false, request }
    }

    fn back_or_quit(app: &mut App) -> (step: Step)
        ensures
            (final(app)@, step) == old(app)@.back_or_quit(),
    {
        if app.is_filtering() || !app.filter_text.as_str().is_empty() {
            app.stop_filtering();
            Self::stay()
        } else {
            Self::leave()
        }
    }

    fn scroll_preview_page_up(app: &mut App)
        ensures
            final(app)@ == old(app)@.preview_up_by(PAGE_ROWS as int),
    {
        let mut i: usize = 0;
        while i < PAGE_ROWS
            invariant
                i <= PAGE_ROWS,
                app@ == old(app)@.preview_up_by(i as int),
            decreases PAGE_ROWS - i,
        {
            app.scroll_preview_up();
            i += 1;
        }
    }

    fn scroll_preview_page_down(app: &mut App)
        ensures
            final(app)@ == old(app)@.preview_down_by(PAGE_ROWS as int),
    {
        let mut i: usize = 0;
        while i < PAGE_ROWS
            invariant
                i <= PAGE_ROWS,
                app@ == old(app)@.preview_down_by(i as int),
            decreases PAGE_ROWS - i,
        {
            app.scroll_preview_down();
            i += 1;
        }
    }

    /// A key in normal mode.
    pub fn handle_normal_mode(key: KeyEvent, app: &mut App) -> (step: Step)
        ensures
            (final(app)@, step) == old(app)@.on_normal_key(key),
    {
        let plain: bool = key.modifiers == KeyModifiers::NONE;
        let control: bool = key.modifiers == KeyModifiers::CONTROL;
        let shift: bool = key.modifiers == KeyModifiers::SHIFT;
        match key.code {
            KeyCode::Up => {
                if plain {
                    app.select_up();
                }
                Self::stay()
            },
            KeyCode::Down => {
                if plain {
                    app.select_down();
                }
                Self::stay()
            },
            KeyCode::Enter => {
                let _ = app.select_entry();
                Self::leave()
            },
            KeyCode::Left => {
                if plain {
                    app.scroll_preview_up();
                }
                Self::stay()
            },
            KeyCode::Right => {
                if plain {
                    app.scroll_preview_down();
                }
                Self::stay()
            },
            KeyCode::PageUp => {
                Self::scroll_preview_page_up(app);
                Self::stay()
            },
            KeyCode::PageDown => {
                Self::scroll_preview_page_down(app);
                Self::stay()
            },
            KeyCode::Esc => {
                if plain {
                    Self::back_or_quit(app)
                } else {
                    Self::stay()
                }
            },
            KeyCode::Delete => {
                if plain {
                    app.start_single_delete();
                }
                Self::stay()
            },
            KeyCode::Char(c) => {
                if plain {
                    if c == 'k' {
                        app.select_up();
                        Self::stay()
                    } else if c == 'j' {
                        app.select_down();
                        Self::stay()
                    } else if c == '/' {
                        app.start_filtering();
                        Self::stay()
                    } else if c == 'r' {
                        Self::ask(StoreRequest::Refresh)
                    } else if c == 'd' {
                        app.start_single_delete();
                        Self::stay()
                    } else if c == 'h' {
                        app.scroll_preview_up();
                        Self::stay()
                    } else if c == 'l' {
                        app.scroll_preview_down();
                        Self::stay()
                    } else if c == 'q' {
                        Self::back_or_quit(app)
                    } else if c == 'x' {
                        app.start_single_delete();
                        Self::stay()
                    } else {
                        Self::stay()
                    }
                } else if control {
                    if c == 'c' {
                        Self::leave()
                    } else if c == 'd' {
                        app.start_bulk_delete();
                        Self::stay()
                    } else {
                        Self::stay()
                    }
                } else if shift && c == 'D' {
                    app.start_bulk_delete();
                    Self::stay()
                } else {
                    Self::stay()
                }
            },
            _ => Self::stay(),
        }
    }

    /// A key while the filter is typed.
    pub fn handle_filter_mode(key: KeyEvent, app: &mut App) -> (step: Step)
        ensures
            (final(app)@, step) == old(app)@.on_filter_key(key),
    {
        match key.code {
            KeyCode::Esc => {
                app.stop_filtering();
            },
            KeyCode::Enter => {
                app.confirm_filter();
            },
            KeyCode::Backspace => {
                app.filter_pop();
            },
            KeyCode::Delete => {
                app.filter_pop();
            },
            KeyCode::Char(c) => {
                if !key.control_and_alt() {
                    app.filter_push(c);
                }
            },
            _ => {},
        }
        Self::stay()
    }

    fn affirms(key: &KeyEvent) -> (r: bool)
        ensures
            r == key.affirms(),
    {
        match key.code {
            KeyCode::Char(c) => c == 'y' || c == 'Y',
            _ => false,
        }
    }

    fn declines(key: &KeyEvent) -> (r: bool)
        ensures
            r == key.declines(),
    {
        match key.code {
            KeyCode::Char(c) => c == 'n' || c == 'N',
            KeyCode::Esc => true,
            _ => false,
        }
    }

    fn handle_period_key(key: KeyEvent, app: &mut App) -> (step: Step)
        ensures
            (final(app)@, step) == old(app)@.on_period_key(key),
    {
        let plain: bool = key.modifiers == KeyModifiers::NONE;
        match key.code {
            KeyCode::Up => {
                if plain {
                    app.delete_period_up();
                }
            },
            KeyCode::Down => {
                if plain {
                    app.delete_period_down();
                }
            },
            KeyCode::Enter => {
                app.confirm_delete_period();
            },
            KeyCode::Esc => {
                if plain {
                    app.cancel_delete();
                }
            },
            KeyCode::Char(c) => {
                if plain {
                    if c == 'k' {
                        app.delete_period_up();
                    } else if c == 'j' {
                        app.delete_period_down();
                    } else if c == 'q' {
                        app.cancel_delete();
                    }
                }
            },
            _ => {},
        }
        Self::stay()
    }

    /// A key in the delete flow.
    pub fn handle_delete_mode(key: KeyEvent, app: &mut App) -> (step: Step)
        ensures
            (final(app)@, step) == old(app)@.on_delete_key(key),
    {
        let yes: bool = Self::affirms(&key);
        let no: bool = Self::declines(&key);
        match app.mode {
            Mode::SelectingPeriod => Self::handle_period_key(key, app),
            Mode::ConfirmingSingle => {
                if yes {
                    let id: Option<i64> = match app.current_entry() {
                        Some(entry) => Some(entry.id),
                        None => None,
                    };
                    app.cancel_delete();
                    match id {
                        Some(id) => Self::ask(StoreRequest::DeleteEntry { id }),
                        None => Self::stay(),
                    }
                } else {
                    if no {
                        app.cancel_delete();
                    }
                    Self::stay()
                }
            },
            Mode::ConfirmingBulk { period } => {
                if yes {
                    app.cancel_delete();
                    Self::ask(StoreRequest::DeleteRecent { period })
                } else {
                    if no {
                        app.cancel_delete();
                    }
                    Self::stay()
                }
            },
            Mode::ConfirmingAll { confirmation_count } => {
                if yes {
                    if confirmation_count >= CONFIRMATIONS_FOR_ALL - 1 {
                        app.cancel_delete();
                        Self::ask(StoreRequest::ClearAll)
                    } else {
                        app.mode = Mode::ConfirmingAll {
                            confirmation_count: confirmation_count + 1,
                        };
                        Self::stay()
                    }
                } else if no {
                    app.cancel_delete();
                    Self::stay()
                } else {
                    app.mode = Mode::ConfirmingAll { confirmation_count: 0 };
                    Self::stay()
                }
            },
            _ => Self::stay(),
        }
    }

    /// Carries out a request against the store at the state's `db_path` and
    /// folds the outcome into the state: a message in every case, and the
    /// store's entries after a delete.
    pub fn perform(request: StoreRequest, app: &mut App)
        ensures
            performed(old(app)@, request, final(app)@),
    {
        match request {
            StoreRequest::Nothing => {},
            StoreRequest::Refresh => Self::perform_refresh(app),
            StoreRequest::DeleteEntry { id } => Self::perform_single_delete(app, id),
            StoreRequest::DeleteRecent { period } => Self::perform_bulk_delete(app, period),
            StoreRequest::ClearAll => Self::perform_delete_all(app),
        }
    }

    fn perform_refresh(app: &mut App)
        ensures
            performed(old(app)@, StoreRequest::Refresh, final(app)@),
    {
        match app.refresh() {
            Ok(()) => {
                app.show_message("Refreshed ↻");
            },
            Err(e) => {
                let text = failure_text("Refresh failed: ", &e);
                app.show_message(text.as_str());
            },
        }
    }

    /// Reads the store's entries into the state after a delete, and shows
    /// `text`. If the entries cannot be read the snapshot stays.
    fn resync_with(app: &mut App, db: &Database, text: &str)
        ensures
            resynced_with(old(app)@, final(app)@, text@),
    {
        match db.get_all_entries() {
            Ok(loaded) => {
                app.resync(loaded);
            },
            Err(_) => {},
        }
        app.show_message(text);
    }

    fn perform_single_delete(app: &mut App, id: i64)
        ensures
            performed(old(app)@, StoreRequest::DeleteEntry { id }, final(app)@),
    {
        match Database::open(app.db_path.as_str()) {
            Ok(db) => {
                match db.delete_entry_by_id(id) {
                    Ok(true) => {
                        Self::resync_with(app, &db, "Entry deleted ✓");
                    },
                    Ok(false) => {
                        app.show_message("Entry not found");
                    },
                    Err(e) => {
                        let text = failure_text("Delete failed: ", &e);
                        app.show_message(text.as_str());
                    },
                }
            },
            Err(e) => {
                let text = failure_text("Database error: ", &e);
                app.show_message(text.as_str());
            },
        }
    }

    fn perform_bulk_delete(app: &mut App, period: DeletePeriod)
        ensures
            performed(old(app)@, StoreRequest::DeleteRecent { period }, final(app)@),
    {
        let (count, unit_seconds) = match period.to_span() {
            Some(span) => span,
            None => {
                app.show_message("Error: Use delete all confirmation");
                return ;
            },
        };
        match Database::open(app.db_path.as_str()) {
            Ok(db) => {
                match db.delete_copied_within(count, unit_seconds) {
                    Ok(count) => {
                        let text = deleted_count_text(count);
                        Self::resync_with(app, &db, text.as_str());
                        assert(resynced_with(old(app)@, app@, deleted_count(count as int)));
                    },
                    Err(e) => {
                        let text = failure_text("Delete failed: ", &e);
                        app.show_message(text.as_str());
                    },
                }
            },
            Err(e) => {
                let text = failure_text("Database error: ", &e);
                app.show_message(text.as_str());
            },
        }
    }

    fn perform_delete_all(app: &mut App)
        ensures
            performed(old(app)@, StoreRequest::ClearAll, final(app)@),
    {
        match Database::open(app.db_path.as_str()) {
            Ok(db) => {
                match db.clear_all() {
                    Ok(count) => {
                        let text = deleted_all_count_text(count);
                        Self::resync_with(app, &db, text.as_str());
                        assert(resynced_with(old(app)@, app@, deleted_all_count(count as int)));
                    },
                    Err(e) => {
                        let text = failure_text("Delete failed: ", &e);
                        app.show_message(text.as_str());
                    },
                }
            },
            Err(e) => {
                let text = failure_text("Database error: ", &e);
                app.show_message(text.as_str());
            },
        }
    }
}

} // verus!
