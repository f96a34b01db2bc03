//! The browser's state: the cached entries, the filter, the selection and
//! the mode, with the operations that the keys are bound to.

use vstd::prelude::*;
use vstd::string::StringExecFns;
use crate::db::{entry_views, ClipboardEntry, Database, EntryView};
use crate::error::CliError;
use crate::text::{
    contains_query, decimal, lowercase, push_decimal, same_text, string_pop, string_push,
};
use crate::tui::fuzzy::{as_ints, fuzzy_match, is_subsequence};
use crate::tui::mode::{DeleteMode, DeletePeriod, Mode, PERIOD_COUNT};

verus! {

/// Rows of the terminal that the list does not get.
pub const CHROME_ROWS: usize = 4;

/// Ticks between two automatic refreshes.
pub const TICKS_PER_REFRESH: usize = 50;

/// The browser's state.
#[derive(Debug)]
pub struct App {
    /// Snapshot of the store, the most recently copied entry first.
    pub entries: Vec<ClipboardEntry>,
    /// Index of the selected row in the filtered view.
    pub selected_index: usize,
    /// Index in the filtered view of the first row shown.
    pub scroll_offset: usize,
    pub filter_text: String,
    pub mode: Mode,
    pub message: Option<String>,
    pub loading: bool,
    /// The content that the session hands back to the clipboard.
    pub selected_entry: Option<String>,
    pub terminal_width: usize,
    pub terminal_height: usize,
    pub db_path: String,
    pub preview_scroll: usize,
    pub tick_count: usize,
    /// Selected row of the period dialog.
    pub delete_period_index: usize,
}

/// The state of the browser as plain values.
pub struct AppView {
    pub entries: Seq<EntryView>,
    pub selected_index: int,
    pub scroll_offset: int,
    pub filter_text: Seq<char>,
    pub mode: Mode,
    pub message: Option<Seq<char>>,
    pub loading: bool,
    pub selected_entry: Option<Seq<char>>,
    pub terminal_width: int,
    pub terminal_height: int,
    pub db_path: Seq<char>,
    pub preview_scroll: int,
    pub tick_count: int,
    pub delete_period_index: int,
}

pub open spec fn option_view(s: Option<String>) -> Option<Seq<char>> {
    match s {
        Some(text) => Some(text@),
        None => None,
    }
}

impl View for App {
    type V = AppView;

    open spec fn view(&self) -> AppView {
        AppView {
            entries: entry_views(self.entries@),
            selected_index: self.selected_index as int,
            scroll_offset: self.scroll_offset as int,
            filter_text: self.filter_text@,
            mode: self.mode,
            message: option_view(self.message),
            loading: self.loading,
            selected_entry: option_view(self.selected_entry),
            terminal_width: self.terminal_width as int,
            terminal_height: self.terminal_height as int,
            db_path: self.db_path@,
            preview_scroll: self.preview_scroll as int,
            tick_count: self.tick_count as int,
            delete_period_index: self.delete_period_index as int,
        }
    }
}

/// The filter matches the content, ignoring case.
pub open spec fn matches_filter(content: Seq<char>, filter: Seq<char>) -> bool {
    is_subsequence(lowercase(content), lowercase(filter))
}

/// The filter occurs in the content as one piece, ignoring case.
pub open spec fn matches_exactly(content: Seq<char>, filter: Seq<char>) -> bool {
    contains_query(lowercase(content), lowercase(filter))
}

/// The indices `0, 1, .., n - 1`.
pub open spec fn indices(n: int) -> Seq<int> {
    Seq::new(n as nat, |i: int| i)
}

/// Says of an index whether the filter matches that entry exactly.
pub open spec fn in_exact_tier(entries: Seq<EntryView>, filter: Seq<char>) -> spec_fn(int) -> bool {
    |i: int| matches_exactly(entries[i].content, filter)
}

/// Says of an index whether the filter matches that entry, but not exactly.
pub open spec fn in_fuzzy_tier(entries: Seq<EntryView>, filter: Seq<char>) -> spec_fn(int) -> bool {
    |i: int| matches_filter(entries[i].content, filter) && !matches_exactly(entries[i].content, filter)
}

/// The filtered view, as indices into the entries: with an empty filter
/// every entry in order; otherwise the exact matches in their order, then
/// the other matches in theirs.
pub open spec fn visible_indices(entries: Seq<EntryView>, filter: Seq<char>) -> Seq<int> {
    if filter.len() == 0 {
        indices(entries.len() as int)
    } else {
        indices(entries.len() as int).filter(in_exact_tier(entries, filter)) + indices(
            entries.len() as int,
        ).filter(in_fuzzy_tier(entries, filter))
    }
}

/// What filtering the first `n` indices keeps: indices below `n` that
/// satisfy the predicate, all of those, in ascending order.
pub proof fn lemma_filtered_indices(n: int, pred: spec_fn(int) -> bool)
    requires
        0 <= n,
    ensures
        forall|k: int|
            0 <= k < indices(n).filter(pred).len() ==> {
                let i = #[trigger] indices(n).filter(pred)[k];
                0 <= i < n && pred(i)
            },
        forall|i: int| 0 <= i < n && pred(i) ==> indices(n).filter(pred).contains(i),
        forall|a: int, b: int|
            0 <= a < b < indices(n).filter(pred).len() ==> indices(n).filter(pred)[a] < indices(
                n,
            ).filter(pred)[b],
    decreases n,
{
    reveal(Seq::filter);
    if n > 0 {
        lemma_filtered_indices(n - 1, pred);
        let shorter = indices(n - 1).filter(pred);
        let longer = indices(n).filter(pred);
        assert(indices(n).drop_last() =~= indices(n - 1));
        assert(indices(n).last() == n - 1);
        if pred(n - 1) {
            assert(longer == shorter.push(n - 1));
            assert(longer[longer.len() - 1] == n - 1);
        } else {
            assert(longer == shorter);
        }
        assert forall|i: int| 0 <= i < n && pred(i) implies longer.contains(i) by {
            if i < n - 1 {
                assert(shorter.contains(i));
                let k = choose|k: int| 0 <= k < shorter.len() && shorter[k] == i;
                assert(longer[k] == i);
            } else {
                assert(longer[longer.len() - 1] == i);
            }
        }
    }
}

/// In the filtered view every exact match stands before every other match,
/// and inside each of the two groups the entries keep the order in which the
/// store listed them. The view shows exactly the entries that the filter
/// matches.
pub proof fn lemma_exact_before_fuzzy(entries: Seq<EntryView>, filter: Seq<char>)
    requires
        filter.len() > 0,
    ensures
        forall|k: int|
            0 <= k < visible_indices(entries, filter).len() ==> {
                let i = #[trigger] visible_indices(entries, filter)[k];
                0 <= i < entries.len() && matches_filter(entries[i].content, filter)
            },
        forall|i: int|
            0 <= i < entries.len() && matches_filter(entries[i].content, filter)
                ==> visible_indices(entries, filter).contains(i),
        forall|a: int, b: int|
            #![trigger visible_indices(entries, filter)[a], visible_indices(entries, filter)[b]]
            0 <= a < b < visible_indices(entries, filter).len() && matches_exactly(
                entries[visible_indices(entries, filter)[b]].content,
                filter,
            ) ==> matches_exactly(entries[visible_indices(entries, filter)[a]].content, filter),
        forall|a: int, b: int|
            #![trigger visible_indices(entries, filter)[a], visible_indices(entries, filter)[b]]
            0 <= a < b < visible_indices(entries, filter).len() && (matches_exactly(
                entries[visible_indices(entries, filter)[a]].content,
                filter,
            ) == matches_exactly(entries[visible_indices(entries, filter)[b]].content, filter))
                ==> visible_indices(entries, filter)[a] < visible_indices(entries, filter)[b],
{
    let n = entries.len() as int;
    let exact = indices(n).filter(in_exact_tier(entries, filter));
    let fuzzy = indices(n).filter(in_fuzzy_tier(entries, filter));
    let v = visible_indices(entries, filter);
    lemma_filtered_indices(n, in_exact_tier(entries, filter));
    lemma_filtered_indices(n, in_fuzzy_tier(entries, filter));
    assert(v == exact + fuzzy);
    assert forall|k: int| 0 <= k < v.len() implies {
        let i = #[trigger] v[k];
        0 <= i < entries.len() && matches_filter(entries[i].content, filter)
    } by {
        if k < exact.len() {
            assert(v[k] == exact[k]);
            crate::tui::fuzzy::lemma_exact_is_match(
                lowercase(entries[v[k]].content),
                lowercase(filter),
            );
        } else {
            assert(v[k] == fuzzy[k - exact.len()]);
        }
    }
    assert forall|i: int|
        0 <= i < entries.len() && matches_filter(entries[i].content, filter) implies v.contains(
        i,
    ) by {
        if matches_exactly(entries[i].content, filter) {
            assert(exact.contains(i));
            let k = choose|k: int| 0 <= k < exact.len() && exact[k] == i;
            assert(v[k] == i);
        } else {
            assert(fuzzy.contains(i));
            let k = choose|k: int| 0 <= k < fuzzy.len() && fuzzy[k] == i;
            assert(v[exact.len() + k] == i);
        }
    }
    assert forall|a: int, b: int|
        #![trigger v[a], v[b]]
        0 <= a < b < v.len() && matches_exactly(entries[v[b]].content, filter) implies matches_exactly(
        entries[v[a]].content,
        filter,
    ) by {
        if b >= exact.len() {
            assert(v[b] == fuzzy[b - exact.len()]);
        }
        assert(v[a] == exact[a]);
    }
    assert forall|a: int, b: int|
        #![trigger v[a], v[b]]
        0 <= a < b < v.len() && (matches_exactly(entries[v[a]].content, filter) == matches_exactly(
            entries[v[b]].content,
            filter,
        )) implies v[a] < v[b] by {
        if a < exact.len() {
            assert(v[a] == exact[a]);
            if b >= exact.len() {
                assert(v[b] == fuzzy[b - exact.len()]);
            } else {
                assert(v[b] == exact[b]);
            }
        } else {
            assert(v[a] == fuzzy[a - exact.len()]);
            assert(v[b] == fuzzy[b - exact.len()]);
        }
    }
}

impl AppView {
    /// The filtered view, as indices into the entries.
    pub open spec fn visible(self) -> Seq<int> {
        visible_indices(self.entries, self.filter_text)
    }

    /// The selected entry, if the selection points at one.
    pub open spec fn current(self) -> Option<EntryView> {
        if 0 <= self.selected_index < self.visible().len() {
            Some(self.entries[self.visible()[self.selected_index]])
        } else {
            None
        }
    }

    /// Rows that the list can show.
    pub open spec fn list_height(self) -> int {
        if self.terminal_height >= CHROME_ROWS {
            self.terminal_height - CHROME_ROWS
        } else {
            0
        }
    }

    /// Selection and both scroll positions back at the top.
    pub open spec fn reset_selection(self) -> AppView {
        AppView { selected_index: 0, scroll_offset: 0, preview_scroll: 0, ..self }
    }

    /// The selected row is inside the window of rows that the list shows.
    pub open spec fn selection_visible(self) -> bool {
        self.scroll_offset <= self.selected_index < self.scroll_offset + self.list_height()
    }

    /// The selection points at a row of the filtered view, or at 0 while
    /// the view is empty.
    pub open spec fn selection_in_bounds(self) -> bool {
        0 <= self.selected_index && (self.selected_index < self.visible().len()
            || self.selected_index == 0)
    }

    /// One row up, unless the selection is on the first row. The window
    /// follows only if the selection left it at the top.
    pub open spec fn select_up(self) -> AppView {
        if self.selected_index > 0 {
            AppView {
                selected_index: self.selected_index - 1,
                preview_scroll: 0,
                scroll_offset: if self.selected_index - 1 < self.scroll_offset {
                    self.selected_index - 1
                } else {
                    self.scroll_offset
                },
                ..self
            }
        } else {
            self
        }
    }

    /// One row down, unless the selection is on the last row. The window
    /// follows only if the selection left it at the bottom.
    pub open spec fn select_down(self) -> AppView {
        if self.selected_index + 1 < self.visible().len() {
            AppView {
                selected_index: self.selected_index + 1,
                preview_scroll: 0,
                scroll_offset: if self.selected_index + 1 >= self.scroll_offset
                    + self.list_height() {
                    self.selected_index + 1 - self.list_height() + 1
                } else {
                    self.scroll_offset
                },
                ..self
            }
        } else {
            self
        }
    }

    pub open spec fn start_filtering(self) -> AppView {
        AppView { mode: Mode::Filtering, filter_text: Seq::empty(), ..self.reset_selection() }
    }

    /// Leaves filtering (any other mode stays) and drops the filter.
    pub open spec fn stop_filtering(self) -> AppView {
        AppView {
            mode: if self.mode == Mode::Filtering {
                Mode::Normal
            } else {
                self.mode
            },
            filter_text: Seq::empty(),
            ..self.reset_selection()
        }
    }

    pub open spec fn filter_push(self, ch: char) -> AppView {
        AppView { filter_text: self.filter_text.push(ch), ..self.reset_selection() }
    }

    pub open spec fn filter_pop(self) -> AppView {
        AppView {
            filter_text: if self.filter_text.len() > 0 {
                self.filter_text.drop_last()
            } else {
                self.filter_text
            },
            ..self.reset_selection()
        }
    }

    /// Leaves filtering (any other mode stays) and keeps the filter.
    pub open spec fn confirm_filter(self) -> AppView {
        AppView {
            mode: if self.mode == Mode::Filtering {
                Mode::Normal
            } else {
                self.mode
            },
            ..self
        }
    }

    /// The content of the selected entry becomes the value to hand back.
    pub open spec fn select_entry(self) -> AppView {
        match self.current() {
            Some(entry) => AppView { selected_entry: Some(entry.content), ..self },
            None => self,
        }
    }

    pub open spec fn show_message(self, msg: Seq<char>) -> AppView {
        AppView { message: Some(msg), ..self }
    }

    pub open spec fn clear_message(self) -> AppView {
        AppView { message: None, ..self }
    }

    pub open spec fn update_terminal_size(self, width: int, height: int) -> AppView {
        AppView { terminal_width: width, terminal_height: height, ..self }
    }

    pub open spec fn scroll_preview_up(self) -> AppView {
        AppView {
            preview_scroll: if self.preview_scroll > 0 {
                self.preview_scroll - 1
            } else {
                0
            },
            ..self
        }
    }

    pub open spec fn scroll_preview_down(self) -> AppView {
        AppView {
            preview_scroll: if self.preview_scroll < usize::MAX {
                self.preview_scroll + 1
            } else {
                self.preview_scroll
            },
            ..self
        }
    }

    pub open spec fn reset_preview_scroll(self) -> AppView {
        AppView { preview_scroll: 0, ..self }
    }

    pub open spec fn start_bulk_delete(self) -> AppView {
        AppView { mode: Mode::SelectingPeriod, delete_period_index: 0, ..self }
    }

    /// Asks whether to delete the selected entry, if there is one.
    pub open spec fn start_single_delete(self) -> AppView {
        if self.current() is Some {
            AppView { mode: Mode::ConfirmingSingle, ..self }
        } else {
            self
        }
    }

    /// Leaves the delete flow (any other mode stays).
    pub open spec fn cancel_delete(self) -> AppView {
        AppView {
            mode: if self.mode.in_delete_flow() {
                Mode::Normal
            } else {
                self.mode
            },
            delete_period_index: 0,
            ..self
        }
    }

    pub open spec fn delete_period_up(self) -> AppView {
        if self.delete_period_index > 0 {
            AppView { delete_period_index: self.delete_period_index - 1, ..self }
        } else {
            self
        }
    }

    pub open spec fn delete_period_down(self) -> AppView {
        if self.delete_period_index < PERIOD_COUNT - 1 {
            AppView { delete_period_index: self.delete_period_index + 1, ..self }
        } else {
            self
        }
    }

    /// Takes the period on the selected row: a full wipe starts its count of
    /// confirmations at zero, any other period asks once.
    pub open spec fn confirm_delete_period(self) -> AppView {
        let period = DeletePeriod::at(self.delete_period_index);
        AppView {
            mode: if period == DeletePeriod::All {
                Mode::ConfirmingAll { confirmation_count: 0 }
            } else {
                Mode::ConfirmingBulk { period }
            },
            ..self
        }
    }

    /// The selection moved into the bounds of the filtered view (to 0 while
    /// the view is empty), and the window moved up to it if it began below.
    pub open spec fn clamped(self) -> AppView {
        let count = self.visible().len() as int;
        let selected = if count == 0 {
            0
        } else if self.selected_index >= count {
            count - 1
        } else {
            self.selected_index
        };
        AppView {
            selected_index: selected,
            scroll_offset: if self.scroll_offset > selected {
                selected
            } else {
                self.scroll_offset
            },
            ..self
        }
    }

    /// The snapshot replaced by what the store holds now, if the two differ
    /// in length or in the content or last-copied time of some row; then
    /// the selection starts over. Otherwise nothing changes.
    pub open spec fn refreshed(self, loaded: Seq<EntryView>) -> AppView {
        if snapshot_differs(self.entries, loaded) {
            AppView { entries: loaded, selected_index: 0, scroll_offset: 0, ..self }
        } else {
            self
        }
    }

    /// The snapshot replaced by what the store holds after a delete, with
    /// the selection clamped into the new bounds.
    pub open spec fn resynced(self, loaded: Seq<EntryView>) -> AppView {
        (AppView { entries: loaded, ..self }).clamped()
    }

    /// The snapshot without the entries of the given content, with the
    /// selection clamped into the new bounds.
    pub open spec fn without_content(self, content: Seq<char>) -> AppView {
        (AppView { entries: self.entries.filter(has_other_content(content)), ..self }).clamped()
    }

    /// One tick of the heartbeat counted; `true` when a refresh is due, with
    /// the count back at zero.
    pub open spec fn ticked(self) -> (AppView, bool) {
        if self.tick_count + 1 >= TICKS_PER_REFRESH {
            (AppView { tick_count: 0, ..self }, true)
        } else {
            (AppView { tick_count: self.tick_count + 1, ..self }, false)
        }
    }
}

/// Says of an entry whether its content is another than `content`.
pub open spec fn has_other_content(content: Seq<char>) -> spec_fn(EntryView) -> bool {
    |e: EntryView| e.content != content
}

/// Two snapshots differ in length, or some row differs in content or in
/// the time it was last copied.
pub open spec fn snapshot_differs(cached: Seq<EntryView>, loaded: Seq<EntryView>) -> bool {
    cached.len() != loaded.len() || exists|i: int|
        0 <= i < cached.len() && row_differs(#[trigger] cached[i], loaded[i])
}

/// Two rows differ in content or in the time they were last copied.
pub open spec fn row_differs(cached: EntryView, loaded: EntryView) -> bool {
    cached.content != loaded.content || cached.last_copied != loaded.last_copied
}

impl App {
    pub fn new(
        entries: Vec<ClipboardEntry>,
        db_path: String,
        terminal_width: usize,
        terminal_height: usize,
    ) -> (r: Self)
        ensures
            r@ == (AppView {
                entries: entry_views(entries@),
                selected_index: 0,
                scroll_offset: 0,
                filter_text: Seq::<char>::empty(),
                mode: Mode::Normal,
                message: None,
                loading: false,
                selected_entry: None,
                terminal_width: terminal_width as int,
                terminal_height: terminal_height as int,
                db_path: db_path@,
                preview_scroll: 0,
                tick_count: 0,
                delete_period_index: 0,
            }),
    {
        App {
            entries,
            selected_index: 0,
            scroll_offset: 0,
            filter_text: String::new(),
            mode: Mode::Normal,
            message: None,
            loading: false,
            selected_entry: None,
            terminal_width,
            terminal_height,
            db_path,
            preview_scroll: 0,
            tick_count: 0,
            delete_period_index: 0,
        }
    }

    /// The filtered view, as indices into `entries`.
    pub fn filtered_indices(&self) -> (r: Vec<usize>)
        ensures
            as_ints(r@) == self@.visible(),
    {
        let n: usize = self.entries.len();
        let unfiltered: bool = self.filter_text.as_str().is_empty();
        let mut exact: Vec<usize> = Vec::new();
        let mut fuzzy: Vec<usize> = Vec::new();
        let ghost views = self@.entries;
        let ghost filter = self@.filter_text;
        let mut i: usize = 0;
        while i < n
            invariant
                i <= n,
                n == self.entries.len(),
                views == entry_views(self.entries@),
                filter == self.filter_text@,
                unfiltered == (filter.len() == 0),
                unfiltered ==> as_ints(exact@) == indices(i as int) && fuzzy@.len() == 0,
                !unfiltered ==> as_ints(exact@) == indices(i as int).filter(
                    in_exact_tier(views, filter),
                ),
                !unfiltered ==> as_ints(fuzzy@) == indices(i as int).filter(
                    in_fuzzy_tier(views, filter),
                ),
            decreases n - i,
        {
            let ghost exact_before = as_ints(exact@);
            let ghost fuzzy_before = as_ints(fuzzy@);
            proof {
                assert(indices(i + 1) =~= indices(i as int).push(i as int));
                indices(i as int).lemma_filter_push(i as int, in_exact_tier(views, filter));
                indices(i as int).lemma_filter_push(i as int, in_fuzzy_tier(views, filter));
                assert(views[i as int].content == self.entries@[i as int].content@);
            }
            if unfiltered {
                exact.push(i);
                assert(as_ints(exact@) =~= exact_before.push(i as int));
            } else {
                let m = fuzzy_match(self.entries[i].content.as_str(), self.filter_text.as_str());
                if m.is_exact {
                    exact.push(i);
                    assert(as_ints(exact@) =~= exact_before.push(i as int));
                } else if m.matched {
                    fuzzy.push(i);
                    assert(as_ints(fuzzy@) =~= fuzzy_before.push(i as int));
                }
            }
            i += 1;
        }
        let ghost exact_part = as_ints(exact@);
        let ghost fuzzy_part = as_ints(fuzzy@);
        exact.append(&mut fuzzy);
        assert(as_ints(exact@) =~= exact_part + fuzzy_part);
        exact
    }

    /// The filtered view: the entries that the filter matches, exact matches
    /// first.
    pub fn filtered_entries(&self) -> (r: Vec<&ClipboardEntry>)
        ensures
            r@.len() == self@.visible().len(),
            forall|k: int|
                0 <= k < r@.len() ==> (#[trigger] r@[k])@ == self@.entries[self@.visible()[k]],
    {
        let shown = self.filtered_indices();
        proof {
            self.lemma_visible_in_range();
        }
        let mut out: Vec<&ClipboardEntry> = Vec::new();
        let mut k: usize = 0;
        while k < shown.len()
            invariant
                k <= shown.len(),
                out@.len() == k,
                as_ints(shown@) == self@.visible(),
                forall|j: int|
                    0 <= j < self@.visible().len() ==> 0 <= #[trigger] self@.visible()[j]
                        < self.entries@.len(),
                forall|j: int|
                    0 <= j < k ==> (#[trigger] out@[j])@ == self@.entries[self@.visible()[j]],
            decreases shown.len() - k,
        {
            assert(as_ints(shown@)[k as int] == shown@[k as int]);
            let index: usize = shown[k];
            out.push(&self.entries[index]);
            k += 1;
        }
        out
    }

    /// Every index of the filtered view is an index of an entry.
    pub proof fn lemma_visible_in_range(&self)
        ensures
            forall|j: int|
                0 <= j < self@.visible().len() ==> 0 <= #[trigger] self@.visible()[j]
                    < self.entries@.len(),
            self@.visible().len() <= self.entries@.len(),
    {
        let views = self@.entries;
        let filter = self@.filter_text;
        let n = views.len() as int;
        if filter.len() > 0 {
            lemma_filtered_indices(n, in_exact_tier(views, filter));
            lemma_filtered_indices(n, in_fuzzy_tier(views, filter));
            lemma_tiers_fit(views, filter);
            let exact = indices(n).filter(in_exact_tier(views, filter));
            let fuzzy = indices(n).filter(in_fuzzy_tier(views, filter));
            assert forall|j: int| 0 <= j < self@.visible().len() implies 0
                <= #[trigger] self@.visible()[j] < self.entries@.len() by {
                if j < exact.len() {
                    assert(self@.visible()[j] == exact[j]);
                } else {
                    assert(self@.visible()[j] == fuzzy[j - exact.len()]);
                }
            }
        }
    }

    /// The entry under the selection.
    pub fn current_entry(&self) -> (r: Option<&ClipboardEntry>)
        ensures
            r is Some == self@.current() is Some,
            r matches Some(e) ==> self@.current() == Some(e@),
    {
        let shown = self.filtered_indices();
        proof {
            self.lemma_visible_in_range();
        }
        if self.selected_index < shown.len() {
            assert(as_ints(shown@)[self.selected_index as int] == shown@[self.selected_index as int]);
            let index: usize = shown[self.selected_index];
            Some(&self.entries[index])
        } else {
            None
        }
    }

    pub fn select_up(&mut self)
        ensures
            final(self)@ == old(self)@.select_up(),
    {
        if self.selected_index > 0 {
            self.selected_index -= 1;
            self.preview_scroll = 0;
            if self.selected_index < self.scroll_offset {
                self.scroll_offset = self.selected_index;
            }
        }
    }

    pub fn select_down(&mut self)
        ensures
            final(self)@ == old(self)@.select_down(),
    {
        let shown = self.filtered_indices();
        let count: usize = shown.len();
        assert(count == self@.visible().len()) by {
            assert(as_ints(shown@).len() == shown@.len());
        }
        if count > 0 && self.selected_index < count - 1 {
            self.selected_index += 1;
            self.preview_scroll = 0;
            let usable_height: usize = self.get_list_height();
            if usable_height <= self.selected_index && self.scroll_offset <= self.selected_index
                - usable_height {
                self.scroll_offset = self.selected_index - usable_height + 1;
            }
        }
    }

    pub fn start_filtering(&mut self)
        ensures
            final(self)@ == old(self)@.start_filtering(),
    {
        self.mode = Mode::Filtering;
        self.filter_text = String::new();
        self.reset_selection();
    }

    pub fn stop_filtering(&mut self)
        ensures
            final(self)@ == old(self)@.stop_filtering(),
    {
        if self.mode == Mode::Filtering {
            self.mode = Mode::Normal;
        }
        self.filter_text = String::new();
        self.reset_selection();
    }

    pub fn filter_push(&mut self, ch: char)
        ensures
            final(self)@ == old(self)@.filter_push(ch),
    {
        string_push(&mut self.filter_text, ch);
        self.reset_selection();
    }

    pub fn filter_pop(&mut self)
        ensures
            final(self)@ == old(self)@.filter_pop(),
    {
        let _ = string_pop(&mut self.filter_text);
        self.reset_selection();
    }

    pub fn confirm_filter(&mut self)
        ensures
            final(self)@ == old(self)@.confirm_filter(),
    {
        if self.mode == Mode::Filtering {
            self.mode = Mode::Normal;
        }
    }

    fn reset_selection(&mut self)
        ensures
            final(self)@ == old(self)@.reset_selection(),
    {
        self.selected_index = 0;
        self.scroll_offset = 0;
        self.preview_scroll = 0;
    }

    /// Commits the selected entry: its content is kept as the value to hand
    /// back, and returned. `None` if nothing is selected.
    pub fn select_entry(&mut self) -> (r: Option<String>)
        ensures
            final(self)@ == old(self)@.select_entry(),
            option_view(r) == match old(self)@.current() {
                Some(entry) => Some(entry.content),
                None => None,
            },
    {
        let content: Option<String> = match self.current_entry() {
            Some(entry) => Some(entry.content.clone()),
            None => None,
        };
        match content {
            Some(text) => {
                self.selected_entry = Some(text.clone());
                Some(text)
            },
            None => None,
        }
    }

    pub fn is_filtering(&self) -> (r: bool)
        ensures
            r == (self@.mode == Mode::Filtering),
    {
        self.mode == Mode::Filtering
    }

    pub fn delete_mode(&self) -> (r: DeleteMode)
        ensures
            r == self@.mode.delete_step(),
    {
        self.mode.delete_mode()
    }

    pub fn get_list_height(&self) -> (r: usize)
        ensures
            r == self@.list_height(),
    {
        if self.terminal_height >= CHROME_ROWS {
            self.terminal_height - CHROME_ROWS
        } else {
            0
        }
    }

    /// The rows of the filtered view that the list shows: from the scroll
    /// offset on, as many as the list has rows.
    pub fn get_visible_entries(&self) -> (r: Vec<&ClipboardEntry>)
        ensures
            r@.len() == window_len(
                self@.visible().len() as int,
                self@.scroll_offset,
                self@.list_height(),
            ),
            forall|k: int|
                0 <= k < r@.len() ==> (#[trigger] r@[k])@ == self@.entries[self@.visible()[
                    self@.scroll_offset + k]],
    {
        let filtered = self.filtered_entries();
        let list_height: usize = self.get_list_height();
        let count: usize = filtered.len();
        let mut out: Vec<&ClipboardEntry> = Vec::new();
        if self.scroll_offset >= count {
            return out;
        }
        let end: usize = if list_height >= count - self.scroll_offset {
            count
        } else {
            self.scroll_offset + list_height
        };
        let mut k: usize = self.scroll_offset;
        while k < end
            invariant
                self.scroll_offset <= k <= end,
                end <= count,
                count == filtered@.len(),
                count == self@.visible().len(),
                out@.len() == k - self.scroll_offset,
                forall|j: int|
                    0 <= j < filtered@.len() ==> (#[trigger] filtered@[j])@
                        == self@.entries[self@.visible()[j]],
                forall|j: int|
                    0 <= j < out@.len() ==> (#[trigger] out@[j])@
                        == self@.entries[self@.visible()[self@.scroll_offset + j]],
            decreases end - k,
        {
            out.push(filtered[k]);
            k += 1;
        }
        out
    }

    /// The entry count for the header: the total, and with a filter also the
    /// number of matches.
    pub fn get_entry_count_info(&self) -> (r: String)
        ensures
            r@ == count_info(
                self@.entries.len() as int,
                self@.visible().len() as int,
                self@.filter_text.len() == 0,
            ),
    {
        let shown = self.filtered_indices();
        let count: usize = shown.len();
        assert(count == self@.visible().len()) by {
            assert(as_ints(shown@).len() == shown@.len());
        }
        let total: usize = self.entries.len();
        let mut out = String::new();
        if self.filter_text.as_str().is_empty() {
            push_decimal(&mut out, count as u64);
            out.append(" entries");
        } else {
            push_decimal(&mut out, total as u64);
            out.append(" entries, ");
            push_decimal(&mut out, count as u64);
            out.append(" matches");
        }
        out
    }

    pub fn show_message(&mut self, msg: &str)
        ensures
            final(self)@ == old(self)@.show_message(msg@),
    {
        self.message = Some(msg.to_owned());
    }

    /// Drops the message on display.
    pub fn clear_message(&mut self)
        ensures
            final(self)@ == old(self)@.clear_message(),
    {
        self.message = None;
    }

    pub fn update_terminal_size(&mut self, width: usize, height: usize)
        ensures
            final(self)@ == old(self)@.update_terminal_size(width as int, height as int),
    {
        self.terminal_width = width;
        self.terminal_height = height;
    }

    pub fn get_db_path_short(&self) -> (r: String)
        ensures
            r@ == self@.db_path,
    {
        self.db_path.clone()
    }

    pub fn scroll_preview_up(&mut self)
        ensures
            final(self)@ == old(self)@.scroll_preview_up(),
    {
        if self.preview_scroll > 0 {
            self.preview_scroll -= 1;
        }
    }

    pub fn scroll_preview_down(&mut self)
        ensures
            final(self)@ == old(self)@.scroll_preview_down(),
    {
        if self.preview_scroll < usize::MAX {
            self.preview_scroll += 1;
        }
    }

    pub fn reset_preview_scroll(&mut self)
        ensures
            final(self)@ == old(self)@.reset_preview_scroll(),
    {
        self.preview_scroll = 0;
    }

    pub fn get_preview_height(&self) -> (r: usize)
        ensures
            r == self@.list_height(),
    {
        self.get_list_height()
    }

    pub fn start_bulk_delete(&mut self)
        ensures
            final(self)@ == old(self)@.start_bulk_delete(),
    {
        self.mode = Mode::SelectingPeriod;
        self.delete_period_index = 0;
    }

    pub fn start_single_delete(&mut self)
        ensures
            final(self)@ == old(self)@.start_single_delete(),
    {
        if self.current_entry().is_some() {
            self.mode = Mode::ConfirmingSingle;
        }
    }

    pub fn cancel_delete(&mut self)
        ensures
            final(self)@ == old(self)@.cancel_delete(),
    {
        if self.is_in_delete_mode() {
            self.mode = Mode::Normal;
        }
        self.delete_period_index = 0;
    }

    pub fn delete_period_up(&mut self)
        ensures
            final(self)@ == old(self)@.delete_period_up(),
    {
        if self.delete_period_index > 0 {
            self.delete_period_index -= 1;
        }
    }

    pub fn delete_period_down(&mut self)
        ensures
            final(self)@ == old(self)@.delete_period_down(),
    {
        if self.delete_period_index < PERIOD_COUNT - 1 {
            self.delete_period_index += 1;
        }
    }

    pub fn confirm_delete_period(&mut self)
        ensures
            final(self)@ == old(self)@.confirm_delete_period(),
    {
        let period = DeletePeriod::from_index(self.delete_period_index);
        if period == DeletePeriod::All {
            self.mode = Mode::ConfirmingAll { confirmation_count: 0 };
        } else {
            self.mode = Mode::ConfirmingBulk { period };
        }
    }

    /// Takes over what the store holds now, if it differs from the snapshot.
    pub fn apply_refresh(&mut self, loaded: Vec<ClipboardEntry>)
        ensures
            final(self)@ == old(self)@.refreshed(entry_views(loaded@)),
    {
        if snapshots_differ(&self.entries, &loaded) {
            self.entries = loaded;
            self.selected_index = 0;
            self.scroll_offset = 0;
        }
    }

    /// Reads the store at `db_path` and takes over what it holds, if that
    /// differs from the snapshot. A failure leaves the state as it was.
    pub fn refresh(&mut self) -> (r: Result<(), CliError>)
        ensures
            r matches Err(e) ==> e is DatabaseError && final(self)@ == old(self)@,
            r is Ok ==> exists|loaded: Seq<EntryView>|
                final(self)@ == #[trigger] old(self)@.refreshed(loaded),
    {
        let db = match Database::open(self.db_path.as_str()) {
            Ok(db) => db,
            Err(e) => {
                return Err(e);
            },
        };
        let loaded = match db.get_all_entries() {
            Ok(loaded) => loaded,
            Err(e) => {
                return Err(e);
            },
        };
        let ghost views = entry_views(loaded@);
        self.apply_refresh(loaded);
        assert(self@ == old(self)@.refreshed(views));
        Ok(())
    }

    /// Counts one tick of the heartbeat; every fiftieth tick refreshes from
    /// the store. A refresh that fails is passed over.
    pub fn on_tick(&mut self)
        ensures
            !old(self)@.ticked().1 ==> final(self)@ == old(self)@.ticked().0,
            old(self)@.ticked().1 ==> final(self)@ == old(self)@.ticked().0 || exists|
                loaded: Seq<EntryView>,
            | final(self)@ == #[trigger] old(self)@.ticked().0.refreshed(loaded),
    {
        if self.tick_count >= TICKS_PER_REFRESH - 1 {
            self.tick_count = 0;
            let _ = self.refresh();
        } else {
            self.tick_count += 1;
        }
    }

    /// Moves the selection into the bounds of the filtered view.
    fn clamp_selection(&mut self)
        ensures
            final(self)@ == old(self)@.clamped(),
    {
        let shown = self.filtered_indices();
        let count: usize = shown.len();
        assert(count == self@.visible().len()) by {
            assert(as_ints(shown@).len() == shown@.len());
        }
        if count == 0 {
            self.selected_index = 0;
        } else if self.selected_index >= count {
            self.selected_index = count - 1;
        }
        if self.scroll_offset > self.selected_index {
            self.scroll_offset = self.selected_index;
        }
    }

    /// Takes over what the store holds after a delete and moves the
    /// selection into the new bounds.
    pub fn resync(&mut self, loaded: Vec<ClipboardEntry>)
        ensures
            final(self)@ == old(self)@.resynced(entry_views(loaded@)),
    {
        self.entries = loaded;
        self.clamp_selection();
    }

    /// Drops the entries of the given content from the snapshot and moves
    /// the selection into the new bounds.
    pub fn remove_content(&mut self, content: &str)
        ensures
            final(self)@ == old(self)@.without_content(content@),
    {
        let n: usize = self.entries.len();
        let mut kept: Vec<ClipboardEntry> = Vec::new();
        let ghost views = entry_views(self.entries@);
        let ghost keep = has_other_content(content@);
        let mut i: usize = 0;
        while i < n
            invariant
                i <= n,
                n == self.entries.len(),
                views == entry_views(self.entries@),
                keep == has_other_content(content@),
                entry_views(kept@) == views.take(i as int).filter(keep),
            decreases n - i,
        {
            let ghost kept_before = entry_views(kept@);
            proof {
                assert(views.take(i + 1) =~= views.take(i as int).push(views[i as int]));
                views.take(i as int).lemma_filter_push(views[i as int], keep);
                assert(views[i as int].content == self.entries@[i as int].content@);
            }
            if !same_text(self.entries[i].content.as_str(), content) {
                kept.push(self.entries[i].clone());
                assert(entry_views(kept@) =~= kept_before.push(views[i as int]));
            }
            i += 1;
        }
        assert(views.take(n as int) =~= views);
        self.entries = kept;
        self.clamp_selection();
    }

    /// Deletes the selected entry from the store at `db_path` and from the
    /// snapshot. `Ok(false)` if nothing is selected or the store holds no
    /// such entry; then, and on a failure, the state stays as it was.
    ///
    /// The function does not ask. No key of the browser leads here: the
    /// keys go through the delete flow, which asks first.
    pub fn delete_current_entry(&mut self) -> (r: Result<bool, CliError>)
        ensures
            r matches Err(e) ==> e is DatabaseError && final(self)@ == old(self)@,
            r matches Ok(deleted) ==> {
                if deleted {
                    (old(self)@.current() matches Some(entry) && final(self)@ == old(
                        self,
                    )@.without_content(entry.content))
                } else {
                    final(self)@ == old(self)@
                }
            },
            old(self)@.current() is None ==> (r matches Ok(deleted) && !deleted),
    {
        let content: String = match self.current_entry() {
            Some(entry) => entry.content.clone(),
            None => {
                return Ok(false);
            },
        };
        let db = match Database::open(self.db_path.as_str()) {
            Ok(db) => db,
            Err(e) => {
                return Err(e);
            },
        };
        match db.delete_entry_by_content(content.as_str()) {
            Ok(true) => {
                self.remove_content(content.as_str());
                Ok(true)
            },
            Ok(false) => Ok(false),
            Err(e) => Err(e),
        }
    }

    pub fn is_in_delete_mode(&self) -> (r: bool)
        ensures
            r == self@.mode.in_delete_flow(),
    {
        self.mode.delete_mode() != DeleteMode::Inactive
    }
}

/// Whether two snapshots differ in length, or in the content or last-copied
/// time of some row.
pub fn snapshots_differ(cached: &Vec<ClipboardEntry>, loaded: &Vec<ClipboardEntry>) -> (r: bool)
    ensures
        r == snapshot_differs(entry_views(cached@), entry_views(loaded@)),
{
    if cached.len() != loaded.len() {
        return true;
    }
    let ghost a = entry_views(cached@);
    let ghost b = entry_views(loaded@);
    let mut i: usize = 0;
    while i < cached.len()
        invariant
            i <= cached.len(),
            cached.len() == loaded.len(),
            a == entry_views(cached@),
            b == entry_views(loaded@),
            forall|j: int| 0 <= j < i ==> !row_differs(#[trigger] a[j], b[j]),
        decreases cached.len() - i,
    {
        if !same_text(cached[i].content.as_str(), loaded[i].content.as_str())
            || cached[i].last_copied != loaded[i].last_copied {
            assert(row_differs(a[i as int], b[i as int]));
            return true;
        }
        i += 1;
    }
    false
}

/// How many rows a window of `height` rows shows of `count` rows when it
/// starts at row `offset`.
pub open spec fn window_len(count: int, offset: int, height: int) -> int {
    if offset >= count {
        0
    } else if offset + height >= count {
        count - offset
    } else {
        height
    }
}

/// The entry count as the header shows it.
pub open spec fn count_info(total: int, shown: int, unfiltered: bool) -> Seq<char> {
    if unfiltered {
        decimal(shown) + " entries"@
    } else {
        decimal(total) + " entries, "@ + decimal(shown) + " matches"@
    }
}

/// Filtering by two predicates that agree on every element keeps the same
/// elements.
pub proof fn lemma_filter_agrees<A>(s: Seq<A>, p: spec_fn(A) -> bool, q: spec_fn(A) -> bool)
    requires
        forall|i: int| 0 <= i < s.len() ==> p(#[trigger] s[i]) == q(s[i]),
    ensures
        s.filter(p) == s.filter(q),
    decreases s.len(),
{
    reveal(Seq::filter);
    if s.len() > 0 {
        let head = s.drop_last();
        assert forall|i: int| 0 <= i < head.len() implies p(#[trigger] head[i]) == q(head[i]) by {
            assert(head[i] == s[i]);
        }
        lemma_filter_agrees(head, p, q);
        assert(p(s[s.len() - 1]) == q(s[s.len() - 1]));
    }
}

/// An entry that the filtered view shows: every entry while the filter is
/// empty, else an entry that the filter matches.
pub open spec fn is_shown(entry: EntryView, filter: Seq<char>) -> bool {
    filter.len() == 0 || matches_filter(entry.content, filter)
}

/// One more entry at the end makes the filtered view one row longer if the
/// entry is shown, and leaves its length otherwise.
pub proof fn lemma_shown_count_push(entries: Seq<EntryView>, entry: EntryView, filter: Seq<char>)
    ensures
        visible_indices(entries.push(entry), filter).len() == visible_indices(entries, filter).len()
            + if is_shown(entry, filter) {
            1int
        } else {
            0int
        },
{
    let n = entries.len() as int;
    let longer = entries.push(entry);
    if filter.len() > 0 {
        assert(indices(n + 1) =~= indices(n).push(n));
        let exact_longer = in_exact_tier(longer, filter);
        let fuzzy_longer = in_fuzzy_tier(longer, filter);
        indices(n).lemma_filter_push(n, exact_longer);
        indices(n).lemma_filter_push(n, fuzzy_longer);
        assert forall|i: int| 0 <= i < indices(n).len() implies exact_longer(
            #[trigger] indices(n)[i],
        ) == in_exact_tier(entries, filter)(indices(n)[i]) by {
            assert(longer[i] == entries[i]);
        }
        assert forall|i: int| 0 <= i < indices(n).len() implies fuzzy_longer(
            #[trigger] indices(n)[i],
        ) == in_fuzzy_tier(entries, filter)(indices(n)[i]) by {
            assert(longer[i] == entries[i]);
        }
        lemma_filter_agrees(indices(n), exact_longer, in_exact_tier(entries, filter));
        lemma_filter_agrees(indices(n), fuzzy_longer, in_fuzzy_tier(entries, filter));
        assert(longer[n] == entry);
        if matches_exactly(entry.content, filter) {
            crate::tui::fuzzy::lemma_exact_is_match(lowercase(entry.content), lowercase(filter));
        }
    }
}

/// Dropping entries never makes the filtered view longer, and makes it
/// shorter if one of the dropped entries was shown.
pub proof fn lemma_shown_count_filter(
    entries: Seq<EntryView>,
    keep: spec_fn(EntryView) -> bool,
    filter: Seq<char>,
)
    ensures
        visible_indices(entries.filter(keep), filter).len() <= visible_indices(
            entries,
            filter,
        ).len(),
        (exists|i: int| 0 <= i < entries.len() && is_shown(#[trigger] entries[i], filter) && !keep(entries[i]))
            ==> visible_indices(entries.filter(keep), filter).len() < visible_indices(
            entries,
            filter,
        ).len(),
    decreases entries.len(),
{
    reveal(Seq::filter);
    if entries.len() > 0 {
        let head = entries.drop_last();
        let last = entries.last();
        lemma_shown_count_filter(head, keep, filter);
        assert(entries =~= head.push(last));
        lemma_shown_count_push(head, last, filter);
        if keep(last) {
            assert(entries.filter(keep) == head.filter(keep).push(last));
            lemma_shown_count_push(head.filter(keep), last, filter);
        } else {
            assert(entries.filter(keep) == head.filter(keep));
        }
        if exists|i: int| 0 <= i < entries.len() && is_shown(#[trigger] entries[i], filter) && !keep(entries[i]) {
            let i = choose|i: int| 0 <= i < entries.len() && is_shown(#[trigger] entries[i], filter) && !keep(entries[i]);
            if i < entries.len() - 1 {
                assert(head[i] == entries[i]);
            }
        }
    }
}

/// No two entries have the same content: what the store guarantees of its
/// rows.
pub open spec fn distinct_contents(entries: Seq<EntryView>) -> bool {
    forall|i: int, j: int|
        0 <= i < j < entries.len() ==> (#[trigger] entries[i]).content != (
        #[trigger] entries[j]).content
}

/// How many of the entries that the filtered view shows have the given
/// content.
pub open spec fn shown_with(entries: Seq<EntryView>, filter: Seq<char>, content: Seq<char>) -> int
    decreases entries.len(),
{
    if entries.len() == 0 {
        0
    } else {
        shown_with(entries.drop_last(), filter, content) + if is_shown(entries.last(), filter)
            && entries.last().content == content {
            1int
        } else {
            0int
        }
    }
}

/// Dropping the entries of one content makes the filtered view shorter by
/// the number of rows that showed that content.
pub proof fn lemma_shown_count_without(
    entries: Seq<EntryView>,
    filter: Seq<char>,
    content: Seq<char>,
)
    ensures
        visible_indices(entries.filter(has_other_content(content)), filter).len()
            == visible_indices(entries, filter).len() - shown_with(entries, filter, content),
    decreases entries.len(),
{
    reveal(Seq::filter);
    let keep = has_other_content(content);
    if entries.len() > 0 {
        let head = entries.drop_last();
        let last = entries.last();
        lemma_shown_count_without(head, filter, content);
        assert(entries =~= head.push(last));
        lemma_shown_count_push(head, last, filter);
        if keep(last) {
            assert(entries.filter(keep) == head.filter(keep).push(last));
            lemma_shown_count_push(head.filter(keep), last, filter);
        } else {
            assert(entries.filter(keep) == head.filter(keep));
        }
    } else {
        assert(entries.filter(keep) =~= entries);
    }
}

/// Among entries of distinct contents at most one row shows a given
/// content, and exactly one if some row does.
pub proof fn lemma_distinct_shown_once(
    entries: Seq<EntryView>,
    filter: Seq<char>,
    content: Seq<char>,
)
    requires
        distinct_contents(entries),
    ensures
        0 <= shown_with(entries, filter, content) <= 1,
        shown_with(entries, filter, content) == 1 <==> exists|i: int|
            0 <= i < entries.len() && is_shown(#[trigger] entries[i], filter) && entries[i].content
                == content,
    decreases entries.len(),
{
    if entries.len() > 0 {
        let head = entries.drop_last();
        let last = entries.last();
        assert forall|i: int, j: int| 0 <= i < j < head.len() implies (#[trigger] head[i]).content
            != (#[trigger] head[j]).content by {
            assert(head[i] == entries[i]);
            assert(head[j] == entries[j]);
        }
        lemma_distinct_shown_once(head, filter, content);
        if shown_with(head, filter, content) == 1 {
            let i = choose|i: int|
                0 <= i < head.len() && is_shown(#[trigger] head[i], filter) && head[i].content
                    == content;
            assert(head[i] == entries[i]);
            assert(entries[i].content != entries[entries.len() - 1].content);
        }
        if exists|i: int|
            0 <= i < entries.len() && is_shown(#[trigger] entries[i], filter) && entries[i].content
                == content {
            let i = choose|i: int|
                0 <= i < entries.len() && is_shown(#[trigger] entries[i], filter)
                    && entries[i].content == content;
            if i < entries.len() - 1 {
                assert(head[i] == entries[i]);
            }
        }
    }
}

/// In a snapshot of distinct contents, deleting the selected entry removes
/// exactly its row from the filtered view; deleting the entry on the last
/// row therefore moves the selection up by one, to the new last row.
pub proof fn lemma_delete_removes_one_row(v: AppView)
    requires
        v.current() is Some,
        distinct_contents(v.entries),
    ensures
        ({
            let w = v.without_content(v.current().unwrap().content);
            &&& w.visible().len() == v.visible().len() - 1
            &&& v.selected_index == v.visible().len() - 1 && v.visible().len() >= 2
                ==> w.selected_index == v.selected_index - 1
            &&& v.selected_index < v.visible().len() - 1 ==> w.selected_index == v.selected_index
        }),
{
    let content = v.current().unwrap().content;
    let index = v.visible()[v.selected_index];
    if v.filter_text.len() > 0 {
        lemma_exact_before_fuzzy(v.entries, v.filter_text);
    }
    assert(0 <= index < v.entries.len());
    assert(is_shown(v.entries[index], v.filter_text) && v.entries[index].content == content);
    lemma_distinct_shown_once(v.entries, v.filter_text, content);
    lemma_shown_count_without(v.entries, v.filter_text, content);
}

/// After a clamp the selection is never negative and never out of bounds,
/// and the window does not begin below it.
pub proof fn lemma_clamped_in_bounds(v: AppView)
    requires
        0 <= v.selected_index,
    ensures
        v.clamped().selection_in_bounds(),
        v.clamped().scroll_offset <= v.clamped().selected_index,
        v.clamped().visible() == v.visible(),
{
}

/// Deleting the entry on the last row of the filtered view moves the
/// selection to the new last row; with no row left it stands at 0. It is
/// never negative and never out of bounds.
pub proof fn lemma_delete_last_selects_new_last(v: AppView)
    requires
        v.current() is Some,
        v.selected_index == v.visible().len() - 1,
    ensures
        ({
            let w = v.without_content(v.current().unwrap().content);
            &&& w.visible().len() < v.visible().len()
            &&& w.visible().len() > 0 ==> w.selected_index == w.visible().len() - 1
            &&& w.visible().len() == 0 ==> w.selected_index == 0
            &&& w.selection_in_bounds()
        }),
{
    let content = v.current().unwrap().content;
    let keep = has_other_content(content);
    let index = v.visible()[v.selected_index];
    if v.filter_text.len() > 0 {
        lemma_exact_before_fuzzy(v.entries, v.filter_text);
    }
    assert(0 <= index < v.entries.len());
    assert(is_shown(v.entries[index], v.filter_text) && !keep(v.entries[index]));
    lemma_shown_count_filter(v.entries, keep, v.filter_text);
}

/// A delete, whichever entries it removes, leaves the selection inside the
/// bounds of the filtered view.
pub proof fn lemma_delete_keeps_selection_in_bounds(
    v: AppView,
    content: Seq<char>,
    loaded: Seq<EntryView>,
)
    requires
        0 <= v.selected_index,
    ensures
        v.without_content(content).selection_in_bounds(),
        v.resynced(loaded).selection_in_bounds(),
{
}

/// Moving the selection keeps it inside the filtered view, and keeps it
/// inside the window if it was inside before.
pub proof fn lemma_navigation_keeps_selection(v: AppView)
    requires
        v.selection_in_bounds(),
    ensures
        v.select_up().selection_in_bounds(),
        v.select_down().selection_in_bounds(),
        v.selection_visible() ==> v.select_up().selection_visible(),
        v.selection_visible() ==> v.select_down().selection_visible(),
{
}

/// The window scrolls only when the selection would leave it, and then by
/// no more than brings the selection back to its edge.
pub proof fn lemma_navigation_scrolls_least(v: AppView)
    requires
        v.selection_visible(),
    ensures
        v.select_up().scroll_offset != v.scroll_offset ==> v.select_up().selected_index
            < v.scroll_offset && v.select_up().scroll_offset == v.select_up().selected_index,
        v.select_down().scroll_offset != v.scroll_offset ==> v.select_down().selected_index
            >= v.scroll_offset + v.list_height() && v.select_down().scroll_offset
            + v.list_height() - 1 == v.select_down().selected_index,
{
}

/// The two tiers together hold no more indices than there are entries.
pub proof fn lemma_tiers_fit(entries: Seq<EntryView>, filter: Seq<char>)
    ensures
        indices(entries.len() as int).filter(in_exact_tier(entries, filter)).len() + indices(
            entries.len() as int,
        ).filter(in_fuzzy_tier(entries, filter)).len() <= entries.len(),
{
    lemma_tiers_fit_below(entries, filter, entries.len() as int);
}

proof fn lemma_tiers_fit_below(entries: Seq<EntryView>, filter: Seq<char>, n: int)
    requires
        0 <= n,
    ensures
        indices(n).filter(in_exact_tier(entries, filter)).len() + indices(n).filter(
            in_fuzzy_tier(entries, filter),
        ).len() <= n,
    decreases n,
{
    if n > 0 {
        lemma_tiers_fit_below(entries, filter, n - 1);
        assert(indices(n) =~= indices(n - 1).push(n - 1));
        indices(n - 1).lemma_filter_push(n - 1, in_exact_tier(entries, filter));
        indices(n - 1).lemma_filter_push(n - 1, in_fuzzy_tier(entries, filter));
    } else {
        reveal(Seq::filter);
        assert(indices(0).len() == 0);
    }
}

} // verus!
