//! The daemon's debounce: which clipboard values get recorded, and when.
//!
//! The daemon polls a cheap change token. When the token changes it reads
//! the clipboard and takes the text as a candidate, waits for the stability
//! window and reads again. Only a candidate that the second reading
//! confirms is recorded. A candidate that changed in the meantime is
//! dropped, and the new text becomes the candidate.
//!
//! [`DaemonState::step`] decides; the caller sleeps, reads the clipboard and
//! reports what it found. A reading is compared with the candidate before
//! it only, not with older ones: a text that returns after another one has
//! to be confirmed like any new text.

use vstd::prelude::*;
use crate::db::Database;
use crate::error::CliError;
use crate::text::{same_text, trimmed, trimmed_len};

verus! {

/// Milliseconds between two polls of the change token.
pub const CLIPBOARD_CHECK_INTERVAL: u64 = 500;

/// Milliseconds that a candidate must stay unchanged.
pub const STABILITY_CHECK_INTERVAL: u64 = 500;

/// The least number of characters, white space at both ends not counted,
/// that a text must have to be recorded.
pub const MIN_CONTENT_LENGTH: usize = 1;

/// What a reading of the clipboard gave. `T` is the type of a text.
#[derive(Debug)]
pub enum Reading<T> {
    /// The clipboard could not be read.
    Unreadable,
    /// The clipboard holds nothing, or no text.
    Empty,
    Text(T),
}

/// What the caller reports to the daemon.
#[derive(Debug)]
pub enum DaemonEvent<T> {
    /// The change token, or `None` if it could not be read.
    Token(Option<i64>),
    /// A reading of the clipboard.
    Content(Reading<T>),
}

/// What the daemon asks the caller to do next.
#[derive(Debug)]
pub enum DaemonAction<T> {
    /// Sleep for the poll interval, then report the change token.
    Poll,
    /// Read the clipboard now and report the reading.
    Read,
    /// Sleep for the stability window, then read the clipboard and report
    /// the reading.
    AwaitStability,
    /// Record the text in the store, then go on as for `Poll`.
    Persist(T),
}

/// Where the debounce stands.
#[derive(Debug)]
pub enum Phase<T> {
    /// Waiting for the change token to change.
    Idle,
    /// The token has changed; the clipboard is being read.
    Changed,
    /// The text is a candidate; the stability window is running.
    CandidateDetected(T),
}

/// The daemon's state.
pub struct DaemonState {
    pub db: Database,
    pub last_change_count: i64,
    pub phase: Phase<String>,
}

/// The daemon's state as plain values.
pub struct DaemonView {
    pub last_change_count: int,
    pub phase: Phase<Seq<char>>,
}

pub open spec fn reading_view(reading: Reading<String>) -> Reading<Seq<char>> {
    match reading {
        Reading::Unreadable => Reading::Unreadable,
        Reading::Empty => Reading::Empty,
        Reading::Text(text) => Reading::Text(text@),
    }
}

pub open spec fn event_view(event: DaemonEvent<String>) -> DaemonEvent<Seq<char>> {
    match event {
        DaemonEvent::Token(token) => DaemonEvent::Token(token),
        DaemonEvent::Content(reading) => DaemonEvent::Content(reading_view(reading)),
    }
}

pub open spec fn action_view(action: DaemonAction<String>) -> DaemonAction<Seq<char>> {
    match action {
        DaemonAction::Poll => DaemonAction::Poll,
        DaemonAction::Read => DaemonAction::Read,
        DaemonAction::AwaitStability => DaemonAction::AwaitStability,
        DaemonAction::Persist(text) => DaemonAction::Persist(text@),
    }
}

pub open spec fn phase_view(phase: Phase<String>) -> Phase<Seq<char>> {
    match phase {
        Phase::Idle => Phase::Idle,
        Phase::Changed => Phase::Changed,
        Phase::CandidateDetected(text) => Phase::CandidateDetected(text@),
    }
}

impl View for DaemonState {
    type V = DaemonView;

    open spec fn view(&self) -> DaemonView {
        DaemonView {
            last_change_count: self.last_change_count as int,
            phase: phase_view(self.phase),
        }
    }
}

/// The text is long enough to be recorded: not only white space.
pub open spec fn recordable(content: Seq<char>) -> bool {
    trimmed(content).len() >= MIN_CONTENT_LENGTH
}

/// What a reading makes of the debounce when no candidate is confirmed by
/// it: a recordable text is the new candidate, anything else ends the
/// detection.
pub open spec fn restart(reading: Reading<Seq<char>>) -> (
    Phase<Seq<char>>,
    DaemonAction<Seq<char>>,
) {
    match reading {
        Reading::Text(text) => if recordable(text) {
            (Phase::CandidateDetected(text), DaemonAction::AwaitStability)
        } else {
            (Phase::Idle, DaemonAction::Poll)
        },
        _ => (Phase::Idle, DaemonAction::Poll),
    }
}

impl DaemonView {
    /// The token was polled: a token that differs from the last one seen is
    /// remembered and starts a detection.
    pub open spec fn check_clipboard(self, token: Option<i64>) -> (DaemonView, bool) {
        match token {
            Some(count) => if count != self.last_change_count {
                (DaemonView { last_change_count: count as int, ..self }, true)
            } else {
                (self, false)
            },
            None => (self, false),
        }
    }

    /// The clipboard was read during a detection. A reading that repeats
    /// the candidate confirms it: the candidate is recorded, unless the
    /// daemon is paused. Any other reading starts over.
    pub open spec fn check_stability(self, reading: Reading<Seq<char>>, paused: bool) -> (
        DaemonView,
        DaemonAction<Seq<char>>,
    ) {
        match self.phase {
            Phase::CandidateDetected(candidate) => if reading == Reading::Text(candidate) {
                (
                    DaemonView { phase: Phase::Idle, ..self },
                    if paused {
                        DaemonAction::Poll
                    } else {
                        DaemonAction::Persist(candidate)
                    },
                )
            } else {
                (DaemonView { phase: restart(reading).0, ..self }, restart(reading).1)
            },
            _ => (DaemonView { phase: restart(reading).0, ..self }, restart(reading).1),
        }
    }

    /// The action that the phase is waiting on.
    pub open spec fn pending(self) -> DaemonAction<Seq<char>> {
        match self.phase {
            Phase::Idle => DaemonAction::Poll,
            Phase::Changed => DaemonAction::Read,
            Phase::CandidateDetected(_) => DaemonAction::AwaitStability,
        }
    }

    /// One step of the debounce. A report that the phase did not ask for
    /// changes nothing and is answered by asking again.
    pub open spec fn step(self, event: DaemonEvent<Seq<char>>, paused: bool) -> (
        DaemonView,
        DaemonAction<Seq<char>>,
    ) {
        match (self.phase, event) {
            (Phase::Idle, DaemonEvent::Token(token)) => if self.check_clipboard(token).1 {
                (
                    DaemonView { phase: Phase::Changed, ..self.check_clipboard(token).0 },
                    DaemonAction::Read,
                )
            } else {
                (self, DaemonAction::Poll)
            },
            (Phase::Changed, DaemonEvent::Content(reading)) => self.check_stability(
                reading,
                paused,
            ),
            (Phase::CandidateDetected(_), DaemonEvent::Content(reading)) => self.check_stability(
                reading,
                paused,
            ),
            _ => (self, self.pending()),
        }
    }

    /// The states and actions that a run of reports leads through: the
    /// state after the last report, and the action after each.
    pub open spec fn run(self, events: Seq<DaemonEvent<Seq<char>>>, paused: bool) -> (
        DaemonView,
        Seq<DaemonAction<Seq<char>>>,
    )
        decreases events.len(),
    {
        if events.len() == 0 {
            (self, Seq::empty())
        } else {
            let (before, actions) = self.run(events.drop_last(), paused);
            let (after, action) = before.step(events.last(), paused);
            (after, actions.push(action))
        }
    }
}

/// How many of the actions record a text.
pub open spec fn persist_count(actions: Seq<DaemonAction<Seq<char>>>) -> int
    decreases actions.len(),
{
    if actions.len() == 0 {
        0
    } else {
        persist_count(actions.drop_last()) + if actions.last() is Persist {
            1int
        } else {
            0int
        }
    }
}

/// A text is recorded only when a reading confirms the candidate: the step
/// records `text` exactly if `text` is the candidate, the reading is
/// `text` again, and the daemon is not paused.
pub proof fn lemma_persist_only_when_stable(
    state: DaemonView,
    event: DaemonEvent<Seq<char>>,
    paused: bool,
    text: Seq<char>,
)
    ensures
        state.step(event, paused).1 == DaemonAction::Persist(text) <==> (state.phase
            == Phase::CandidateDetected(text) && event == DaemonEvent::Content(
            Reading::Text(text),
        ) && !paused),
{
}

/// A candidate that has changed when the window ends is never recorded: the
/// step records nothing and the old candidate is gone.
pub proof fn lemma_changed_candidate_is_dropped(
    state: DaemonView,
    candidate: Seq<char>,
    reading: Reading<Seq<char>>,
    paused: bool,
)
    requires
        state.phase == Phase::CandidateDetected(candidate),
        reading != Reading::Text(candidate),
    ensures
        !(state.step(DaemonEvent::Content(reading), paused).1 is Persist),
        state.step(DaemonEvent::Content(reading), paused).0.phase != Phase::CandidateDetected(
            candidate,
        ),
{
}

/// When the candidate has changed to another recordable text, detection
/// starts over from that text: it is the new candidate and has to last a
/// whole window of its own.
pub proof fn lemma_changed_candidate_restarts(
    state: DaemonView,
    candidate: Seq<char>,
    text: Seq<char>,
    paused: bool,
)
    requires
        state.phase == Phase::CandidateDetected(candidate),
        text != candidate,
        recordable(text),
    ensures
        state.step(DaemonEvent::Content(Reading::Text(text)), paused) == (
            DaemonView { phase: Phase::CandidateDetected(text), ..state },
            DaemonAction::<Seq<char>>::AwaitStability,
        ),
{
}

/// A recordable text that is on the clipboard when the token changes and
/// still there when the window ends is recorded exactly once: the three
/// reports lead to one `Persist`, of that text, and back to `Idle`, where
/// no report leads to another.
pub proof fn lemma_stable_text_recorded_once(
    state: DaemonView,
    token: i64,
    text: Seq<char>,
    next: DaemonEvent<Seq<char>>,
)
    requires
        state.phase == Phase::<Seq<char>>::Idle,
        token != state.last_change_count,
        recordable(text),
    ensures
        ({
            let reports = seq![
                DaemonEvent::Token(Some(token)),
                DaemonEvent::Content(Reading::Text(text)),
                DaemonEvent::Content(Reading::Text(text)),
            ];
            let (after, actions) = state.run(reports, false);
            &&& actions == seq![
                DaemonAction::Read,
                DaemonAction::AwaitStability,
                DaemonAction::Persist(text),
            ]
            &&& persist_count(actions) == 1
            &&& after == (DaemonView { last_change_count: token as int, phase: Phase::Idle })
            &&& !(after.step(next, false).1 is Persist)
        }),
{
    let first = DaemonEvent::Token(Some(token));
    let second = DaemonEvent::Content(Reading::Text(text));
    let reports = seq![first, second, second];
    let one = reports.drop_last();
    let none = one.drop_last();
    assert(none.drop_last() =~= Seq::<DaemonEvent<Seq<char>>>::empty());
    assert(none.last() == first);
    assert(one.last() == second);
    assert(reports.last() == second);
    let start = state.run(none.drop_last(), false);
    assert(start == (state, Seq::<DaemonAction<Seq<char>>>::empty()));
    let r1 = state.run(none, false);
    assert(r1.1 =~= seq![DaemonAction::<Seq<char>>::Read]);
    let r2 = state.run(one, false);
    assert(r2.1 =~= seq![DaemonAction::<Seq<char>>::Read, DaemonAction::AwaitStability]);
    let r3 = state.run(reports, false);
    assert(r3.1 =~= seq![
        DaemonAction::<Seq<char>>::Read,
        DaemonAction::AwaitStability,
        DaemonAction::Persist(text),
    ]);
    let actions = r3.1;
    assert(actions.drop_last() =~= r2.1);
    assert(r2.1.drop_last() =~= r1.1);
    assert(r1.1.drop_last() =~= Seq::<DaemonAction<Seq<char>>>::empty());
    assert(persist_count(r1.1.drop_last()) == 0);
    assert(persist_count(r1.1) == 0);
    assert(persist_count(r2.1) == 0);
    assert(persist_count(actions) == 1);
}

/// While the daemon is paused nothing is recorded, and the state moves as
/// it does when the daemon is not paused.
pub proof fn lemma_pause_suppresses_writes_only(state: DaemonView, event: DaemonEvent<Seq<char>>)
    ensures
        !(state.step(event, true).1 is Persist),
        state.step(event, true).0 == state.step(event, false).0,
        !(state.step(event, false).1 is Persist) ==> state.step(event, true).1 == state.step(
            event,
            false,
        ).1,
{
}

/// Whether a text is long enough to be recorded.
pub fn is_recordable(content: &str) -> (r: bool)
    ensures
        r == recordable(content@),
{
    trimmed_len(content) >= MIN_CONTENT_LENGTH
}

impl DaemonState {
    /// A daemon that records into `db` and has seen the given change token
    /// last.
    pub fn new(db: Database, last_change_count: i64) -> (r: Self)
        ensures
            r@ == (DaemonView { last_change_count: last_change_count as int, phase: Phase::Idle }),
    {
        DaemonState { db, last_change_count, phase: Phase::Idle }
    }

    /// Takes note of the polled change token; `true` if it has changed.
    pub fn check_clipboard(&mut self, token: Option<i64>) -> (changed: bool)
        ensures
            (final(self)@, changed) == old(self)@.check_clipboard(token),
    {
        match token {
            Some(count) => {
                if count != self.last_change_count {
                    self.last_change_count = count;
                    true
                } else {
                    false
                }
            },
            None => false,
        }
    }

    /// Starts over from a reading that confirms no candidate.
    fn restart(&mut self, reading: Reading<String>) -> (action: DaemonAction<String>)
        ensures
            final(self)@ == (DaemonView { phase: restart(reading_view(reading)).0, ..old(self)@ }),
            action_view(action) == restart(reading_view(reading)).1,
    {
        match reading {
            Reading::Text(text) => {
                if is_recordable(text.as_str()) {
                    self.phase = Phase::CandidateDetected(text);
                    DaemonAction::AwaitStability
                } else {
                    self.phase = Phase::Idle;
                    DaemonAction::Poll
                }
            },
            _ => {
                self.phase = Phase::Idle;
                DaemonAction::Poll
            },
        }
    }

    /// Takes note of a reading of the clipboard during a detection.
    pub fn check_stability(&mut self, reading: Reading<String>, paused: bool) -> (action:
        DaemonAction<String>)
        ensures
            (final(self)@, action_view(action)) == old(self)@.check_stability(
                reading_view(reading),
                paused,
            ),
    {
        let confirmed: bool = match (&self.phase, &reading) {
            (Phase::CandidateDetected(candidate), Reading::Text(text)) => same_text(
                candidate.as_str(),
                text.as_str(),
            ),
            _ => false,
        };
        if confirmed {
            self.phase = Phase::Idle;
            if paused {
                DaemonAction::Poll
            } else {
                match reading {
                    Reading::Text(text) => DaemonAction::Persist(text),
                    _ => DaemonAction::Poll,
                }
            }
        } else {
            self.restart(reading)
        }
    }

    /// One step of the debounce: takes note of what the caller reports and
    /// says what to do next. `paused` is the pause marker as the caller
    /// found it in this cycle.
    pub fn step(&mut self, event: DaemonEvent<String>, paused: bool) -> (action: DaemonAction<
        String,
    >)
        ensures
            (final(self)@, action_view(action)) == old(self)@.step(event_view(event), paused),
    {
        let waiting: u8 = match &self.phase {
            Phase::Idle => 0,
            Phase::Changed => 1,
            Phase::CandidateDetected(_) => 2,
        };
        match event {
            DaemonEvent::Token(token) => {
                if waiting == 0 {
                    if self.check_clipboard(token) {
                        self.phase = Phase::Changed;
                        DaemonAction::Read
                    } else {
                        DaemonAction::Poll
                    }
                } else if waiting == 1 {
                    DaemonAction::Read
                } else {
                    DaemonAction::AwaitStability
                }
            },
            DaemonEvent::Content(reading) => {
                if waiting == 0 {
                    DaemonAction::Poll
                } else {
                    self.check_stability(reading, paused)
                }
            },
        }
    }

    /// Records the text in the store: a new entry, or one more copy of the
    /// entry that holds it already.
    pub fn record(&self, content: &str) -> (r: Result<i64, CliError>)
        ensures
            r matches Err(e) ==> e is DatabaseError,
    {
        self.db.insert_or_touch(content)
    }
}

} // verus!
