//! The history store: one SQLite table of deduplicated clipboard entries.
//!
//! The table lives in a file that the daemon and the browser share, so what
//! a statement finds and changes depends on the file at that moment. The
//! functions of [`Database`] therefore promise little about their results.
//! What is decided around the statements is verified and stated apart from
//! them: which statement is run with which values ([`Statement`] and the
//! functions that build one), where a cutoff lies ([`cutoff_before`]), and
//! what an answer of the store means ([`after_insert`],
//! [`removed_any`], [`row_count`], [`size_from`], [`first_entry`]).

use vstd::prelude::*;
use crate::clipboard::hash_content;
use crate::error::CliError;
use crate::text::{contains, contains_query};

verus! {

#[verifier::external_type_specification]
#[verifier::external_body]
pub struct ExConnection(rusqlite::Connection);

/// One remembered clipboard value.
#[derive(Debug)]
pub struct ClipboardEntry {
    pub id: i64,
    pub content: String,
    pub content_hash: String,
    /// When the content was first seen, in seconds since the Unix epoch.
    pub created_at: i64,
    /// When the content was last copied, in seconds since the Unix epoch.
    pub last_copied: i64,
    pub copy_count: i32,
}

/// A [`ClipboardEntry`] as plain values.
pub struct EntryView {
    pub id: int,
    pub content: Seq<char>,
    pub content_hash: Seq<char>,
    pub created_at: int,
    pub last_copied: int,
    pub copy_count: int,
}

impl View for ClipboardEntry {
    type V = EntryView;

    open spec fn view(&self) -> EntryView {
        EntryView {
            id: self.id as int,
            content: self.content@,
            content_hash: self.content_hash@,
            created_at: self.created_at as int,
            last_copied: self.last_copied as int,
            copy_count: self.copy_count as int,
        }
    }
}

impl Clone for ClipboardEntry {
    fn clone(&self) -> (r: Self)
        ensures
            r@ == self@,
    {
        ClipboardEntry {
            id: self.id,
            content: self.content.clone(),
            content_hash: self.content_hash.clone(),
            created_at: self.created_at,
            last_copied: self.last_copied,
            copy_count: self.copy_count,
        }
    }
}

/// The views of a list of entries.
pub open spec fn entry_views(entries: Seq<ClipboardEntry>) -> Seq<EntryView> {
    entries.map_values(|e: ClipboardEntry| e@)
}

pub const SCHEMA_SQL: &'static str =
    "
            CREATE TABLE IF NOT EXISTS clipboard_entries (
                id INTEGER PRIMARY KEY AUTOINCREMENT,
                content TEXT NOT NULL UNIQUE,
                content_hash TEXT NOT NULL UNIQUE,
                created_at INTEGER NOT NULL,
                last_copied INTEGER NOT NULL,
                copy_count INTEGER NOT NULL DEFAULT 1
            );

            CREATE INDEX IF NOT EXISTS idx_created_at ON clipboard_entries(created_at DESC);
            CREATE INDEX IF NOT EXISTS idx_last_copied ON clipboard_entries(last_copied DESC);
            CREATE INDEX IF NOT EXISTS idx_content_hash ON clipboard_entries(content_hash);

            PRAGMA journal_mode = WAL;
            PRAGMA synchronous = NORMAL;
            ";

pub const SELECT_ALL_SQL: &'static str =
    "SELECT id, content, content_hash, created_at, last_copied, copy_count
             FROM clipboard_entries
             ORDER BY last_copied DESC";

pub const SELECT_BY_ID_SQL: &'static str =
    "SELECT id, content, content_hash, created_at, last_copied, copy_count
             FROM clipboard_entries
             WHERE id = ?1";

pub const SELECT_LAST_SQL: &'static str =
    "SELECT id, content, content_hash, created_at, last_copied, copy_count
             FROM clipboard_entries
             ORDER BY last_copied DESC
             LIMIT 1";

pub const INSERT_SQL: &'static str =
    "INSERT INTO clipboard_entries (content, content_hash, created_at, last_copied, copy_count)
             VALUES (?1, ?2, ?3, ?4, 1)";

pub const TOUCH_SQL: &'static str =
    "UPDATE clipboard_entries SET last_copied = ?1, copy_count = copy_count + 1 WHERE content_hash = ?2";

pub const SELECT_ID_BY_HASH_SQL: &'static str =
    "SELECT id FROM clipboard_entries WHERE content_hash = ?1";

pub const DELETE_BY_ID_SQL: &'static str = "DELETE FROM clipboard_entries WHERE id = ?1";

pub const DELETE_BY_CONTENT_SQL: &'static str = "DELETE FROM clipboard_entries WHERE content = ?1";

pub const DELETE_OLDER_SQL: &'static str = "DELETE FROM clipboard_entries WHERE created_at < ?1";

pub const DELETE_RECENT_SQL: &'static str = "DELETE FROM clipboard_entries WHERE last_copied >= ?1";

pub const DELETE_ALL_SQL: &'static str = "DELETE FROM clipboard_entries";

pub const COUNT_SQL: &'static str = "SELECT COUNT(*) FROM clipboard_entries";

pub const SIZE_SQL: &'static str =
    "SELECT page_count * page_size as size FROM pragma_page_count(), pragma_page_size()";

pub const EXISTS_SQL: &'static str =
    "SELECT 1 FROM clipboard_entries WHERE content_hash = ?1 LIMIT 1";

/// The text by which SQLite reports that a row would break a uniqueness
/// constraint.
pub const UNIQUE_VIOLATION: &'static str = "UNIQUE constraint failed";

pub const SECONDS_PER_HOUR: i64 = 3600;

pub const SECONDS_PER_DAY: i64 = 86400;

/// Calls `rusqlite::Connection::open`, which opens the database file at
/// `path` and creates it if it is absent. Nothing is claimed of the result:
/// it depends on the file system.
#[verifier::external_body]
fn connection_open(path: &str) -> Result<rusqlite::Connection, rusqlite::Error> {
    rusqlite::Connection::open(path)
}

/// Calls `rusqlite::Connection::execute_batch`, which runs the statements of
/// `sql` one after another. Nothing is claimed of the result.
#[verifier::external_body]
fn connection_execute_batch(conn: &rusqlite::Connection, sql: &str) -> Result<
    (),
    rusqlite::Error,
> {
    conn.execute_batch(sql)
}

/// Calls `rusqlite::Connection::execute` with the text of the statement and
/// its parameters in order, each turned into the `rusqlite::types::Value`
/// of its kind and content. On success the number is the count of rows
/// that the statement changed, inserted or deleted; which rows there were
/// depends on the file, so nothing is claimed of it.
#[verifier::external_body]
fn connection_execute(conn: &rusqlite::Connection, statement: &Statement) -> Result<
    usize,
    rusqlite::Error,
> {
    let values = statement.params.iter().map(|p| match p {
        SqlParam::Integer(i) => rusqlite::types::Value::Integer(*i),
        SqlParam::Text(s) => rusqlite::types::Value::Text(s.clone()),
    });
    conn.execute(statement.sql, rusqlite::params_from_iter(values))
}

/// Calls `rusqlite::Connection::last_insert_rowid`: the row id of the most
/// recent successful insert on this connection. Nothing is claimed of it.
#[verifier::external_body]
fn connection_last_insert_rowid(conn: &rusqlite::Connection) -> i64 {
    conn.last_insert_rowid()
}

/// Calls `rusqlite::Connection::query_row` with the text of the statement
/// and its parameters in order, and reads the first column of the first row
/// as an integer. Fails with `QueryReturnedNoRows` when there is no row.
/// Nothing is claimed of the result.
#[verifier::external_body]
fn connection_query_integer(conn: &rusqlite::Connection, statement: &Statement) -> Result<
    i64,
    rusqlite::Error,
> {
    let values = statement.params.iter().map(|p| match p {
        SqlParam::Integer(i) => rusqlite::types::Value::Integer(*i),
        SqlParam::Text(s) => rusqlite::types::Value::Text(s.clone()),
    });
    conn.query_row(statement.sql, rusqlite::params_from_iter(values), |row| row.get(0))
}

/// Prepares the statement and calls `rusqlite::Statement::query_map` with
/// its parameters in order, reading the six columns of each row into an
/// entry, field by field. The rows come in the order in which the statement
/// yields them. Nothing is claimed of the result.
#[verifier::external_body]
fn connection_query_entries(conn: &rusqlite::Connection, statement: &Statement) -> Result<
    Vec<ClipboardEntry>,
    rusqlite::Error,
> {
    let values = statement.params.iter().map(|p| match p {
        SqlParam::Integer(i) => rusqlite::types::Value::Integer(*i),
        SqlParam::Text(s) => rusqlite::types::Value::Text(s.clone()),
    });
    let mut prepared = conn.prepare(statement.sql)?;
    let rows = prepared.query_map(rusqlite::params_from_iter(values), |row| {
        let (id, content, content_hash) = (row.get(0)?, row.get(1)?, row.get(2)?);
        let (created_at, last_copied, copy_count) = (row.get(3)?, row.get(4)?, row.get(5)?);
        Ok(ClipboardEntry { id, content, content_hash, created_at, last_copied, copy_count })
    })?;
    rows.collect()
}

/// Prepares the statement and calls `rusqlite::Statement::exists` with its
/// parameters in order: whether the statement yields at least one row.
/// Nothing is claimed of the result.
#[verifier::external_body]
fn connection_exists(conn: &rusqlite::Connection, statement: &Statement) -> Result<
    bool,
    rusqlite::Error,
> {
    let values = statement.params.iter().map(|p| match p {
        SqlParam::Integer(i) => rusqlite::types::Value::Integer(*i),
        SqlParam::Text(s) => rusqlite::types::Value::Text(s.clone()),
    });
    conn.prepare(statement.sql)?.exists(rusqlite::params_from_iter(values))
}

/// The message of a `rusqlite::Error::SqliteFailure` that carries one; `None`
/// for every other error.
#[verifier::external_body]
fn sqlite_failure_message(e: &rusqlite::Error) -> Option<String> {
    match e {
        rusqlite::Error::SqliteFailure(_, Some(message)) => Some(message.clone()),
        _ => None,
    }
}

/// The error with which rusqlite refuses to read a negative integer as an
/// unsigned one: `rusqlite::Error::IntegralValueOutOfRange` for column 0.
#[verifier::external_body]
fn out_of_range_error(value: i64) -> rusqlite::Error {
    rusqlite::Error::IntegralValueOutOfRange(0, value)
}

/// Reads the clock with `std::time::SystemTime::now`, turns the time into
/// a `chrono::DateTime<Utc>` (`From<SystemTime>`, which takes a time before
/// the Unix epoch as well as one after it) and calls `DateTime::timestamp`:
/// the time in whole seconds since the epoch, negative before it. The
/// conversion holds for every time within some 262,000 years of the epoch,
/// far more than the operating systems let a clock be set to. Nothing is
/// claimed of the number.
#[verifier::external_body]
pub(crate) fn unix_now() -> i64 {
    chrono::DateTime::<chrono::Utc>::from(std::time::SystemTime::now()).timestamp()
}

/// `x`, or the nearest bound of `i64` where `x` lies outside.
pub open spec fn clamp_i64(x: int) -> int {
    if x < i64::MIN {
        i64::MIN as int
    } else if x > i64::MAX {
        i64::MAX as int
    } else {
        x
    }
}

/// The moment `units` spans of `unit_seconds` seconds before `now`, kept
/// within the range of `i64`.
pub fn cutoff_before(now: i64, units: i64, unit_seconds: i64) -> (r: i64)
    ensures
        r == clamp_i64(now - units * unit_seconds),
{
    assert(-0x4000_0000_0000_0000_0000_0000_0000_0000 <= units * unit_seconds
        <= 0x4000_0000_0000_0000_0000_0000_0000_0000) by (nonlinear_arith)
        requires
            -0x8000_0000_0000_0000 <= units <= 0x8000_0000_0000_0000,
            -0x8000_0000_0000_0000 <= unit_seconds <= 0x8000_0000_0000_0000,
    ;
    let span: i128 = (units as i128) * (unit_seconds as i128);
    let exact: i128 = (now as i128) - span;
    if exact < i64::MIN as i128 {
        i64::MIN
    } else if exact > i64::MAX as i128 {
        i64::MAX
    } else {
        exact as i64
    }
}

/// Whether a failed insert failed because the content is already stored:
/// the failure carries a message, and the message reports a broken
/// uniqueness constraint.
pub fn is_duplicate_failure(message: &Option<String>) -> (r: bool)
    ensures
        r == (message matches Some(m) && contains_query(m@, UNIQUE_VIOLATION@)),
{
    match message {
        Some(m) => contains(m.as_str(), UNIQUE_VIOLATION),
        None => false,
    }
}

/// What follows the attempt to insert a new entry.
#[derive(Debug, Clone, Copy, PartialEq, Eq, Structural)]
pub enum InsertStep {
    /// The row is in; its id is the answer.
    Inserted,
    /// The content is stored already: mark its row as copied again.
    Touch,
    /// The store failed: hand the failure on.
    Fail,
}

pub open spec fn message_view(message: Option<String>) -> Option<Seq<char>> {
    match message {
        Some(m) => Some(m@),
        None => None,
    }
}

/// The step that follows an insert: none after a success; after a failure
/// the touch, if the failure carries a message that reports a broken
/// uniqueness constraint, and else the failure itself.
pub open spec fn insert_step(succeeded: bool, message: Option<Seq<char>>) -> InsertStep {
    if succeeded {
        InsertStep::Inserted
    } else if message matches Some(m) && contains_query(m, UNIQUE_VIOLATION@) {
        InsertStep::Touch
    } else {
        InsertStep::Fail
    }
}

/// Decides what follows an insert from how it ended: whether it succeeded,
/// and the message of its failure if it failed with one.
pub fn after_insert(succeeded: bool, message: &Option<String>) -> (r: InsertStep)
    ensures
        r == insert_step(succeeded, message_view(*message)),
{
    if succeeded {
        InsertStep::Inserted
    } else if is_duplicate_failure(message) {
        InsertStep::Touch
    } else {
        InsertStep::Fail
    }
}

/// A count of rows as `i64`; a count beyond its range becomes `i64::MAX`.
pub fn row_count(changed: usize) -> (r: i64)
    ensures
        r == clamp_i64(changed as int),
{
    if changed as u128 > 0x7fff_ffff_ffff_ffffu128 {
        i64::MAX
    } else {
        changed as i64
    }
}

/// Whether a delete that changed `changed` rows removed anything.
pub fn removed_any(changed: usize) -> (r: bool)
    ensures
        r == (changed > 0),
{
    changed > 0
}

/// The size that the store reports, as a count of bytes; `None` for a
/// negative number, which is no size.
pub fn size_from(reported: i64) -> (r: Option<u64>)
    ensures
        reported >= 0 ==> r == Some(reported as u64),
        reported < 0 ==> r is None,
{
    if reported >= 0 {
        Some(reported as u64)
    } else {
        None
    }
}

/// A value bound to a `?` of a statement.
#[derive(Debug)]
pub enum SqlParam {
    Integer(i64),
    Text(String),
}

/// A [`SqlParam`] as a plain value.
pub enum ParamView {
    Integer(int),
    Text(Seq<char>),
}

impl View for SqlParam {
    type V = ParamView;

    open spec fn view(&self) -> ParamView {
        match self {
            SqlParam::Integer(i) => ParamView::Integer(*i as int),
            SqlParam::Text(s) => ParamView::Text(s@),
        }
    }
}

/// A statement for the store, with the values bound to its `?`s in order.
#[derive(Debug)]
pub struct Statement {
    pub sql: &'static str,
    pub params: Vec<SqlParam>,
}

/// A [`Statement`] as plain values.
pub struct StatementView {
    pub sql: Seq<char>,
    pub params: Seq<ParamView>,
}

pub open spec fn param_views(params: Seq<SqlParam>) -> Seq<ParamView> {
    params.map_values(|p: SqlParam| p@)
}

impl View for Statement {
    type V = StatementView;

    open spec fn view(&self) -> StatementView {
        StatementView { sql: self.sql@, params: param_views(self.params@) }
    }
}

/// The statement `sql` with nothing bound to it.
pub fn plain_statement(sql: &'static str) -> (r: Statement)
    ensures
        r@ == (StatementView { sql: sql@, params: Seq::empty() }),
{
    let r = Statement { sql, params: Vec::new() };
    assert(param_views(r.params@) =~= Seq::<ParamView>::empty());
    r
}

/// The statement `sql` with one integer bound to it.
pub fn integer_statement(sql: &'static str, value: i64) -> (r: Statement)
    ensures
        r@ == (StatementView { sql: sql@, params: seq![ParamView::Integer(value as int)] }),
{
    let mut params: Vec<SqlParam> = Vec::new();
    params.push(SqlParam::Integer(value));
    assert(param_views(params@) =~= seq![ParamView::Integer(value as int)]);
    Statement { sql, params }
}

/// The statement `sql` with one text bound to it.
pub fn text_statement(sql: &'static str, value: &str) -> (r: Statement)
    ensures
        r@ == (StatementView { sql: sql@, params: seq![ParamView::Text(value@)] }),
{
    let mut params: Vec<SqlParam> = Vec::new();
    params.push(SqlParam::Text(value.to_owned()));
    assert(param_views(params@) =~= seq![ParamView::Text(value@)]);
    Statement { sql, params }
}

/// The insert of a new entry: the content and its hash, first seen and
/// last copied at `now`. The count of copies, 1, stands in the statement.
pub fn insert_statement(content: &str, content_hash: &str, now: i64) -> (r: Statement)
    ensures
        r@ == (StatementView {
            sql: INSERT_SQL@,
            params: seq![
                ParamView::Text(content@),
                ParamView::Text(content_hash@),
                ParamView::Integer(now as int),
                ParamView::Integer(now as int),
            ],
        }),
{
    let mut params: Vec<SqlParam> = Vec::new();
    params.push(SqlParam::Text(content.to_owned()));
    params.push(SqlParam::Text(content_hash.to_owned()));
    params.push(SqlParam::Integer(now));
    params.push(SqlParam::Integer(now));
    assert(param_views(params@) =~= seq![
        ParamView::Text(content@),
        ParamView::Text(content_hash@),
        ParamView::Integer(now as int),
        ParamView::Integer(now as int),
    ]);
    Statement { sql: INSERT_SQL, params }
}

/// The update that marks the entry with the given hash as copied at
/// `now`: the time first, then the hash. The statement itself adds one to
/// the count of copies.
pub fn touch_statement(content_hash: &str, now: i64) -> (r: Statement)
    ensures
        r@ == (StatementView {
            sql: TOUCH_SQL@,
            params: seq![ParamView::Integer(now as int), ParamView::Text(content_hash@)],
        }),
{
    let mut params: Vec<SqlParam> = Vec::new();
    params.push(SqlParam::Integer(now));
    params.push(SqlParam::Text(content_hash.to_owned()));
    assert(param_views(params@) =~= seq![
        ParamView::Integer(now as int),
        ParamView::Text(content_hash@),
    ]);
    Statement { sql: TOUCH_SQL, params }
}

/// An open history store.
pub struct Database {
    conn: rusqlite::Connection,
}

impl Database {
    /// Opens the store in the file at `path`, creating the file and the
    /// table if they are absent. The directory of the file must exist.
    pub fn open(path: &str) -> (r: Result<Database, CliError>)
        ensures
            r matches Err(e) ==> e is DatabaseError,
    {
        match connection_open(path) {
            Ok(conn) => {
                let db = Database { conn };
                match db.initialize_schema() {
                    Ok(()) => Ok(db),
                    Err(e) => Err(e),
                }
            },
            Err(e) => Err(CliError::DatabaseError(e)),
        }
    }

    /// Creates the table and its indexes if they are absent, and sets the
    /// journal so that committed writes survive a crash.
    fn initialize_schema(&self) -> (r: Result<(), CliError>)
        ensures
            r matches Err(e) ==> e is DatabaseError,
    {
        match connection_execute_batch(&self.conn, SCHEMA_SQL) {
            Ok(()) => Ok(()),
            Err(e) => Err(CliError::DatabaseError(e)),
        }
    }

    /// Runs a statement that changes rows; the count of the rows changed.
    fn execute(&self, statement: &Statement) -> Result<usize, rusqlite::Error> {
        connection_execute(&self.conn, statement)
    }

    /// Runs a statement that yields entries.
    fn query_entries(&self, statement: &Statement) -> (r: Result<Vec<ClipboardEntry>, CliError>)
        ensures
            r matches Err(e) ==> e is DatabaseError,
    {
        match connection_query_entries(&self.conn, statement) {
            Ok(entries) => Ok(entries),
            Err(e) => Err(CliError::DatabaseError(e)),
        }
    }

    /// Runs a statement that yields one integer.
    fn query_integer(&self, statement: &Statement) -> (r: Result<i64, CliError>)
        ensures
            r matches Err(e) ==> e is DatabaseError,
    {
        match connection_query_integer(&self.conn, statement) {
            Ok(value) => Ok(value),
            Err(e) => Err(CliError::DatabaseError(e)),
        }
    }

    /// Runs a delete; the count of the rows deleted.
    fn delete(&self, statement: &Statement) -> (r: Result<i64, CliError>)
        ensures
            r matches Err(e) ==> e is DatabaseError,
            r matches Ok(n) ==> n >= 0,
    {
        match self.execute(statement) {
            Ok(changed) => Ok(row_count(changed)),
            Err(e) => Err(CliError::DatabaseError(e)),
        }
    }

    /// All entries, the most recently copied first: what
    /// [`SELECT_ALL_SQL`] yields.
    pub fn get_all_entries(&self) -> (r: Result<Vec<ClipboardEntry>, CliError>)
        ensures
            r matches Err(e) ==> e is DatabaseError,
    {
        self.query_entries(&plain_statement(SELECT_ALL_SQL))
    }

    /// The entry with the given id, if there is one: the first row that
    /// [`SELECT_BY_ID_SQL`] yields for the id.
    pub fn get_entry(&self, id: i64) -> (r: Result<Option<ClipboardEntry>, CliError>)
        ensures
            r matches Err(e) ==> e is DatabaseError,
    {
        match self.query_entries(&integer_statement(SELECT_BY_ID_SQL, id)) {
            Ok(entries) => Ok(first_entry(entries)),
            Err(e) => Err(e),
        }
    }

    /// Records that `content` was copied now. See [`Database::insert_entry_at`].
    pub fn insert_entry(&self, content: &str, content_hash: &str) -> (r: Result<i64, CliError>)
        ensures
            r matches Err(e) ==> e is DatabaseError,
    {
        self.insert_entry_at(content, content_hash, unix_now())
    }

    /// Records that `content` was copied at `now`.
    ///
    /// Tries to insert a new row ([`insert_statement`]); [`after_insert`]
    /// says what follows. After a success the id of the new row is
    /// returned. After a failure on a uniqueness constraint the row with
    /// `content_hash` is marked as copied at `now` ([`touch_statement`]) and
    /// its id is returned. Any other failure is returned as it is.
    pub fn insert_entry_at(&self, content: &str, content_hash: &str, now: i64) -> (r: Result<
        i64,
        CliError,
    >)
        ensures
            r matches Err(e) ==> e is DatabaseError,
    {
        let outcome = self.execute(&insert_statement(content, content_hash, now));
        let message: Option<String> = match &outcome {
            Ok(_) => None,
            Err(e) => sqlite_failure_message(e),
        };
        match after_insert(outcome.is_ok(), &message) {
            InsertStep::Inserted => Ok(connection_last_insert_rowid(&self.conn)),
            InsertStep::Touch => self.touch(content_hash, now),
            InsertStep::Fail => match outcome {
                Err(e) => Err(CliError::DatabaseError(e)),
                Ok(_) => {
                    // A success is never answered by `Fail`.
                    assert(false);
                    Ok(connection_last_insert_rowid(&self.conn))
                },
            },
        }
    }

    /// Marks the row with `content_hash` as copied at `now`
    /// ([`touch_statement`]) and returns its id, which
    /// [`SELECT_ID_BY_HASH_SQL`] yields for the hash.
    fn touch(&self, content_hash: &str, now: i64) -> (r: Result<i64, CliError>)
        ensures
            r matches Err(e) ==> e is DatabaseError,
    {
        match self.execute(&touch_statement(content_hash, now)) {
            Ok(_) => self.query_integer(&text_statement(SELECT_ID_BY_HASH_SQL, content_hash)),
            Err(e) => Err(CliError::DatabaseError(e)),
        }
    }

    /// Hashes `content` and records that it was copied now: a new entry, or
    /// one more copy of the entry that holds it already.
    pub fn insert_or_touch(&self, content: &str) -> (r: Result<i64, CliError>)
        ensures
            r matches Err(e) ==> e is DatabaseError,
    {
        let hash = hash_content(content);
        self.insert_entry(content, hash.as_str())
    }

    /// Deletes the entry with the given id, if there is one.
    pub fn delete_entry(&self, id: i64) -> (r: Result<(), CliError>)
        ensures
            r matches Err(e) ==> e is DatabaseError,
    {
        match self.delete_entry_by_id(id) {
            Ok(_) => Ok(()),
            Err(e) => Err(e),
        }
    }

    /// Deletes the entry with the given id ([`DELETE_BY_ID_SQL`]); `true`
    /// if a row was deleted.
    pub fn delete_entry_by_id(&self, id: i64) -> (r: Result<bool, CliError>)
        ensures
            r matches Err(e) ==> e is DatabaseError,
    {
        match self.execute(&integer_statement(DELETE_BY_ID_SQL, id)) {
            Ok(changed) => Ok(removed_any(changed)),
            Err(e) => Err(CliError::DatabaseError(e)),
        }
    }

    /// Deletes the entry with the given content
    /// ([`DELETE_BY_CONTENT_SQL`]); `true` if a row was deleted.
    pub fn delete_entry_by_content(&self, content: &str) -> (r: Result<bool, CliError>)
        ensures
            r matches Err(e) ==> e is DatabaseError,
    {
        match self.execute(&text_statement(DELETE_BY_CONTENT_SQL, content)) {
            Ok(changed) => Ok(removed_any(changed)),
            Err(e) => Err(CliError::DatabaseError(e)),
        }
    }

    /// Deletes the entries first seen before `cutoff`
    /// ([`DELETE_OLDER_SQL`]) and returns how many there were.
    pub fn delete_older_than(&self, cutoff: i64) -> (r: Result<i64, CliError>)
        ensures
            r matches Err(e) ==> e is DatabaseError,
            r matches Ok(n) ==> n >= 0,
    {
        self.delete(&integer_statement(DELETE_OLDER_SQL, cutoff))
    }

    /// Deletes the entries copied at `cutoff` or later
    /// ([`DELETE_RECENT_SQL`]) and returns how many there were.
    pub fn delete_copied_since(&self, cutoff: i64) -> (r: Result<i64, CliError>)
        ensures
            r matches Err(e) ==> e is DatabaseError,
            r matches Ok(n) ==> n >= 0,
    {
        self.delete(&integer_statement(DELETE_RECENT_SQL, cutoff))
    }

    /// Deletes the entries copied within the last `count` spans of
    /// `unit_seconds` seconds: those since [`cutoff_before`] of now.
    pub fn delete_copied_within(&self, count: i64, unit_seconds: i64) -> (r: Result<i64, CliError>)
        ensures
            r matches Err(e) ==> e is DatabaseError,
            r matches Ok(n) ==> n >= 0,
    {
        self.delete_copied_since(cutoff_before(unix_now(), count, unit_seconds))
    }

    /// Deletes the entries first seen more than `days` days ago: those
    /// before [`cutoff_before`] of now.
    pub fn delete_entries_older_than_days(&self, days: i64) -> (r: Result<i64, CliError>)
        ensures
            r matches Err(e) ==> e is DatabaseError,
            r matches Ok(n) ==> n >= 0,
    {
        self.delete_older_than(cutoff_before(unix_now(), days, SECONDS_PER_DAY))
    }

    /// Deletes the entries copied within the last `hours` hours: those
    /// since [`cutoff_before`] of now.
    pub fn delete_entries_from_last_hours(&self, hours: i64) -> (r: Result<i64, CliError>)
        ensures
            r matches Err(e) ==> e is DatabaseError,
            r matches Ok(n) ==> n >= 0,
    {
        self.delete_copied_within(hours, SECONDS_PER_HOUR)
    }

    /// Deletes the entries copied within the last `days` days: those since
    /// [`cutoff_before`] of now.
    pub fn delete_entries_from_last_days(&self, days: i64) -> (r: Result<i64, CliError>)
        ensures
            r matches Err(e) ==> e is DatabaseError,
            r matches Ok(n) ==> n >= 0,
    {
        self.delete_copied_within(days, SECONDS_PER_DAY)
    }

    /// Deletes every entry ([`DELETE_ALL_SQL`]) and returns how many there
    /// were.
    pub fn clear_all(&self) -> (r: Result<i64, CliError>)
        ensures
            r matches Err(e) ==> e is DatabaseError,
            r matches Ok(n) ==> n >= 0,
    {
        self.delete(&plain_statement(DELETE_ALL_SQL))
    }

    /// The number of entries: what [`COUNT_SQL`] yields.
    pub fn count_entries(&self) -> (r: Result<i64, CliError>)
        ensures
            r matches Err(e) ==> e is DatabaseError,
    {
        self.query_integer(&plain_statement(COUNT_SQL))
    }

    /// The size of the store in bytes: its page count times its page size,
    /// which [`SIZE_SQL`] yields. A negative number is refused as rusqlite
    /// refuses it for an unsigned integer.
    pub fn get_size(&self) -> (r: Result<u64, CliError>)
        ensures
            r matches Err(e) ==> e is DatabaseError,
    {
        match self.query_integer(&plain_statement(SIZE_SQL)) {
            Ok(reported) => match size_from(reported) {
                Some(size) => Ok(size),
                None => Err(CliError::DatabaseError(out_of_range_error(reported))),
            },
            Err(e) => Err(e),
        }
    }

    /// The most recently copied entry, if the store holds any: the first
    /// row that [`SELECT_LAST_SQL`] yields.
    pub fn get_last_entry(&self) -> (r: Result<Option<ClipboardEntry>, CliError>)
        ensures
            r matches Err(e) ==> e is DatabaseError,
    {
        match self.query_entries(&plain_statement(SELECT_LAST_SQL)) {
            Ok(entries) => Ok(first_entry(entries)),
            Err(e) => Err(e),
        }
    }

    /// Whether an entry with the given content hash is stored: whether
    /// [`EXISTS_SQL`] yields a row for the hash.
    pub fn entry_exists(&self, content_hash: &str) -> (r: Result<bool, CliError>)
        ensures
            r matches Err(e) ==> e is DatabaseError,
    {
        match connection_exists(&self.conn, &text_statement(EXISTS_SQL, content_hash)) {
            Ok(found) => Ok(found),
            Err(e) => Err(CliError::DatabaseError(e)),
        }
    }
}

/// The first of the entries, if there is any.
pub fn first_entry(entries: Vec<ClipboardEntry>) -> (r: Option<ClipboardEntry>)
    ensures
        entries.len() == 0 ==> r is None,
        entries.len() > 0 ==> (r matches Some(e) && e@ == entries@[0]@),
{
    if entries.len() == 0 {
        None
    } else {
        Some(entries[0].clone())
    }
}

} // verus!
