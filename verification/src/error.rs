//! The crate's error type.

use vstd::prelude::*;
use vstd::string::StringExecFns;

verus! {

#[verifier::external_type_specification]
#[verifier::external_body]
pub struct ExSqliteError(rusqlite::Error);

#[verifier::external_type_specification]
#[verifier::external_body]
pub struct ExIoError(std::io::Error);

#[verifier::external_type_specification]
#[verifier::external_body]
pub struct ExJsonError(serde_json::Error);

/// Everything that can go wrong in the clipboard manager.
#[derive(Debug)]
pub enum CliError {
    /// A required path or location could not be found.
    ConfigError(String),
    /// The history store failed to open, or a statement failed.
    DatabaseError(rusqlite::Error),
    IoError(std::io::Error),
    /// The system clipboard was not available.
    ClipboardError(String),
    JsonError(serde_json::Error),
    /// No configuration has been written yet.
    ConfigNotFound,
}

pub type Result<T> = std::result::Result<T, CliError>;

/// `s` begins with `prefix`.
pub open spec fn starts_with(s: Seq<char>, prefix: Seq<char>) -> bool {
    prefix.len() <= s.len() && s.subrange(0, prefix.len() as int) == prefix
}

impl CliError {
    /// What stands before the detail in the error's message.
    pub open spec fn prefix(&self) -> Seq<char> {
        match self {
            CliError::ConfigError(_) => "Configuration error: "@,
            CliError::DatabaseError(_) => "Database error: "@,
            CliError::IoError(_) => "IO error: "@,
            CliError::ClipboardError(_) => "Clipboard error: "@,
            CliError::JsonError(_) => "JSON error: "@,
            CliError::ConfigNotFound =>
                "Config not found. Run 'clippie setup' to configure the database location."@,
        }
    }

    /// The message for the user: a prefix that names the kind of error, then
    /// the detail. For the kinds that carry a text the detail is that text;
    /// for the others it is what the underlying error says of itself.
    pub fn message(&self) -> (r: String)
        ensures
            starts_with(r@, self.prefix()),
            self matches CliError::ConfigError(s) ==> r@ == self.prefix() + s@,
            self matches CliError::ClipboardError(s) ==> r@ == self.prefix() + s@,
            self is ConfigNotFound ==> r@ == self.prefix(),
    {
        match self {
            CliError::ConfigError(s) => {
                let r = String::from_str("Configuration error: ").concat(s.as_str());
                assert(r@.subrange(0, self.prefix().len() as int) =~= self.prefix());
                r
            },
            CliError::DatabaseError(e) => {
                let detail = e.to_string();
                let r = String::from_str("Database error: ").concat(detail.as_str());
                assert(r@.subrange(0, self.prefix().len() as int) =~= self.prefix());
                r
            },
            CliError::IoError(e) => {
                let detail = e.to_string();
                let r = String::from_str("IO error: ").concat(detail.as_str());
                assert(r@.subrange(0, self.prefix().len() as int) =~= self.prefix());
                r
            },
            CliError::ClipboardError(s) => {
                let r = String::from_str("Clipboard error: ").concat(s.as_str());
                assert(r@.subrange(0, self.prefix().len() as int) =~= self.prefix());
                r
            },
            CliError::JsonError(e) => {
                let detail = e.to_string();
                let r = String::from_str("JSON error: ").concat(detail.as_str());
                assert(r@.subrange(0, self.prefix().len() as int) =~= self.prefix());
                r
            },
            CliError::ConfigNotFound => {
                let r = String::from_str(
                    "Config not found. Run 'clippie setup' to configure the database location.",
                );
                assert(r@.subrange(0, self.prefix().len() as int) =~= self.prefix());
                r
            },
        }
    }
}

} // verus!
