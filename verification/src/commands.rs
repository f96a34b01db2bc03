//! What the commands of the command line decide, apart from what they read
//! and print.

use vstd::prelude::*;
use vstd::string::StringExecFns;
use crate::config::{join_path, joined, no_home, text_of};
use crate::error::CliError;
use crate::text::{
    contains, contains_query, lowercase, same_text, string_from_chars, to_chars, to_lowercase,
    trim_text, trimmed,
};

verus! {

/// Days after which `clear` without `--all` deletes an entry.
pub const CLEAR_AGE_DAYS: i64 = 30;

/// The name under which the daemon appears in the list of services.
pub const DAEMON_NAME: &'static str = "clippy-daemon";

/// The answer is a yes: `y` or `Y`, white space around it aside.
pub open spec fn affirms(response: Seq<char>) -> bool {
    trimmed(response) == seq!['y'] || trimmed(response) == seq!['Y']
}

pub fn is_yes(response: &str) -> (r: bool)
    ensures
        r == affirms(response@),
{
    let answer = to_chars(trim_text(response).as_str());
    let r = answer.len() == 1 && (answer[0] == 'y' || answer[0] == 'Y');
    proof {
        if r {
            assert(answer@ =~= seq![answer@[0]]);
        }
    }
    r
}

/// What to do with a store that exists already.
#[derive(Debug, Clone, Copy, PartialEq, Eq, Structural)]
pub enum ExistingStore {
    /// Keep it and use it.
    Use,
    /// Delete it and start a new one.
    Replace,
}

/// What the answer chooses: `use` or `u`, `new` or `n`, in any case and
/// with white space around it; any other answer chooses nothing.
pub open spec fn choice_of(response: Seq<char>) -> Option<ExistingStore> {
    let answer = lowercase(trimmed(response));
    if answer == "use"@ || answer == "u"@ {
        Some(ExistingStore::Use)
    } else if answer == "new"@ || answer == "n"@ {
        Some(ExistingStore::Replace)
    } else {
        None
    }
}

pub fn parse_existing_choice(response: &str) -> (r: Option<ExistingStore>)
    ensures
        r == choice_of(response@),
{
    let answer = to_lowercase(trim_text(response).as_str());
    if same_text(answer.as_str(), "use") || same_text(answer.as_str(), "u") {
        Some(ExistingStore::Use)
    } else if same_text(answer.as_str(), "new") || same_text(answer.as_str(), "n") {
        Some(ExistingStore::Replace)
    } else {
        None
    }
}

/// The path begins at the root.
pub open spec fn is_absolute(path: Seq<char>) -> bool {
    path.len() > 0 && path[0] == '/'
}

/// The path begins with `~/`.
pub open spec fn is_home_relative(path: Seq<char>) -> bool {
    path.len() >= 2 && path[0] == '~' && path[1] == '/'
}

/// The path of the store that the `db` command was given: an absolute path
/// as it is, a path that begins with `~/` below the home directory, and
/// any other path below the home directory too.
pub open spec fn db_argument_path(path: Seq<char>, home: Option<Seq<char>>) -> Option<
    Seq<char>,
> {
    if is_absolute(path) {
        Some(path)
    } else {
        match home {
            Some(dir) => if is_home_relative(path) {
                Some(joined(dir, path.skip(2)))
            } else {
                Some(joined(dir, path))
            },
            None => None,
        }
    }
}

pub fn resolve_db_argument(path: &str, home: Option<String>) -> (r: Result<String, CliError>)
    ensures
        match db_argument_path(path@, text_of(home)) {
            Some(resolved) => r matches Ok(p) && p@ == resolved,
            None => r matches Err(e) && e matches CliError::ConfigError(s) && s@ == no_home(),
        },
{
    let chars = to_chars(path);
    if chars.len() > 0 && chars[0] == '/' {
        return Ok(path.to_owned());
    }
    match home {
        Some(dir) => {
            if chars.len() >= 2 && chars[0] == '~' && chars[1] == '/' {
                let rest = string_from_chars(&chars, 2, chars.len());
                assert(chars@.subrange(2, chars.len() as int) =~= path@.skip(2));
                Ok(join_path(dir.as_str(), rest.as_str()))
            } else {
                Ok(join_path(dir.as_str(), path))
            }
        },
        None => Err(CliError::ConfigError(String::from_str("Could not determine home directory"))),
    }
}

/// The path of the store that the setup was given: the default for an
/// empty answer, an absolute path as it is, any other path below the home
/// directory. White space around the answer does not count.
pub open spec fn setup_path(input: Seq<char>, default_path: Seq<char>, home: Seq<char>) -> Seq<
    char,
> {
    let answer = trimmed(input);
    if answer.len() == 0 {
        default_path
    } else if is_absolute(answer) {
        answer
    } else {
        joined(home, answer)
    }
}

pub fn resolve_setup_path(input: &str, default_path: &str, home: &str) -> (r: String)
    ensures
        r@ == setup_path(input@, default_path@, home@),
{
    let answer = trim_text(input);
    let chars = to_chars(answer.as_str());
    if chars.len() == 0 {
        default_path.to_owned()
    } else if chars[0] == '/' {
        answer
    } else {
        join_path(home, answer.as_str())
    }
}

/// Whether the list of services names the daemon.
pub fn daemon_listed(services: &str) -> (r: bool)
    ensures
        r == contains_query(services@, DAEMON_NAME@),
{
    contains(services, DAEMON_NAME)
}

/// A size in whole kilobytes.
pub fn size_in_kb(bytes: u64) -> (r: u64)
    ensures
        r == bytes / 1024,
{
    bytes / 1024
}

pub open spec fn plist_head() -> Seq<char> {
    "<?xml version=\"1.0\" encoding=\"UTF-8\"?>
<!DOCTYPE plist PUBLIC \"-//Apple//DTD PLIST 1.0//EN\" \"http://www.apple.com/DTDs/PropertyList-1.0.dtd\">
<plist version=\"1.0\">
<dict>
    <key>Label</key>
    <string>no.bechsor.clippie-daemon</string>
    <key>ProgramArguments</key>
    <array>
        <string>"@
}

pub open spec fn plist_after_binary() -> Seq<char> {
    "</string>
        <string>daemon</string>
    </array>
    <key>RunAtLoad</key>
    <true/>
    <key>KeepAlive</key>
    <true/>
    <key>StandardOutPath</key>
    <string>"@
}

pub open spec fn plist_after_out() -> Seq<char> {
    "</string>
    <key>StandardErrorPath</key>
    <string>"@
}

pub open spec fn plist_tail() -> Seq<char> {
    "</string>
</dict>
</plist>"@
}

/// The description of the daemon for the service manager: it runs the
/// binary with the argument `daemon`, from login on, and keeps it alive;
/// what the daemon prints goes to the two logs.
pub fn plist_content(binary: &str, out_log: &str, err_log: &str) -> (r: String)
    ensures
        r@ == plist_head() + binary@ + plist_after_binary() + out_log@ + plist_after_out()
            + err_log@ + plist_tail(),
{
    let mut out = String::from_str(
        "<?xml version=\"1.0\" encoding=\"UTF-8\"?>
<!DOCTYPE plist PUBLIC \"-//Apple//DTD PLIST 1.0//EN\" \"http://www.apple.com/DTDs/PropertyList-1.0.dtd\">
<plist version=\"1.0\">
<dict>
    <key>Label</key>
    <string>no.bechsor.clippie-daemon</string>
    <key>ProgramArguments</key>
    <array>
        <string>",
    );
    out.append(binary);
    out.append(
        "</string>
        <string>daemon</string>
    </array>
    <key>RunAtLoad</key>
    <true/>
    <key>KeepAlive</key>
    <true/>
    <key>StandardOutPath</key>
    <string>",
    );
    out.append(out_log);
    out.append("</string>
    <key>StandardErrorPath</key>
    <string>");
    out.append(err_log);
    out.append("</string>
</dict>
</plist>");
    out
}

} // verus!
