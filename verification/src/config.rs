//! Where the configuration and the history store live.
//!
//! The environment and the file system are read elsewhere; the functions
//! here decide from what was found.

use vstd::prelude::*;
use vstd::string::StringExecFns;
use crate::error::CliError;
use crate::text::{string_push, to_chars};

verus! {

/// The settings that are kept on disk.
#[derive(Debug, Clone)]
pub struct Config {
    pub db_path: String,
}

/// Knows the paths of the configuration.
#[derive(Debug)]
pub struct ConfigManager {
    pub config_dir: String,
    pub config_file: String,
}

/// `base` with the relative path `part` below it: the two joined by one `/`,
/// which is left out where `base` is empty or ends in `/` already.
pub open spec fn joined(base: Seq<char>, part: Seq<char>) -> Seq<char> {
    if base.len() == 0 || base.last() == '/' {
        base + part
    } else {
        base.push('/') + part
    }
}

/// The directory of the configuration: `clippy` below the XDG directory if
/// that is set, else `.config/clippy` below the home directory.
pub open spec fn config_dir_of(xdg: Option<Seq<char>>, home: Option<Seq<char>>) -> Option<
    Seq<char>,
> {
    match (xdg, home) {
        (Some(dir), _) => Some(joined(dir, "clippy"@)),
        (None, Some(dir)) => Some(joined(joined(dir, ".config"@), "clippy"@)),
        (None, None) => None,
    }
}

/// The path of the store: the override if there is one, else the path in
/// the configuration, else `.clippie/clipboard.db` below the home directory.
pub open spec fn db_path_of(
    env_override: Option<Seq<char>>,
    configured: Option<Seq<char>>,
    home: Option<Seq<char>>,
) -> Option<Seq<char>> {
    match (env_override, configured, home) {
        (Some(path), _, _) => Some(path),
        (None, Some(path), _) => Some(path),
        (None, None, Some(dir)) => Some(joined(joined(dir, ".clippie"@), "clipboard.db"@)),
        (None, None, None) => None,
    }
}

pub open spec fn text_of(s: Option<String>) -> Option<Seq<char>> {
    match s {
        Some(text) => Some(text@),
        None => None,
    }
}

pub open spec fn no_home() -> Seq<char> {
    "Could not determine home directory"@
}

/// Joins a relative path to a base path.
pub fn join_path(base: &str, part: &str) -> (r: String)
    ensures
        r@ == joined(base@, part@),
{
    let chars = to_chars(base);
    let mut out = String::from_str(base);
    if chars.len() > 0 && chars[chars.len() - 1] != '/' {
        string_push(&mut out, '/');
    }
    out.append(part);
    out
}

/// Calls `std::path::Path::exists`: whether something exists at the path
/// right now. Nothing is claimed of the result.
#[verifier::external_body]
fn path_exists(path: &str) -> bool {
    std::path::Path::new(path).exists()
}

impl ConfigManager {
    /// The manager for the given environment: `xdg_config_home` is the value
    /// of `XDG_CONFIG_HOME` if it is set, `home` the home directory if it is
    /// known. Fails only if neither is given.
    pub fn new(xdg_config_home: Option<String>, home: Option<String>) -> (r: Result<
        Self,
        CliError,
    >)
        ensures
            match config_dir_of(text_of(xdg_config_home), text_of(home)) {
                Some(dir) => r matches Ok(m) && m.config_dir@ == dir && m.config_file@ == joined(
                    dir,
                    "config.json"@,
                ),
                None => r matches Err(e) && e matches CliError::ConfigError(s) && s@ == no_home(),
            },
    {
        let config_dir: String = match xdg_config_home {
            Some(dir) => join_path(dir.as_str(), "clippy"),
            None => match home {
                Some(dir) => {
                    let below = join_path(dir.as_str(), ".config");
                    join_path(below.as_str(), "clippy")
                },
                None => {
                    return Err(
                        CliError::ConfigError(
                            String::from_str("Could not determine home directory"),
                        ),
                    );
                },
            },
        };
        let config_file = join_path(config_dir.as_str(), "config.json");
        Ok(ConfigManager { config_dir, config_file })
    }

    pub fn config_file(&self) -> (r: &str)
        ensures
            r@ == self.config_file@,
    {
        self.config_file.as_str()
    }

    /// Whether the configuration file exists right now.
    pub fn is_present(&self) -> bool {
        path_exists(self.config_file.as_str())
    }

    /// The path of the store. `env_override` is the value of
    /// `CLIPPIE_DB_PATH` if it is set, `loaded` the configuration if it
    /// could be read, `home` the home directory if it is known.
    pub fn get_db_path(
        &self,
        env_override: Option<String>,
        loaded: Option<Config>,
        home: Option<String>,
    ) -> (r: Result<String, CliError>)
        ensures
            match db_path_of(
                text_of(env_override),
                match loaded {
                    Some(config) => Some(config.db_path@),
                    None => None,
                },
                text_of(home),
            ) {
                Some(path) => r matches Ok(p) && p@ == path,
                None => r matches Err(e) && e matches CliError::ConfigError(s) && s@ == no_home(),
            },
    {
        if let Some(path) = env_override {
            return Ok(path);
        }
        if let Some(config) = loaded {
            return Ok(config.db_path);
        }
        match home {
            Some(dir) => {
                let below = join_path(dir.as_str(), ".clippie");
                Ok(join_path(below.as_str(), "clipboard.db"))
            },
            None => Err(
                CliError::ConfigError(String::from_str("Could not determine home directory")),
            ),
        }
    }
}

} // verus!
