//! Configuration values of the daemon.
//!
//! The daemon reads them from a TOML file; this module holds the values
//! themselves and their defaults.

use std::path::Path;

use vstd::prelude::*;

verus! {

/// Commands executed in response to system events (lock, unlock, sleep).
///
/// All commands are executed via `sh -c`.
#[derive(Debug, Clone)]
pub struct GeneralConfig {
    /// Command to execute when the session is locked.
    pub lock_cmd: Option<String>,
    /// Command to execute when the session is unlocked.
    pub unlock_cmd: Option<String>,
    /// Command to execute before the system goes to sleep.
    pub before_sleep_cmd: Option<String>,
    /// Command to execute after the system wakes from sleep.
    pub after_sleep_cmd: Option<String>,
}

impl Default for GeneralConfig {
    /// No command for any system event.
    fn default() -> (config: Self)
        ensures
            config.lock_cmd is None,
            config.unlock_cmd is None,
            config.before_sleep_cmd is None,
            config.after_sleep_cmd is None,
    {
        GeneralConfig { lock_cmd: None, unlock_cmd: None, before_sleep_cmd: None, after_sleep_cmd: None }
    }
}

/// One idle listener: a timeout in seconds, the command run when the user
/// has been idle that long, and the command run when the user comes back.
#[derive(Debug, Clone)]
pub struct ListenerConfig {
    /// Idle timeout in seconds. The timer pauses while the screensaver is
    /// inhibited.
    pub timeout: u64,
    /// Command executed once the idle timeout is reached.
    pub on_timeout: String,
    /// Command executed when physical input is detected after the timeout
    /// was triggered; it runs once per idle cycle.
    pub on_resume: String,
}

/// Main configuration container.
#[derive(Debug, Clone)]
pub struct Config {
    /// Commands for system events.
    pub general: GeneralConfig,
    /// Idle listeners, in the order they were configured.
    pub listener: Vec<ListenerConfig>,
}

impl Default for Config {
    /// The empty configuration: no system event commands, no listeners.
    fn default() -> (config: Self)
        ensures
            config.general.lock_cmd is None,
            config.general.unlock_cmd is None,
            config.general.before_sleep_cmd is None,
            config.general.after_sleep_cmd is None,
            config.listener@.len() == 0,
    {
        Config { general: GeneralConfig::default(), listener: Vec::new() }
    }
}

/// The path `Path::join` makes of `base` and `part`.
pub uninterp spec fn path_join(base: Seq<char>, part: Seq<char>) -> Seq<char>;

/// Calls `Path::join` on `base` and the relative `part` and returns the
/// joined path as a string. Its rules (separators, an empty base) are not
/// written out here: the result is named `path_join` of the two strings.
/// Joining two UTF-8 strings gives a UTF-8 path, so the conversion back to
/// a string loses nothing.
#[verifier::external_body]
fn join_path(base: &str, part: &str) -> (joined: String)
    ensures
        joined@ == path_join(base@, part@),
{
    Path::new(base).join(part).to_string_lossy().into_owned()
}

/// Where the configuration file lies under a configuration directory.
pub open spec fn config_file_in(config_dir: Seq<char>) -> Seq<char> {
    path_join(path_join(config_dir, "x11idle"@), "config.toml"@)
}

/// The places the configuration file is looked for, in order:
/// `$XDG_CONFIG_HOME/x11idle/config.toml` when `XDG_CONFIG_HOME` is set,
/// then `$HOME/.config/x11idle/config.toml` when `HOME` is set. The first
/// one that exists is read; when none exists the configuration is empty.
pub open spec fn config_candidates_spec(xdg_config_home: Option<Seq<char>>, home: Option<Seq<char>>) -> Seq<Seq<char>> {
    (match xdg_config_home {
        Some(x) => seq![config_file_in(x)],
        None => seq![],
    }) + (match home {
        Some(h) => seq![config_file_in(path_join(h, ".config"@))],
        None => seq![],
    })
}

/// The candidate configuration file paths for the given values of
/// `XDG_CONFIG_HOME` and `HOME`, in the order they are tried.
pub fn config_candidates(xdg_config_home: Option<&str>, home: Option<&str>) -> (paths: Vec<String>)
    ensures
        paths@.map_values(|p: String| p@) == config_candidates_spec(
            match xdg_config_home {
                Some(x) => Some(x@),
                None => None,
            },
            match home {
                Some(h) => Some(h@),
                None => None,
            },
        ),
{
    let mut paths: Vec<String> = Vec::new();
    match xdg_config_home {
        Some(x) => {
            let dir = join_path(x, "x11idle");
            paths.push(join_path(dir.as_str(), "config.toml"));
        },
        None => {},
    }
    match home {
        Some(h) => {
            let dot_config = join_path(h, ".config");
            let dir = join_path(dot_config.as_str(), "x11idle");
            paths.push(join_path(dir.as_str(), "config.toml"));
        },
        None => {},
    }
    proof {
        assert(paths@.map_values(|p: String| p@) =~= config_candidates_spec(
            match xdg_config_home {
                Some(x) => Some(x@),
                None => None,
            },
            match home {
                Some(h) => Some(h@),
                None => None,
            },
        ));
    }
    paths
}

} // verus!
