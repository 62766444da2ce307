//! System events and the commands they execute.

use vstd::prelude::*;
use vstd::string::StringExecFns;

use crate::config::GeneralConfig;
use crate::text::{debug_quoted, debug_repr, decimal, decimal_string, is_blank, is_blank_str};

verus! {

/// A command to execute via `sh -c`, with the name under which it is
/// reported.
#[derive(Debug, Clone)]
pub struct CommandRequest {
    /// What the command is for, e.g. `"lock"` or `"listener timeout"`.
    pub name: String,
    /// The shell command line.
    pub command: String,
}

/// The characters of a [`CommandRequest`].
pub struct CommandView {
    pub name: Seq<char>,
    pub command: Seq<char>,
}

impl View for CommandRequest {
    type V = CommandView;

    open spec fn view(&self) -> CommandView {
        CommandView { name: self.name@, command: self.command@ }
    }
}

/// The request to run `command` under `name`.
pub open spec fn command_view(name: Seq<char>, command: Seq<char>) -> CommandView {
    CommandView { name, command }
}

/// An event that the daemon reacts to.
#[derive(Debug, Clone)]
pub enum Event {
    /// Keyboard, mouse button or pointer motion was seen.
    PhysicalInput,
    /// The system is about to sleep (`true`) or has woken up (`false`).
    Sleep { going_to_sleep: bool },
    /// The session was locked.
    Lock,
    /// The session was unlocked.
    Unlock,
    /// An application inhibited the screensaver.
    ScreenSaverInhibit { path: &'static str, application: String, reason: String, cookie: u32 },
    /// An inhibition was released; `details` holds the application and
    /// reason it was registered with, when the cookie was known.
    ScreenSaverUnInhibit { path: &'static str, cookie: u32, details: Option<(String, String)> },
}

/// The name under which an event and its command are reported.
pub open spec fn event_name(e: Event) -> Seq<char> {
    match e {
        Event::PhysicalInput => "physical_input"@,
        Event::Sleep { going_to_sleep } => if going_to_sleep {
            "before_sleep"@
        } else {
            "after_sleep"@
        },
        Event::Lock => "lock"@,
        Event::Unlock => "unlock"@,
        Event::ScreenSaverInhibit { .. } => "screensaver_inhibit"@,
        Event::ScreenSaverUnInhibit { .. } => "screensaver_uninhibit"@,
    }
}

/// The configured command that an event executes, if any: the sleep,
/// lock and unlock commands of the general configuration.
pub open spec fn event_command(e: Event, config: GeneralConfig) -> Option<String> {
    match e {
        Event::Sleep { going_to_sleep } => if going_to_sleep {
            config.before_sleep_cmd
        } else {
            config.after_sleep_cmd
        },
        Event::Lock => config.lock_cmd,
        Event::Unlock => config.unlock_cmd,
        _ => None,
    }
}

/// The summary line of an inhibition, from its path and the already
/// formatted application, reason and cookie.
pub open spec fn inhibit_line(
    path: Seq<char>,
    application: Seq<char>,
    reason: Seq<char>,
    cookie: Seq<char>,
) -> Seq<char> {
    "ScreenSaver Inhibit: path="@ + path + " app="@ + application + " reason="@ + reason
        + " cookie="@ + cookie
}

/// The summary line of an uninhibition, from its path, the formatted
/// cookie and, when known, the formatted application and reason.
pub open spec fn uninhibit_line(
    path: Seq<char>,
    cookie: Seq<char>,
    details: Option<(Seq<char>, Seq<char>)>,
) -> Seq<char> {
    match details {
        Some((application, reason)) => "ScreenSaver UnInhibit: path="@ + path + " cookie="@ + cookie
            + " app="@ + application + " reason="@ + reason,
        None => "ScreenSaver UnInhibit: path="@ + path + " cookie="@ + cookie
            + " app=<unknown> reason=<unknown>"@,
    }
}

/// The one-line summary of a screensaver event; other events have none.
/// Application and reason are shown as `{:?}` shows them, the cookie in
/// decimal.
pub open spec fn event_summary(e: Event) -> Option<Seq<char>> {
    match e {
        Event::ScreenSaverInhibit { path, application, reason, cookie } => Some(
            inhibit_line(
                path@,
                debug_repr(application@),
                debug_repr(reason@),
                decimal(cookie as nat),
            ),
        ),
        Event::ScreenSaverUnInhibit { path, cookie, details } => Some(
            uninhibit_line(
                path@,
                decimal(cookie as nat),
                match details {
                    Some((application, reason)) => Some(
                        (debug_repr(application@), debug_repr(reason@)),
                    ),
                    None => None,
                },
            ),
        ),
        _ => None,
    }
}

/// The summary line of an inhibition from its formatted parts.
pub fn format_inhibit(path: &str, application: &str, reason: &str, cookie: &str) -> (line: String)
    ensures
        line@ == inhibit_line(path@, application@, reason@, cookie@),
{
    String::from_str("ScreenSaver Inhibit: path=").concat(path).concat(" app=").concat(
        application,
    ).concat(" reason=").concat(reason).concat(" cookie=").concat(cookie)
}

/// The summary line of an uninhibition from its formatted parts.
pub fn format_uninhibit(path: &str, cookie: &str, details: Option<(&str, &str)>) -> (line: String)
    ensures
        line@ == uninhibit_line(
            path@,
            cookie@,
            match details {
                Some((application, reason)) => Some((application@, reason@)),
                None => None,
            },
        ),
{
    let head = String::from_str("ScreenSaver UnInhibit: path=").concat(path).concat(
        " cookie=",
    ).concat(cookie);
    match details {
        Some((application, reason)) => head.concat(" app=").concat(application).concat(
            " reason=",
        ).concat(reason),
        None => head.concat(" app=<unknown> reason=<unknown>"),
    }
}

impl Event {
    /// The name of this event.
    pub fn name(&self) -> (r: &'static str)
        ensures
            r@ == event_name(*self),
    {
        match self {
            Event::PhysicalInput => "physical_input",
            Event::Sleep { going_to_sleep } => if *going_to_sleep {
                "before_sleep"
            } else {
                "after_sleep"
            },
            Event::Lock => "lock",
            Event::Unlock => "unlock",
            Event::ScreenSaverInhibit { .. } => "screensaver_inhibit",
            Event::ScreenSaverUnInhibit { .. } => "screensaver_uninhibit",
        }
    }

    /// The command that executing this event runs: its configured command,
    /// reported under the event's name, or `None` when the event has no
    /// command configured.
    pub fn execute(&self, config: &GeneralConfig) -> (r: Option<CommandRequest>)
        ensures
            r is Some <==> event_command(*self, *config) is Some,
            r is Some ==> r->0@ == command_view(
                event_name(*self),
                event_command(*self, *config)->0@,
            ),
    {
        let cmd: &Option<String> = match self {
            Event::Sleep { going_to_sleep } => if *going_to_sleep {
                &config.before_sleep_cmd
            } else {
                &config.after_sleep_cmd
            },
            Event::Lock => &config.lock_cmd,
            Event::Unlock => &config.unlock_cmd,
            _ => &None,
        };
        match cmd {
            Some(c) => Some(CommandRequest { name: String::from_str(self.name()), command: c.clone() }),
            None => None,
        }
    }

    /// A one-line summary of a screensaver inhibit or uninhibit event, or
    /// `None` for other events.
    pub fn describe(&self) -> (r: Option<String>)
        ensures
            r is Some <==> event_summary(*self) is Some,
            r is Some ==> r->0@ == event_summary(*self)->0,
    {
        match self {
            Event::ScreenSaverInhibit { path, application, reason, cookie } => {
                let application = debug_quoted(application.as_str());
                let reason = debug_quoted(reason.as_str());
                let cookie = decimal_string(*cookie);
                Some(format_inhibit(path, application.as_str(), reason.as_str(), cookie.as_str()))
            },
            Event::ScreenSaverUnInhibit { path, cookie, details } => {
                let cookie = decimal_string(*cookie);
                match details {
                    Some((application, reason)) => {
                        let application = debug_quoted(application.as_str());
                        let reason = debug_quoted(reason.as_str());
                        Some(
                            format_uninhibit(
                                path,
                                cookie.as_str(),
                                Some((application.as_str(), reason.as_str())),
                            ),
                        )
                    },
                    None => Some(format_uninhibit(path, cookie.as_str(), None)),
                }
            },
            _ => None,
        }
    }
}

/// The command to run for `cmd_str` under `name`, unless `cmd_str` is
/// blank (empty or whitespace only), in which case nothing runs.
pub fn run_optional_command(name: &str, cmd_str: &str) -> (r: Option<CommandRequest>)
    ensures
        r is Some <==> !is_blank(cmd_str@),
        r is Some ==> r->0@ == command_view(name@, cmd_str@),
{
    if is_blank_str(cmd_str) {
        return None;
    }
    Some(CommandRequest { name: String::from_str(name), command: String::from_str(cmd_str) })
}

} // verus!
