//! Errors of the daemon.

use vstd::prelude::*;
use vstd::string::StringExecFns;

verus! {

/// An error, by the subsystem it comes from, with its message.
#[derive(Debug)]
pub enum Error {
    Dbus(String),
    Config(String),
    Command(String),
    Inhibit(String),
    X11(String),
    Channel(String),
}

/// The text an error is displayed as: its subsystem, then its message.
pub open spec fn error_text(e: Error) -> Seq<char> {
    match e {
        Error::Dbus(msg) => "D-Bus error: "@ + msg@,
        Error::Config(msg) => "Configuration error: "@ + msg@,
        Error::Command(msg) => "Command error: "@ + msg@,
        Error::Inhibit(msg) => "Inhibit error: "@ + msg@,
        Error::X11(msg) => "X11 error: "@ + msg@,
        Error::Channel(msg) => "Channel error: "@ + msg@,
    }
}

impl Error {
    /// The text this error is displayed as.
    pub fn to_string(&self) -> (r: String)
        ensures
            r@ == error_text(*self),
    {
        match self {
            Error::Dbus(msg) => String::from_str("D-Bus error: ").concat(msg.as_str()),
            Error::Config(msg) => String::from_str("Configuration error: ").concat(msg.as_str()),
            Error::Command(msg) => String::from_str("Command error: ").concat(msg.as_str()),
            Error::Inhibit(msg) => String::from_str("Inhibit error: ").concat(msg.as_str()),
            Error::X11(msg) => String::from_str("X11 error: ").concat(msg.as_str()),
            Error::Channel(msg) => String::from_str("Channel error: ").concat(msg.as_str()),
        }
    }
}

} // verus!
