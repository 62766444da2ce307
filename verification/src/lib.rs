//! Decision logic of an X11 idle daemon: idle listeners with timeout and
//! resume commands, system event handling, the screensaver inhibit registry
//! and command-line parsing. The daemon's I/O (X11, D-Bus, processes) is
//! performed by its caller, which hands events in and performs the actions
//! that come back.

pub mod cli;
pub mod config;
pub mod daemon;
pub mod error;
pub mod events;
pub mod idle;
pub mod input;
pub mod screensaver;
pub mod text;
