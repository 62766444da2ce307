use std::time::Duration;

use x11idle::config::{Config, GeneralConfig, ListenerConfig};
use x11idle::daemon::{Action, Daemon};
use x11idle::events::Event;

fn config() -> Config {
    Config {
        general: GeneralConfig {
            lock_cmd: Some("lock".to_string()),
            unlock_cmd: None,
            before_sleep_cmd: Some("before".to_string()),
            after_sleep_cmd: Some("after".to_string()),
        },
        listener: vec![ListenerConfig {
            timeout: 60,
            on_timeout: "dim".to_string(),
            on_resume: "brighten".to_string(),
        }],
    }
}

fn describe(actions: &[Action]) -> Vec<String> {
    actions
        .iter()
        .map(|a| match a {
            Action::RunCommand(c) => format!("run {} {}", c.name, c.command),
            Action::ReleaseSleepInhibit => "release".to_string(),
            Action::AcquireSleepInhibit => "acquire".to_string(),
            Action::StartInputMonitor => "start".to_string(),
            Action::StopInputMonitor => "stop".to_string(),
        })
        .collect()
}

#[test]
fn delays() {
    let d = Daemon::new(config());
    assert!(d.needs_idle_clock());
    assert!(!Daemon::new(Config::default()).needs_idle_clock());
    assert_eq!(d.initial_idle_delay(true), Duration::from_millis(1));
    assert_eq!(d.initial_idle_delay(false), Duration::from_secs(60));
    assert_eq!(Daemon::immediate_idle_delay(), Duration::from_millis(1));
    assert_eq!(Daemon::idle_maintenance_delay(), Duration::from_secs(5));
}

#[test]
fn sleep_events() {
    let mut d = Daemon::new(config());
    assert_eq!(
        describe(&d.handle_event(&Event::Sleep { going_to_sleep: true })),
        vec!["run before_sleep before", "release"]
    );
    assert_eq!(
        describe(&d.handle_event(&Event::Sleep { going_to_sleep: false })),
        vec!["run after_sleep after", "acquire"]
    );
    let mut plain = Daemon::new(Config::default());
    assert_eq!(describe(&plain.handle_event(&Event::Sleep { going_to_sleep: true })), vec!["release"]);
}

#[test]
fn lock_and_unlock() {
    let mut d = Daemon::new(config());
    assert_eq!(describe(&d.handle_event(&Event::Lock)), vec!["run lock lock"]);
    assert!(d.handle_event(&Event::Unlock).is_empty());
}

#[test]
fn idle_cycle_with_monitor() {
    let mut d = Daemon::new(config());
    let (actions, delay) = d.poll_x11(Some(0));
    assert!(actions.is_empty());
    assert_eq!(delay, Duration::from_millis(60_000));
    let (actions, delay) = d.poll_x11(Some(60_000));
    assert_eq!(describe(&actions), vec!["run listener timeout dim", "start"]);
    assert_eq!(delay, Duration::from_millis(5_000));
    let (actions, _) = d.poll_x11(Some(65_000));
    assert!(actions.is_empty());
    assert_eq!(
        describe(&d.handle_event(&Event::PhysicalInput)),
        vec!["run listener resume brighten", "stop"]
    );
    assert!(d.handle_event(&Event::PhysicalInput).is_empty());
}

#[test]
fn failed_sample_waits_maintenance_delay() {
    let mut d = Daemon::new(config());
    let (actions, delay) = d.poll_x11(None);
    assert!(actions.is_empty());
    assert_eq!(delay, Duration::from_secs(5));
}

#[test]
fn inhibition_pauses_listeners() {
    let mut d = Daemon::new(config());
    let inhibit = Event::ScreenSaverInhibit {
        path: "/ScreenSaver",
        application: "mpv".to_string(),
        reason: "video".to_string(),
        cookie: 1,
    };
    assert!(d.handle_event(&inhibit).is_empty());
    let (actions, delay) = d.poll_x11(Some(100_000));
    assert!(actions.is_empty());
    assert_eq!(delay, Duration::from_secs(5));
    let uninhibit = Event::ScreenSaverUnInhibit { path: "/ScreenSaver", cookie: 1, details: None };
    assert!(d.handle_event(&uninhibit).is_empty());
    // The cycle restarts at 100 s of idle time.
    let (actions, delay) = d.poll_x11(Some(100_000));
    assert!(actions.is_empty());
    assert_eq!(delay, Duration::from_secs(60));
    let (actions, _) = d.poll_x11(Some(160_000));
    assert_eq!(describe(&actions), vec!["run listener timeout dim", "start"]);
}
