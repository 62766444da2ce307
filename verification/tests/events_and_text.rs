use x11idle::config::GeneralConfig;
use x11idle::error::Error;
use x11idle::events::{format_inhibit, format_uninhibit, run_optional_command, Event};
use x11idle::text::{is_blank_str, is_whitespace};

fn general() -> GeneralConfig {
    GeneralConfig {
        lock_cmd: Some("hyprlock".to_string()),
        unlock_cmd: Some("notify-send 'Welcome back!'".to_string()),
        before_sleep_cmd: Some("systemctl suspend".to_string()),
        after_sleep_cmd: None,
    }
}

#[test]
fn event_names() {
    assert_eq!(Event::PhysicalInput.name(), "physical_input");
    assert_eq!(Event::Sleep { going_to_sleep: true }.name(), "before_sleep");
    assert_eq!(Event::Sleep { going_to_sleep: false }.name(), "after_sleep");
    assert_eq!(Event::Lock.name(), "lock");
    assert_eq!(Event::Unlock.name(), "unlock");
    let inhibit = Event::ScreenSaverInhibit {
        path: "/ScreenSaver",
        application: "mpv".to_string(),
        reason: "video".to_string(),
        cookie: 1,
    };
    assert_eq!(inhibit.name(), "screensaver_inhibit");
    let uninhibit = Event::ScreenSaverUnInhibit { path: "/ScreenSaver", cookie: 1, details: None };
    assert_eq!(uninhibit.name(), "screensaver_uninhibit");
}

#[test]
fn execute_picks_the_configured_command() {
    let config = general();
    let lock = Event::Lock.execute(&config).unwrap();
    assert_eq!(lock.name, "lock");
    assert_eq!(lock.command, "hyprlock");
    let unlock = Event::Unlock.execute(&config).unwrap();
    assert_eq!(unlock.name, "unlock");
    assert_eq!(unlock.command, "notify-send 'Welcome back!'");
    let sleep = Event::Sleep { going_to_sleep: true }.execute(&config).unwrap();
    assert_eq!(sleep.name, "before_sleep");
    assert_eq!(sleep.command, "systemctl suspend");
    assert!(Event::Sleep { going_to_sleep: false }.execute(&config).is_none());
    assert!(Event::PhysicalInput.execute(&config).is_none());
    assert!(Event::ScreenSaverUnInhibit { path: "/ScreenSaver", cookie: 3, details: None }
        .execute(&config)
        .is_none());
}

#[test]
fn execute_with_default_config_runs_nothing() {
    let config = GeneralConfig::default();
    assert!(Event::Lock.execute(&config).is_none());
    assert!(Event::Sleep { going_to_sleep: true }.execute(&config).is_none());
}

#[test]
fn describe_inhibit() {
    let e = Event::ScreenSaverInhibit {
        path: "/org/freedesktop/ScreenSaver",
        application: "firefox".to_string(),
        reason: "audio \"playing\"".to_string(),
        cookie: 42,
    };
    assert_eq!(
        e.describe().unwrap(),
        "ScreenSaver Inhibit: path=/org/freedesktop/ScreenSaver app=\"firefox\" reason=\"audio \\\"playing\\\"\" cookie=42"
    );
}

#[test]
fn describe_uninhibit() {
    let known = Event::ScreenSaverUnInhibit {
        path: "/ScreenSaver",
        cookie: 7,
        details: Some(("mpv".to_string(), "video".to_string())),
    };
    assert_eq!(
        known.describe().unwrap(),
        "ScreenSaver UnInhibit: path=/ScreenSaver cookie=7 app=\"mpv\" reason=\"video\""
    );
    let unknown = Event::ScreenSaverUnInhibit { path: "/ScreenSaver", cookie: 4294967295, details: None };
    assert_eq!(
        unknown.describe().unwrap(),
        "ScreenSaver UnInhibit: path=/ScreenSaver cookie=4294967295 app=<unknown> reason=<unknown>"
    );
    assert!(Event::Lock.describe().is_none());
    assert!(Event::PhysicalInput.describe().is_none());
}

#[test]
fn optional_command_skips_blank() {
    assert!(run_optional_command("x", "").is_none());
    assert!(run_optional_command("x", "   \t\n").is_none());
    assert!(run_optional_command("x", "\u{3000}\u{85}").is_none());
    let c = run_optional_command("listener timeout", "  echo hi ").unwrap();
    assert_eq!(c.name, "listener timeout");
    assert_eq!(c.command, "  echo hi ");
}

#[test]
fn whitespace_matches_std() {
    for u in 0..=0x10FFFFu32 {
        if let Some(c) = char::from_u32(u) {
            assert_eq!(is_whitespace(c), c.is_whitespace(), "{:#x}", u);
        }
    }
}

#[test]
fn blank_matches_trim() {
    for s in ["", " ", "a", " a ", "\u{2028}", "\u{200B}", "x\u{3000}"] {
        assert_eq!(is_blank_str(s), s.trim().is_empty(), "{:?}", s);
    }
}

#[test]
fn error_texts() {
    assert_eq!(Error::Dbus("no bus".to_string()).to_string(), "D-Bus error: no bus");
    assert_eq!(Error::Config("bad".to_string()).to_string(), "Configuration error: bad");
    assert_eq!(Error::Command("spawn".to_string()).to_string(), "Command error: spawn");
    assert_eq!(Error::Inhibit("fd".to_string()).to_string(), "Inhibit error: fd");
    assert_eq!(Error::X11("display".to_string()).to_string(), "X11 error: display");
    assert_eq!(Error::Channel("closed".to_string()).to_string(), "Channel error: closed");
}

#[test]
fn summary_lines_from_parts() {
    assert_eq!(
        format_inhibit("/ScreenSaver", "\"mpv\"", "\"video\"", "9"),
        "ScreenSaver Inhibit: path=/ScreenSaver app=\"mpv\" reason=\"video\" cookie=9"
    );
    assert_eq!(
        format_uninhibit("/ScreenSaver", "9", Some(("\"mpv\"", "\"video\""))),
        "ScreenSaver UnInhibit: path=/ScreenSaver cookie=9 app=\"mpv\" reason=\"video\""
    );
    assert_eq!(
        format_uninhibit("/ScreenSaver", "0", None),
        "ScreenSaver UnInhibit: path=/ScreenSaver cookie=0 app=<unknown> reason=<unknown>"
    );
}
