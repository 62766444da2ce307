use x11idle::cli::{parse, Cli};
use x11idle::config::{config_candidates, Config};
use x11idle::events::Event;
use x11idle::screensaver::State;

fn args(list: &[&str]) -> Vec<String> {
    list.iter().map(|s| s.to_string()).collect()
}

#[test]
fn cookies_count_up_from_one() {
    let mut state = State::new();
    assert_eq!(state.allocate_cookie("mpv", "video"), 1);
    assert_eq!(state.allocate_cookie("firefox", "audio"), 2);
    let d = state.remove_cookie(1).unwrap();
    assert_eq!(d.application, "mpv");
    assert_eq!(d.reason, "video");
    assert!(state.remove_cookie(1).is_none());
    assert_eq!(state.allocate_cookie("vlc", "video"), 3);
    assert!(state.remove_cookie(99).is_none());
}

#[test]
fn inhibit_and_uninhibit_events() {
    let mut state = State::new();
    let (cookie, event) = state.inhibit("/ScreenSaver", "mpv", "playing");
    assert_eq!(cookie, 1);
    match event {
        Event::ScreenSaverInhibit { path, application, reason, cookie } => {
            assert_eq!(path, "/ScreenSaver");
            assert_eq!(application, "mpv");
            assert_eq!(reason, "playing");
            assert_eq!(cookie, 1);
        }
        _ => panic!("unexpected event"),
    }
    match state.un_inhibit("/org/freedesktop/ScreenSaver", 1) {
        Event::ScreenSaverUnInhibit { path, cookie, details } => {
            assert_eq!(path, "/org/freedesktop/ScreenSaver");
            assert_eq!(cookie, 1);
            assert_eq!(details, Some(("mpv".to_string(), "playing".to_string())));
        }
        _ => panic!("unexpected event"),
    }
    match state.un_inhibit("/ScreenSaver", 1) {
        Event::ScreenSaverUnInhibit { details, .. } => assert_eq!(details, None),
        _ => panic!("unexpected event"),
    }
}

#[test]
fn cli_parsing() {
    assert!(matches!(parse(false, &args(&[])), Cli::Run(a) if !a.debug));
    assert!(matches!(parse(true, &args(&[])), Cli::Run(a) if a.debug));
    assert!(matches!(parse(false, &args(&["-d"])), Cli::Run(a) if a.debug));
    assert!(matches!(parse(false, &args(&["--debug", "--debug"])), Cli::Run(a) if a.debug));
    assert!(matches!(parse(false, &args(&["-v"])), Cli::Version));
    assert!(matches!(parse(false, &args(&["-V"])), Cli::Version));
    assert!(matches!(parse(false, &args(&["-d", "-V"])), Cli::Version));
    assert!(matches!(parse(false, &args(&["--version", "--bogus"])), Cli::Version));
    assert!(matches!(parse(false, &args(&["-d", "-h"])), Cli::Help));
    assert!(matches!(parse(false, &args(&["--help"])), Cli::Help));
    match parse(false, &args(&["-d", "--bogus", "-h"])) {
        Cli::UnknownOption(o) => assert_eq!(o, "--bogus"),
        _ => panic!("expected an unknown option"),
    }
}

#[test]
fn config_file_candidates() {
    assert_eq!(
        config_candidates(Some("/xdg"), Some("/home/u")),
        vec!["/xdg/x11idle/config.toml".to_string(), "/home/u/.config/x11idle/config.toml".to_string()]
    );
    assert_eq!(config_candidates(Some("/xdg/"), None), vec!["/xdg/x11idle/config.toml".to_string()]);
    assert_eq!(config_candidates(None, Some("/root")), vec!["/root/.config/x11idle/config.toml".to_string()]);
    assert!(config_candidates(None, None).is_empty());
}

#[test]
fn default_config_is_empty() {
    let c = Config::default();
    assert!(c.listener.is_empty());
    assert!(c.general.lock_cmd.is_none());
    assert!(c.general.unlock_cmd.is_none());
    assert!(c.general.before_sleep_cmd.is_none());
    assert!(c.general.after_sleep_cmd.is_none());
}

#[test]
fn cookie_survives_other_requests() {
    let mut state = State::new();
    let (cookie, _) = state.inhibit("/ScreenSaver", "mpv", "video");
    let (other, _) = state.inhibit("/ScreenSaver", "firefox", "audio");
    state.un_inhibit("/ScreenSaver", other);
    state.un_inhibit("/ScreenSaver", 77);
    state.inhibit("/ScreenSaver", "vlc", "movie");
    match state.un_inhibit("/org/freedesktop/ScreenSaver", cookie) {
        Event::ScreenSaverUnInhibit { details, .. } => {
            assert_eq!(details, Some(("mpv".to_string(), "video".to_string())))
        }
        _ => panic!("unexpected event"),
    }
    match state.un_inhibit("/org/freedesktop/ScreenSaver", cookie) {
        Event::ScreenSaverUnInhibit { details, .. } => assert_eq!(details, None),
        _ => panic!("unexpected event"),
    }
}
