use x11idle::daemon::{shutdown, Action, LoopExit};
use x11idle::error::Error;
use x11idle::input::{
    classify_wake, is_activity, is_input_extension_event, Wake, RAW_BUTTON_PRESS, RAW_KEY_PRESS, RAW_MOTION,
};

fn releases_only(actions: &[Action]) -> bool {
    actions.len() == 1 && matches!(actions[0], Action::ReleaseSleepInhibit)
}

#[test]
fn every_exit_releases_the_sleep_inhibitor() {
    let (actions, result) = shutdown(LoopExit::ChannelClosed);
    assert!(releases_only(&actions));
    assert!(result.is_ok());

    let (actions, result) = shutdown(LoopExit::Interrupted);
    assert!(releases_only(&actions));
    assert!(result.is_ok());

    let (actions, result) = shutdown(LoopExit::ListenerStopped);
    assert!(releases_only(&actions));
    assert_eq!(result.unwrap_err().to_string(), "Channel error: A listener stopped unexpectedly");

    let (actions, result) = shutdown(LoopExit::ListenerFailed(Error::Dbus("gone".to_string())));
    assert!(releases_only(&actions));
    assert!(matches!(result, Err(Error::Dbus(m)) if m == "gone"));

    let (actions, result) = shutdown(LoopExit::ListenerPanicked("task 3 panicked".to_string()));
    assert!(releases_only(&actions));
    assert_eq!(result.unwrap_err().to_string(), "Channel error: A listener task panicked: task 3 panicked");
}

#[test]
fn wake_classification() {
    assert_eq!(classify_wake(-1, true, true), Wake::Failed);
    assert_eq!(classify_wake(2, true, true), Wake::Stop);
    assert_eq!(classify_wake(1, false, true), Wake::Stop);
    assert_eq!(classify_wake(0, false, false), Wake::Nothing);
    assert_eq!(classify_wake(1, true, false), Wake::XEvents);
}

#[test]
fn event_classification() {
    assert!(is_input_extension_event(true, 131, 131));
    assert!(!is_input_extension_event(false, 131, 131));
    assert!(!is_input_extension_event(true, 130, 131));
    assert!(is_activity(RAW_KEY_PRESS));
    assert!(is_activity(RAW_BUTTON_PRESS));
    assert!(is_activity(RAW_MOTION));
    assert!(!is_activity(14));
    assert!(!is_activity(16));
    assert!(!is_activity(0));
    assert_eq!((RAW_KEY_PRESS, RAW_BUTTON_PRESS, RAW_MOTION), (13, 15, 17));
}

#[test]
fn raw_activity_event_mask() {
    let mask = x11idle::input::raw_activity_mask(4);
    assert_eq!(mask, vec![0x00, 0xA0, 0x02, 0x00]);
    let mut expected = vec![0u8; 4];
    for e in [RAW_KEY_PRESS, RAW_BUTTON_PRESS, RAW_MOTION] {
        expected[(e >> 3) as usize] |= 1 << (e & 7);
    }
    assert_eq!(mask, expected);
    assert_eq!(x11idle::input::raw_activity_mask(3), vec![0x00, 0xA0, 0x02]);
}
