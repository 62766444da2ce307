use std::time::Duration;

use x11idle::config::ListenerConfig;
use x11idle::events::CommandRequest;
use x11idle::idle::{IdleScheduler, IDLE_MAINTENANCE_DELAY_MS, MIN_WAKE_DELAY_MS};

fn listener(timeout: u64, on_timeout: &str, on_resume: &str) -> ListenerConfig {
    ListenerConfig { timeout, on_timeout: on_timeout.to_string(), on_resume: on_resume.to_string() }
}

fn commands(cmds: &[CommandRequest]) -> Vec<(String, String)> {
    cmds.iter().map(|c| (c.name.clone(), c.command.clone())).collect()
}

fn pair(name: &str, cmd: &str) -> (String, String) {
    (name.to_string(), cmd.to_string())
}

#[test]
fn empty_scheduler() {
    let mut s = IdleScheduler::new(Vec::new());
    assert!(s.is_empty());
    assert!(s.update(1_000_000, false).is_empty());
    assert!(!s.has_pending_resumes());
    assert_eq!(s.next_wake_delay_ms(0, false), IDLE_MAINTENANCE_DELAY_MS);
    assert!(s.handle_user_activity().is_empty());
}

#[test]
fn listeners_fire_in_timeout_order() {
    let mut s = IdleScheduler::new(vec![listener(300, "lock", "unlock"), listener(60, "dim", "brighten")]);
    assert!(!s.is_empty());
    assert!(s.update(59_999, false).is_empty());
    assert_eq!(commands(&s.update(60_000, false)), vec![pair("listener timeout", "dim")]);
    assert!(s.has_pending_resumes());
    assert!(s.update(299_999, false).is_empty());
    assert_eq!(commands(&s.update(300_000, false)), vec![pair("listener timeout", "lock")]);
}

#[test]
fn due_listeners_fire_together_in_order() {
    let mut s = IdleScheduler::new(vec![listener(300, "lock", "unlock"), listener(60, "dim", "brighten")]);
    assert_eq!(
        commands(&s.update(400_000, false)),
        vec![pair("listener timeout", "dim"), pair("listener timeout", "lock")]
    );
}

#[test]
fn equal_timeouts_keep_configured_order() {
    let mut s = IdleScheduler::new(vec![
        listener(10, "b", "rb"),
        listener(5, "a", "ra"),
        listener(10, "c", "rc"),
    ]);
    assert_eq!(
        commands(&s.update(10_000, false)),
        vec![pair("listener timeout", "a"), pair("listener timeout", "b"), pair("listener timeout", "c")]
    );
    assert_eq!(
        commands(&s.handle_user_activity()),
        vec![pair("listener resume", "rc"), pair("listener resume", "rb"), pair("listener resume", "ra")]
    );
}

#[test]
fn each_listener_fires_once_per_cycle() {
    let mut s = IdleScheduler::new(vec![listener(1, "t", "r")]);
    assert_eq!(s.update(1_000, false).len(), 1);
    assert!(s.update(1_000, false).is_empty());
    assert!(s.update(50_000, false).is_empty());
    assert_eq!(commands(&s.handle_user_activity()), vec![pair("listener resume", "r")]);
    assert!(!s.has_pending_resumes());
    assert!(s.handle_user_activity().is_empty());
    assert_eq!(s.update(1_000, false).len(), 1);
}

#[test]
fn blank_commands_are_skipped_but_listener_fires() {
    let mut s = IdleScheduler::new(vec![listener(1, "  ", "\t")]);
    assert!(s.update(1_000, false).is_empty());
    assert!(s.has_pending_resumes());
    assert!(s.handle_user_activity().is_empty());
    assert!(!s.has_pending_resumes());
}

#[test]
fn inhibition_pauses_and_restarts_the_cycle() {
    let mut s = IdleScheduler::new(vec![listener(10, "t", "r")]);
    assert!(s.update(5_000, true).is_empty());
    assert!(s.update(20_000, true).is_empty());
    assert!(!s.has_pending_resumes());
    // The inhibition ends at 20 s of idle time: the cycle restarts there.
    assert!(s.update(20_000, false).is_empty());
    assert!(s.update(29_999, false).is_empty());
    assert_eq!(s.next_wake_delay_ms(29_999, false), MIN_WAKE_DELAY_MS);
    assert_eq!(commands(&s.update(30_000, false)), vec![pair("listener timeout", "t")]);
}

#[test]
fn activity_resets_the_cycle_start() {
    let mut s = IdleScheduler::new(vec![listener(10, "t", "r")]);
    s.update(0, true);
    s.update(20_000, false);
    s.handle_user_activity();
    assert_eq!(s.next_wake_delay_ms(4_000, false), 6_000);
    assert_eq!(s.update(10_000, false).len(), 1);
}

#[test]
fn wake_delay_values() {
    let mut s = IdleScheduler::new(vec![listener(300, "lock", ""), listener(60, "dim", "")]);
    assert_eq!(s.next_wake_delay_ms(0, false), 60_000);
    assert_eq!(s.next_wake_delay_ms(59_990, false), MIN_WAKE_DELAY_MS);
    assert_eq!(s.next_wake_delay_ms(70_000, false), MIN_WAKE_DELAY_MS);
    assert_eq!(s.next_wake_delay_ms(0, true), IDLE_MAINTENANCE_DELAY_MS);
    s.update(60_000, false);
    assert_eq!(s.next_wake_delay_ms(60_000, false), 240_000);
    s.update(300_000, false);
    assert_eq!(s.next_wake_delay_ms(300_000, false), IDLE_MAINTENANCE_DELAY_MS);
    assert_eq!(s.next_wake_delay(0, false), Duration::from_millis(IDLE_MAINTENANCE_DELAY_MS));
}

#[test]
fn wake_delay_as_duration() {
    let s = IdleScheduler::new(vec![listener(2, "t", "r")]);
    assert_eq!(s.next_wake_delay(500, false), Duration::from_millis(1_500));
    assert_eq!(s.next_wake_delay(500, false).as_millis(), 1_500);
}

#[test]
fn huge_timeout_saturates() {
    let mut s = IdleScheduler::new(vec![listener(u64::MAX, "never", "")]);
    assert_eq!(s.next_wake_delay_ms(0, false), u64::MAX);
    assert!(s.update(u64::MAX - 1, false).is_empty());
    assert_eq!(s.update(u64::MAX, false).len(), 1);
}

#[test]
fn waking_after_the_delay_fires_the_next_listener() {
    let mut s = IdleScheduler::new(vec![listener(90, "t1", ""), listener(30, "t0", "")]);
    let idle = 12_345;
    let delay = s.next_wake_delay_ms(idle, false);
    assert!(delay >= MIN_WAKE_DELAY_MS);
    assert!(s.update(idle + delay - 1, false).is_empty());
    assert_eq!(commands(&s.update(idle + delay, false)), vec![pair("listener timeout", "t0")]);
}

#[test]
fn sample_below_cycle_start_restarts_the_cycle() {
    let mut s = IdleScheduler::new(vec![listener(60, "dim", "undim")]);
    assert!(s.update(100_000, true).is_empty());
    assert!(s.update(100_000, false).is_empty());
    // The idle time fell: the user was active, and has now been idle,
    // uninhibited, for 60 s.
    assert_eq!(commands(&s.update(60_000, false)), vec![pair("listener timeout", "dim")]);
    assert!(s.has_pending_resumes());
}

#[test]
fn wake_delay_counts_from_zero_below_cycle_start() {
    let mut s = IdleScheduler::new(vec![listener(60, "dim", "undim")]);
    s.update(100_000, true);
    s.update(100_000, false);
    assert_eq!(s.next_wake_delay_ms(100_000, false), 60_000);
    assert_eq!(s.next_wake_delay_ms(10_000, false), 50_000);
}

#[test]
fn inhibited_update_keeps_cycle_start() {
    let mut s = IdleScheduler::new(vec![listener(60, "dim", "undim")]);
    s.update(0, true);
    s.update(100_000, false);
    // Inhibited again; a lower idle time leaves the cycle start alone.
    assert!(s.update(10_000, true).is_empty());
    assert!(!s.has_pending_resumes());
    assert_eq!(s.next_wake_delay_ms(130_000, false), 30_000);
}
