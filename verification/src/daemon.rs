//! The daemon's decisions, one step per event or idle sample.
//!
//! The caller performs the I/O: it hands in each event and each sampled
//! idle time, performs the returned actions in order, and sleeps for the
//! returned delay before sampling again.

use std::collections::HashSet;
use std::time::Duration;

use vstd::prelude::*;
use vstd::string::StringExecFns;

use crate::config::{Config, GeneralConfig};
use crate::error::Error;
use crate::events::{command_view, event_command, event_name, CommandRequest, CommandView, Event};
use crate::idle::{
    after_activity, after_update, duration_from_millis, has_fired, initial_view, millis_duration,
    resume_commands, update_commands, wake_delay, IdleScheduler, SchedulerView,
};

verus! {

broadcast use vstd::std_specs::hash::group_hash_axioms;

/// The delay before the first idle sample, and after each event.
pub const IMMEDIATE_WAKE_DELAY_MS: u64 = 1;

/// The delay between samples when there is no idle clock.
pub const NO_IDLE_CLOCK_DELAY_MS: u64 = 60000;

/// The delay after a failed idle sample.
pub const MAINTENANCE_DELAY_MS: u64 = 5000;

/// Something the caller has to do.
#[derive(Debug)]
pub enum Action {
    /// Execute a command via `sh -c`.
    RunCommand(CommandRequest),
    /// Release the sleep inhibitor lock.
    ReleaseSleepInhibit,
    /// Take a new sleep inhibitor lock.
    AcquireSleepInhibit,
    /// Start watching for physical input.
    StartInputMonitor,
    /// Stop watching for physical input.
    StopInputMonitor,
}

/// An [`Action`] by the characters involved.
pub enum ActionView {
    RunCommand(CommandView),
    ReleaseSleepInhibit,
    AcquireSleepInhibit,
    StartInputMonitor,
    StopInputMonitor,
}

impl View for Action {
    type V = ActionView;

    open spec fn view(&self) -> ActionView {
        match self {
            Action::RunCommand(c) => ActionView::RunCommand(c@),
            Action::ReleaseSleepInhibit => ActionView::ReleaseSleepInhibit,
            Action::AcquireSleepInhibit => ActionView::AcquireSleepInhibit,
            Action::StartInputMonitor => ActionView::StartInputMonitor,
            Action::StopInputMonitor => ActionView::StopInputMonitor,
        }
    }
}

/// The daemon's state: its configuration, the idle scheduler, the active
/// screensaver inhibitions and whether the input monitor runs.
pub struct Daemon {
    general: GeneralConfig,
    scheduler: IdleScheduler,
    inhibitors: HashSet<u32>,
    monitor_active: bool,
}

/// The contents of a [`Daemon`].
pub struct DaemonView {
    pub general: GeneralConfig,
    pub scheduler: SchedulerView,
    /// Cookies of the active screensaver inhibitions.
    pub inhibitors: Set<u32>,
    /// Whether the input monitor runs.
    pub monitor_active: bool,
}

impl View for Daemon {
    type V = DaemonView;

    closed spec fn view(&self) -> DaemonView {
        DaemonView {
            general: self.general,
            scheduler: self.scheduler@,
            inhibitors: self.inhibitors@,
            monitor_active: self.monitor_active,
        }
    }
}

/// Each command as an action.
pub open spec fn run_all(cmds: Seq<CommandView>) -> Seq<ActionView> {
    cmds.map_values(|c: CommandView| ActionView::RunCommand(c))
}

/// The configured command of an event, as an action.
pub open spec fn event_run(e: Event, general: GeneralConfig) -> Seq<ActionView> {
    match event_command(e, general) {
        Some(c) => seq![ActionView::RunCommand(command_view(event_name(e), c@))],
        None => seq![],
    }
}

/// The monitor runs exactly while some listener waits for its resume:
/// start it when one waits and it does not run, stop it when none waits
/// and it runs.
pub open spec fn sync_actions(pending: bool, monitor_active: bool) -> Seq<ActionView> {
    if pending && !monitor_active {
        seq![ActionView::StartInputMonitor]
    } else if !pending && monitor_active {
        seq![ActionView::StopInputMonitor]
    } else {
        seq![]
    }
}

/// The scheduler after an event: physical input ends the idle cycle.
pub open spec fn scheduler_after_event(v: DaemonView, e: Event) -> SchedulerView {
    match e {
        Event::PhysicalInput => after_activity(v.scheduler),
        _ => v.scheduler,
    }
}

/// The active inhibitions after an event.
pub open spec fn inhibitors_after_event(v: DaemonView, e: Event) -> Set<u32> {
    match e {
        Event::ScreenSaverInhibit { cookie, .. } => v.inhibitors.insert(cookie),
        Event::ScreenSaverUnInhibit { cookie, .. } => v.inhibitors.remove(cookie),
        _ => v.inhibitors,
    }
}

/// The state after an event.
pub open spec fn after_event(v: DaemonView, e: Event) -> DaemonView {
    let s = scheduler_after_event(v, e);
    DaemonView {
        general: v.general,
        scheduler: s,
        inhibitors: inhibitors_after_event(v, e),
        monitor_active: has_fired(s.listeners),
    }
}

/// The actions of an event, before the monitor is synchronised, and
/// whether the monitor runs after them.
pub open spec fn event_own_actions(v: DaemonView, e: Event) -> (Seq<ActionView>, bool) {
    match e {
        Event::Sleep { going_to_sleep } => (
            event_run(e, v.general) + if going_to_sleep {
                seq![ActionView::ReleaseSleepInhibit]
            } else {
                seq![ActionView::AcquireSleepInhibit]
            },
            v.monitor_active,
        ),
        Event::PhysicalInput => (
            run_all(resume_commands(v.scheduler.listeners)) + if v.monitor_active {
                seq![ActionView::StopInputMonitor]
            } else {
                seq![]
            },
            false,
        ),
        Event::Lock => (event_run(e, v.general), v.monitor_active),
        Event::Unlock => (event_run(e, v.general), v.monitor_active),
        _ => (seq![], v.monitor_active),
    }
}

/// The actions an event asks for: before sleep, its command and the
/// release of the sleep inhibitor; after sleep, its command and a new
/// sleep inhibitor; on physical input, the resume commands and the end of
/// the input monitor; on lock and unlock, their commands; then the monitor
/// is synchronised with the pending resumes.
pub open spec fn event_actions(v: DaemonView, e: Event) -> Seq<ActionView> {
    let (own, monitor) = event_own_actions(v, e);
    own + sync_actions(has_fired(scheduler_after_event(v, e).listeners), monitor)
}

/// Whether some screensaver inhibition is active.
pub open spec fn inhibited(v: DaemonView) -> bool {
    !v.inhibitors.is_empty()
}

/// The state after an idle sample (`None` when sampling failed).
pub open spec fn after_poll(v: DaemonView, idle_ms: Option<u64>) -> DaemonView {
    match idle_ms {
        Some(ms) => {
            let s = after_update(v.scheduler, ms, inhibited(v));
            DaemonView {
                general: v.general,
                scheduler: s,
                inhibitors: v.inhibitors,
                monitor_active: has_fired(s.listeners),
            }
        },
        None => v,
    }
}

/// The actions of an idle sample: the timeout commands, then the monitor
/// synchronisation.
pub open spec fn poll_actions(v: DaemonView, idle_ms: Option<u64>) -> Seq<ActionView> {
    match idle_ms {
        Some(ms) => run_all(update_commands(v.scheduler, ms, inhibited(v))) + sync_actions(
            has_fired(after_update(v.scheduler, ms, inhibited(v)).listeners),
            v.monitor_active,
        ),
        None => seq![],
    }
}

/// The delay before the next idle sample.
pub open spec fn poll_delay(v: DaemonView, idle_ms: Option<u64>) -> u64 {
    match idle_ms {
        Some(ms) => wake_delay(after_update(v.scheduler, ms, inhibited(v)), ms, inhibited(v)),
        None => MAINTENANCE_DELAY_MS,
    }
}

impl Daemon {
    /// The daemon for a configuration: no inhibition, no input monitor.
    pub fn new(config: Config) -> (d: Self)
        ensures
            d@.general == config.general,
            d@.scheduler == initial_view(config.listener@),
            d@.inhibitors == Set::<u32>::empty(),
            !d@.monitor_active,
            d@.monitor_active == has_fired(d@.scheduler.listeners),
    {
        let Config { general, listener } = config;
        Daemon {
            general,
            scheduler: IdleScheduler::new(listener),
            inhibitors: HashSet::new(),
            monitor_active: false,
        }
    }

    /// Whether the daemon needs an idle clock: only when it has listeners.
    pub fn needs_idle_clock(&self) -> (r: bool)
        ensures
            r == (self@.scheduler.listeners.len() > 0),
    {
        !self.scheduler.is_empty()
    }

    /// The delay before the first idle sample: immediate when there is an
    /// idle clock, a minute otherwise.
    pub fn initial_idle_delay(&self, idle_clock_present: bool) -> (d: Duration)
        ensures
            d == millis_duration(
                if idle_clock_present {
                    IMMEDIATE_WAKE_DELAY_MS
                } else {
                    NO_IDLE_CLOCK_DELAY_MS
                },
            ),
    {
        if idle_clock_present {
            Self::immediate_idle_delay()
        } else {
            duration_from_millis(NO_IDLE_CLOCK_DELAY_MS)
        }
    }

    /// The delay after an event before the next idle sample.
    pub fn immediate_idle_delay() -> (d: Duration)
        ensures
            d == millis_duration(IMMEDIATE_WAKE_DELAY_MS),
    {
        duration_from_millis(IMMEDIATE_WAKE_DELAY_MS)
    }

    /// The delay after a failed idle sample.
    pub fn idle_maintenance_delay() -> (d: Duration)
        ensures
            d == millis_duration(MAINTENANCE_DELAY_MS),
    {
        duration_from_millis(MAINTENANCE_DELAY_MS)
    }

    /// Handles an event (see [`event_actions`]): returns the actions to
    /// perform, in order. Afterwards the input monitor runs exactly while
    /// some listener waits for its resume.
    pub fn handle_event(&mut self, event: &Event) -> (actions: Vec<Action>)
        ensures
            final(self)@ == after_event(old(self)@, *event),
            actions@.map_values(|a: Action| a@) == event_actions(old(self)@, *event),
            final(self)@.monitor_active == has_fired(final(self)@.scheduler.listeners),
    {
        let ghost v0 = self@;
        let mut actions: Vec<Action> = Vec::new();
        match event {
            Event::Sleep { going_to_sleep } => {
                match event.execute(&self.general) {
                    Some(c) => actions.push(Action::RunCommand(c)),
                    None => {},
                }
                if *going_to_sleep {
                    actions.push(Action::ReleaseSleepInhibit);
                } else {
                    actions.push(Action::AcquireSleepInhibit);
                }
            },
            Event::PhysicalInput => {
                let cmds = self.scheduler.handle_user_activity();
                Self::push_commands(&mut actions, cmds);
                if self.monitor_active {
                    actions.push(Action::StopInputMonitor);
                    self.monitor_active = false;
                }
            },
            Event::Lock | Event::Unlock => {
                match event.execute(&self.general) {
                    Some(c) => actions.push(Action::RunCommand(c)),
                    None => {},
                }
            },
            Event::ScreenSaverInhibit { cookie, .. } => {
                self.inhibitors.insert(*cookie);
            },
            Event::ScreenSaverUnInhibit { cookie, .. } => {
                self.inhibitors.remove(cookie);
            },
        }
        proof {
            let (own, monitor) = event_own_actions(v0, *event);
            assert(actions@.map_values(|a: Action| a@) =~= own);
            assert(self.monitor_active == monitor);
            assert(self@.scheduler == scheduler_after_event(v0, *event));
            assert(self@.inhibitors == inhibitors_after_event(v0, *event));
        }
        self.sync_physical_input_monitor(&mut actions);
        actions
    }

    /// Handles an idle sample, `None` when sampling failed: updates the
    /// scheduler with the idle time (paused while some screensaver
    /// inhibition is active), returns the actions to perform and the delay
    /// before the next sample (see [`poll_actions`], [`poll_delay`]).
    pub fn poll_x11(&mut self, idle_ms: Option<u64>) -> (r: (Vec<Action>, Duration))
        ensures
            final(self)@ == after_poll(old(self)@, idle_ms),
            r.0@.map_values(|a: Action| a@) == poll_actions(old(self)@, idle_ms),
            r.1 == millis_duration(poll_delay(old(self)@, idle_ms)),
            old(self)@.monitor_active == has_fired(old(self)@.scheduler.listeners)
                ==> final(self)@.monitor_active == has_fired(final(self)@.scheduler.listeners),
    {
        let mut actions: Vec<Action> = Vec::new();
        match idle_ms {
            Some(ms) => {
                let inhibit_active: bool = !self.inhibitors.is_empty();
                let cmds = self.scheduler.update(ms, inhibit_active);
                Self::push_commands(&mut actions, cmds);
                proof {
                    assert(actions@.map_values(|a: Action| a@) =~= run_all(
                        update_commands(old(self)@.scheduler, ms, inhibit_active),
                    ));
                }
                self.sync_physical_input_monitor(&mut actions);
                let delay = self.scheduler.next_wake_delay(ms, inhibit_active);
                (actions, delay)
            },
            None => (actions, Self::idle_maintenance_delay()),
        }
    }

    fn push_commands(actions: &mut Vec<Action>, cmds: Vec<CommandRequest>)
        ensures
            final(actions)@.map_values(|a: Action| a@) == old(actions)@.map_values(|a: Action| a@)
                + run_all(cmds@.map_values(|c: CommandRequest| c@)),
    {
        let ghost start = actions@.map_values(|a: Action| a@);
        let ghost all = cmds@.map_values(|c: CommandRequest| c@);
        let mut rest = cmds;
        let ghost mut i: int = 0;
        while rest.len() > 0
            invariant
                0 <= i <= all.len(),
                all == cmds@.map_values(|c: CommandRequest| c@),
                rest@ == cmds@.subrange(i, all.len() as int),
                actions@.map_values(|a: Action| a@) == start + run_all(all.take(i)),
            decreases rest.len(),
        {
            let c = rest.remove(0);
            let ghost before = actions@.map_values(|a: Action| a@);
            actions.push(Action::RunCommand(c));
            proof {
                assert(c@ == all[i]);
                assert(actions@.map_values(|a: Action| a@) =~= before.push(
                    ActionView::RunCommand(all[i]),
                ));
                assert(run_all(all.take(i + 1)) =~= run_all(all.take(i)).push(
                    ActionView::RunCommand(all[i]),
                ));
                assert(rest@ =~= cmds@.subrange(i + 1, all.len() as int));
                i = i + 1;
            }
        }
        proof {
            assert(all.take(i) =~= all);
        }
    }

    /// Starts or stops the input monitor so that it runs exactly while some
    /// listener waits for its resume.
    fn sync_physical_input_monitor(&mut self, actions: &mut Vec<Action>)
        ensures
            final(self)@ == (DaemonView {
                monitor_active: has_fired(old(self)@.scheduler.listeners),
                ..old(self)@
            }),
            final(actions)@.map_values(|a: Action| a@) == old(actions)@.map_values(|a: Action| a@)
                + sync_actions(has_fired(old(self)@.scheduler.listeners), old(self)@.monitor_active),
    {
        let should_listen = self.scheduler.has_pending_resumes();
        let ghost before = actions@.map_values(|a: Action| a@);
        if should_listen && !self.monitor_active {
            actions.push(Action::StartInputMonitor);
            self.monitor_active = true;
        } else if !should_listen && self.monitor_active {
            actions.push(Action::StopInputMonitor);
            self.monitor_active = false;
        }
        proof {
            assert(actions@.map_values(|a: Action| a@) =~= before + sync_actions(
                should_listen,
                old(self)@.monitor_active,
            ));
        }
    }
}

/// Why the event loop stops.
#[derive(Debug)]
pub enum LoopExit {
    /// The event channel closed.
    ChannelClosed,
    /// An interrupt (Ctrl+C) asked for a graceful shutdown.
    Interrupted,
    /// A listener task ended without an error.
    ListenerStopped,
    /// A listener task ended with this error.
    ListenerFailed(Error),
    /// A listener task panicked; the text describes the panic.
    ListenerPanicked(String),
}

/// Whether the loop ends successfully: a closed channel and an interrupt
/// are ordinary ends, and a listener that stops is an error.
pub open spec fn exit_is_ok(exit: LoopExit) -> bool {
    exit is ChannelClosed || exit is Interrupted
}

/// The text of the error a stopping listener causes, if it does not carry
/// its own error.
pub open spec fn exit_message(exit: LoopExit) -> Seq<char> {
    match exit {
        LoopExit::ListenerStopped => "A listener stopped unexpectedly"@,
        LoopExit::ListenerPanicked(msg) => "A listener task panicked: "@ + msg@,
        _ => seq![],
    }
}

/// How the event loop ends: the sleep inhibitor is released on every exit;
/// the loop's result is `Ok` on a closed channel or an interrupt, the
/// listener's own error when it failed, and a channel error when a
/// listener stopped or panicked.
pub fn shutdown(exit: LoopExit) -> (r: (Vec<Action>, Result<(), Error>))
    ensures
        r.0@.map_values(|a: Action| a@) == seq![ActionView::ReleaseSleepInhibit],
        r.1 is Ok <==> exit_is_ok(exit),
        exit matches LoopExit::ListenerFailed(e) ==> r.1 == Err::<(), Error>(e),
        exit is ListenerStopped || exit is ListenerPanicked ==> (r.1 matches Err(Error::Channel(m))
            && m@ == exit_message(exit)),
{
    let mut actions: Vec<Action> = Vec::new();
    actions.push(Action::ReleaseSleepInhibit);
    assert(actions@.map_values(|a: Action| a@) =~= seq![ActionView::ReleaseSleepInhibit]);
    let result = match exit {
        LoopExit::ChannelClosed => Ok(()),
        LoopExit::Interrupted => Ok(()),
        LoopExit::ListenerStopped => Err(
            Error::Channel(String::from_str("A listener stopped unexpectedly")),
        ),
        LoopExit::ListenerFailed(e) => Err(e),
        LoopExit::ListenerPanicked(msg) => Err(
            Error::Channel(String::from_str("A listener task panicked: ").concat(msg.as_str())),
        ),
    };
    (actions, result)
}

// Laws of the daemon.

/// The input monitor runs exactly while some listener waits for its
/// resume: every event establishes this, and idle samples keep it.
pub proof fn lemma_monitor_tracks_resumes(v: DaemonView, e: Event, idle_ms: Option<u64>)
    ensures
        after_event(v, e).monitor_active == has_fired(after_event(v, e).scheduler.listeners),
        v.monitor_active == has_fired(v.scheduler.listeners) ==> after_poll(v, idle_ms).monitor_active
            == has_fired(after_poll(v, idle_ms).scheduler.listeners),
{
}

/// Before sleep the sleep inhibitor is always released, and after sleep a
/// new one is always taken, whether or not a command is configured.
pub proof fn lemma_sleep_inhibitor(v: DaemonView)
    ensures
        event_actions(v, Event::Sleep { going_to_sleep: true }).contains(
            ActionView::ReleaseSleepInhibit,
        ),
        event_actions(v, Event::Sleep { going_to_sleep: false }).contains(
            ActionView::AcquireSleepInhibit,
        ),
{
    let before = Event::Sleep { going_to_sleep: true };
    let after = Event::Sleep { going_to_sleep: false };
    let r = event_run(before, v.general);
    assert(event_actions(v, before)[r.len() as int] == ActionView::ReleaseSleepInhibit);
    let r2 = event_run(after, v.general);
    assert(event_actions(v, after)[r2.len() as int] == ActionView::AcquireSleepInhibit);
}

/// While some application inhibits the screensaver (the set of active
/// inhibitor cookies is not empty), an idle sample runs no command, fires
/// no listener and leaves the start of the idle cycle alone, whatever the
/// listeners' fired state and the input monitor.
pub proof fn lemma_inhibited_poll_runs_nothing(v: DaemonView, idle_ms: u64)
    requires
        !v.inhibitors.is_empty(),
    ensures
        after_poll(v, Some(idle_ms)).scheduler.baseline_ms == v.scheduler.baseline_ms,
        after_poll(v, Some(idle_ms)).inhibitors == v.inhibitors,
        forall|i: int|
            0 <= i < poll_actions(v, Some(idle_ms)).len() ==> !(#[trigger] poll_actions(
                v,
                Some(idle_ms),
            )[i] is RunCommand),
        after_poll(v, Some(idle_ms)).scheduler.listeners == v.scheduler.listeners,
{
    assert(update_commands(v.scheduler, idle_ms, true) =~= Seq::<CommandView>::empty());
    assert(run_all(Seq::<CommandView>::empty()) =~= Seq::<ActionView>::empty());
}

/// An inhibition followed by the uninhibition of its cookie leaves the
/// active inhibitions as they were, when the cookie was not active before.
pub proof fn lemma_inhibit_uninhibit(
    v: DaemonView,
    path: &'static str,
    application: String,
    reason: String,
    cookie: u32,
    details: Option<(String, String)>,
)
    requires
        !v.inhibitors.contains(cookie),
    ensures
        after_event(
            after_event(v, Event::ScreenSaverInhibit { path, application, reason, cookie }),
            Event::ScreenSaverUnInhibit { path, cookie, details },
        ).inhibitors == v.inhibitors,
{
    let w = after_event(v, Event::ScreenSaverInhibit { path, application, reason, cookie });
    assert(after_event(w, Event::ScreenSaverUnInhibit { path, cookie, details }).inhibitors
        =~= v.inhibitors);
}

/// An inhibit event records its cookie among the active inhibitions, next
/// to any others; an uninhibit event removes its own cookie only; no other
/// event changes them.
pub proof fn lemma_inhibitions_tracked(v: DaemonView, e: Event)
    ensures
        e matches Event::ScreenSaverInhibit { cookie, .. } ==> after_event(v, e).inhibitors
            == v.inhibitors.insert(cookie) && after_event(v, e).inhibitors.contains(cookie),
        e matches Event::ScreenSaverUnInhibit { cookie, .. } ==> after_event(v, e).inhibitors
            == v.inhibitors.remove(cookie),
        !(e is ScreenSaverInhibit) && !(e is ScreenSaverUnInhibit) ==> after_event(v, e).inhibitors
            == v.inhibitors,
{
}

/// After an inhibit event, idle samples run nothing until its cookie is
/// released: whatever inhibitions were active before, the next sample
/// fires no listener and runs no command.
pub proof fn lemma_inhibit_event_pauses(v: DaemonView, e: Event, idle_ms: u64)
    requires
        e is ScreenSaverInhibit,
    ensures
        ({
            let w = after_event(v, e);
            &&& after_poll(w, Some(idle_ms)).scheduler.listeners == w.scheduler.listeners
            &&& forall|i: int|
                0 <= i < poll_actions(w, Some(idle_ms)).len() ==> !(#[trigger] poll_actions(
                    w,
                    Some(idle_ms),
                )[i] is RunCommand)
        }),
{
    lemma_inhibitions_tracked(v, e);
    let w = after_event(v, e);
    let c = e->ScreenSaverInhibit_cookie;
    assert(w.inhibitors.contains(c));
    lemma_inhibited_poll_runs_nothing(w, idle_ms);
}

/// The run action of a configured command under `name`, or nothing.
pub open spec fn configured_run(name: Seq<char>, cmd: Option<String>) -> Seq<ActionView> {
    match cmd {
        Some(c) => seq![ActionView::RunCommand(CommandView { name, command: c@ })],
        None => seq![],
    }
}

/// Lock and unlock events only run their configured command: in a state
/// where the input monitor runs exactly while a resume is pending (every
/// state the daemon reaches), they leave the idle scheduler, the
/// inhibitions and the input monitor as they were, and their actions are
/// exactly the lock or unlock command, if one is configured.
pub proof fn lemma_lock_unlock_only_run_command(v: DaemonView)
    requires
        v.monitor_active == has_fired(v.scheduler.listeners),
    ensures
        after_event(v, Event::Lock) == v,
        after_event(v, Event::Unlock) == v,
        event_actions(v, Event::Lock) == configured_run("lock"@, v.general.lock_cmd),
        event_actions(v, Event::Unlock) == configured_run("unlock"@, v.general.unlock_cmd),
{
    assert(event_actions(v, Event::Lock) =~= configured_run("lock"@, v.general.lock_cmd));
    assert(event_actions(v, Event::Unlock) =~= configured_run("unlock"@, v.general.unlock_cmd));
}

/// Every state the daemon reaches has the input monitor running exactly
/// while a resume is pending: the initial state, and every state after an
/// event or an idle sample from such a state.
pub proof fn lemma_monitor_invariant(v: DaemonView, e: Event, idle_ms: Option<u64>)
    requires
        v.monitor_active == has_fired(v.scheduler.listeners),
    ensures
        after_event(v, e).monitor_active == has_fired(after_event(v, e).scheduler.listeners),
        after_poll(v, idle_ms).monitor_active == has_fired(after_poll(v, idle_ms).scheduler.listeners),
{
}

} // verus!
