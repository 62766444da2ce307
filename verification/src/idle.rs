//! The idle scheduler: which listeners time out, which resume, and when the
//! idle time should be sampled next.
//!
//! Listeners are kept in the order of their timeouts. Each fires at most
//! once per idle cycle; physical input ends the cycle and runs the resume
//! commands of the listeners that fired, the most recently due first. While
//! the screensaver is inhibited nothing fires, and when the inhibition ends
//! the idle time measured at that moment becomes the new zero of the timer,
//! so the timer only pauses. An idle time below the start of the cycle means
//! the user has been active since, and the cycle restarts at zero.

use std::time::Duration;

use vstd::prelude::*;

use crate::config::ListenerConfig;
use crate::events::{command_view, run_optional_command, CommandRequest, CommandView};
use crate::text::is_blank;

verus! {

const MILLIS_PER_SECOND: u64 = 1000;

/// The shortest delay before the idle time is sampled again.
pub const MIN_WAKE_DELAY_MS: u64 = 50;

/// The delay used when no listener is waiting for a timeout.
pub const IDLE_MAINTENANCE_DELAY_MS: u64 = 5000;

struct ListenerState {
    config: ListenerConfig,
    timeout_ms: u64,
    fired: bool,
}

/// A listener as the scheduler sees it.
pub struct ListenerView {
    pub timeout_ms: u64,
    pub on_timeout: Seq<char>,
    pub on_resume: Seq<char>,
    pub fired: bool,
}

/// The state of an [`IdleScheduler`].
pub struct SchedulerView {
    /// The listeners, in timeout order.
    pub listeners: Seq<ListenerView>,
    /// The idle time at which the current idle cycle started.
    pub baseline_ms: u64,
    /// Whether the screensaver was inhibited at the last update.
    pub inhibit_active: bool,
}

/// Idle tracking for a set of listeners.
pub struct IdleScheduler {
    listeners: Vec<ListenerState>,
    baseline_ms: u64,
    inhibit_active: bool,
}

spec fn state_view(l: ListenerState) -> ListenerView {
    ListenerView {
        timeout_ms: l.timeout_ms,
        on_timeout: l.config.on_timeout@,
        on_resume: l.config.on_resume@,
        fired: l.fired,
    }
}

impl View for IdleScheduler {
    type V = SchedulerView;

    closed spec fn view(&self) -> SchedulerView {
        SchedulerView {
            listeners: self.listeners@.map_values(|l: ListenerState| state_view(l)),
            baseline_ms: self.baseline_ms,
            inhibit_active: self.inhibit_active,
        }
    }
}

/// `seconds` in milliseconds, saturating at `u64::MAX`.
pub open spec fn timeout_millis(seconds: u64) -> u64 {
    if seconds * 1000 <= u64::MAX {
        (seconds * 1000) as u64
    } else {
        u64::MAX
    }
}

/// A configured listener before it has fired.
pub open spec fn listener_of(c: ListenerConfig) -> ListenerView {
    ListenerView {
        timeout_ms: timeout_millis(c.timeout),
        on_timeout: c.on_timeout@,
        on_resume: c.on_resume@,
        fired: false,
    }
}

/// Where a listener with timeout `t` goes into `s`: after the last
/// listener whose timeout is not greater than `t`.
pub open spec fn insert_pos(s: Seq<ListenerView>, t: u64) -> nat
    decreases s.len(),
{
    if s.len() == 0 {
        0
    } else if s.last().timeout_ms <= t {
        s.len()
    } else {
        insert_pos(s.drop_last(), t)
    }
}

/// `s` with `x` inserted by timeout, after the listeners of equal timeout.
pub open spec fn insert_by_timeout(s: Seq<ListenerView>, x: ListenerView) -> Seq<ListenerView> {
    s.insert(insert_pos(s, x.timeout_ms) as int, x)
}

/// The listeners stably sorted by timeout: ordered by timeout, and in
/// their configured order where timeouts are equal.
pub open spec fn sort_by_timeout(s: Seq<ListenerView>) -> Seq<ListenerView>
    decreases s.len(),
{
    if s.len() == 0 {
        s
    } else {
        insert_by_timeout(sort_by_timeout(s.drop_last()), s.last())
    }
}

/// The scheduler made from the configured listeners.
pub open spec fn initial_view(configs: Seq<ListenerConfig>) -> SchedulerView {
    SchedulerView {
        listeners: sort_by_timeout(configs.map_values(|c: ListenerConfig| listener_of(c))),
        baseline_ms: 0,
        inhibit_active: false,
    }
}

/// The start of the idle cycle as a sample of `idle_ms` sees it: an idle
/// time below the cycle start means the user has been active since, so the
/// cycle restarts at zero.
pub open spec fn cycle_start(baseline_ms: u64, idle_ms: u64) -> u64 {
    if idle_ms < baseline_ms {
        0
    } else {
        baseline_ms
    }
}

/// The idle time counted in the current cycle: the time of inactivity
/// outside inhibitions.
pub open spec fn effective_idle(idle_ms: u64, baseline_ms: u64) -> u64 {
    (idle_ms - cycle_start(baseline_ms, idle_ms)) as u64
}

/// `l` with its fired flag set to `fired`.
pub open spec fn with_fired(l: ListenerView, fired: bool) -> ListenerView {
    ListenerView { timeout_ms: l.timeout_ms, on_timeout: l.on_timeout, on_resume: l.on_resume, fired }
}

/// A listener is due when it has not fired and the effective idle time
/// has reached its timeout.
pub open spec fn is_due(l: ListenerView, effective_ms: u64) -> bool {
    !l.fired && l.timeout_ms <= effective_ms
}

/// Every listener whose timeout has been reached is marked fired.
pub open spec fn fire_due(ls: Seq<ListenerView>, effective_ms: u64) -> Seq<ListenerView> {
    Seq::new(ls.len(), |i: int| with_fired(ls[i], ls[i].fired || ls[i].timeout_ms <= effective_ms))
}

/// The timeout command of `l` if it is due and its command is not blank: a
/// blank command (empty or whitespace only) runs nothing.
pub open spec fn timeout_command(l: ListenerView, effective_ms: u64) -> Seq<CommandView> {
    if is_due(l, effective_ms) && !is_blank(l.on_timeout) {
        seq![command_view("listener timeout"@, l.on_timeout)]
    } else {
        seq![]
    }
}

/// The timeout commands of the due listeners, in listener order.
pub open spec fn timeout_commands(ls: Seq<ListenerView>, effective_ms: u64) -> Seq<CommandView>
    decreases ls.len(),
{
    if ls.len() == 0 {
        seq![]
    } else {
        timeout_commands(ls.drop_last(), effective_ms) + timeout_command(ls.last(), effective_ms)
    }
}

/// The start of the idle cycle after an update. While inhibited it stays
/// as it was: the timer is paused. An inhibition that ends restarts the
/// cycle at the current idle time, and an uninhibited idle time below the
/// cycle start restarts it at zero.
pub open spec fn baseline_after(v: SchedulerView, idle_ms: u64, inhibit_active: bool) -> u64 {
    if inhibit_active {
        v.baseline_ms
    } else {
        cycle_start(
            if v.inhibit_active {
                idle_ms
            } else {
                v.baseline_ms
            },
            idle_ms,
        )
    }
}

/// The state after an update with the given idle time and inhibition.
pub open spec fn after_update(v: SchedulerView, idle_ms: u64, inhibit_active: bool) -> SchedulerView {
    let baseline = baseline_after(v, idle_ms, inhibit_active);
    SchedulerView {
        listeners: if inhibit_active {
            v.listeners
        } else {
            fire_due(v.listeners, effective_idle(idle_ms, baseline))
        },
        baseline_ms: baseline,
        inhibit_active,
    }
}

/// The commands an update runs.
pub open spec fn update_commands(v: SchedulerView, idle_ms: u64, inhibit_active: bool) -> Seq<
    CommandView,
> {
    if inhibit_active {
        seq![]
    } else {
        timeout_commands(
            v.listeners,
            effective_idle(idle_ms, baseline_after(v, idle_ms, inhibit_active)),
        )
    }
}

/// Whether some listener has fired and waits for its resume.
pub open spec fn has_fired(ls: Seq<ListenerView>) -> bool {
    exists|i: int| 0 <= i < ls.len() && #[trigger] ls[i].fired
}

/// The resume command of `l` if it has fired and its command is not blank:
/// a blank command (empty or whitespace only) runs nothing.
pub open spec fn resume_command(l: ListenerView) -> Seq<CommandView> {
    if l.fired && !is_blank(l.on_resume) {
        seq![command_view("listener resume"@, l.on_resume)]
    } else {
        seq![]
    }
}

/// The resume commands of the fired listeners, last listener first.
pub open spec fn resume_commands(ls: Seq<ListenerView>) -> Seq<CommandView>
    decreases ls.len(),
{
    if ls.len() == 0 {
        seq![]
    } else {
        resume_commands(ls.drop_first()) + resume_command(ls.first())
    }
}

/// The state after user activity: nothing fired, a new cycle from zero.
pub open spec fn after_activity(v: SchedulerView) -> SchedulerView {
    SchedulerView {
        listeners: Seq::new(v.listeners.len(), |i: int| with_fired(v.listeners[i], false)),
        baseline_ms: 0,
        inhibit_active: v.inhibit_active,
    }
}

/// The smallest timeout among the listeners that have not fired.
pub open spec fn next_unfired_timeout(ls: Seq<ListenerView>) -> Option<u64>
    decreases ls.len(),
{
    if ls.len() == 0 {
        None
    } else {
        let rest = next_unfired_timeout(ls.drop_last());
        let l = ls.last();
        if l.fired {
            rest
        } else {
            match rest {
                Some(t) => Some(if t <= l.timeout_ms { t } else { l.timeout_ms }),
                None => Some(l.timeout_ms),
            }
        }
    }
}

/// How long to wait before sampling the idle time again: until the next
/// listener is due, but at least `MIN_WAKE_DELAY_MS`; the maintenance
/// delay when there are no listeners, when inhibited, or when every
/// listener has fired.
pub open spec fn wake_delay(v: SchedulerView, idle_ms: u64, inhibit_active: bool) -> u64 {
    if v.listeners.len() == 0 || inhibit_active {
        IDLE_MAINTENANCE_DELAY_MS
    } else {
        let effective = effective_idle(idle_ms, v.baseline_ms);
        match next_unfired_timeout(v.listeners) {
            Some(t) => if t > effective {
                if t - effective >= MIN_WAKE_DELAY_MS {
                    (t - effective) as u64
                } else {
                    MIN_WAKE_DELAY_MS
                }
            } else {
                MIN_WAKE_DELAY_MS
            },
            None => IDLE_MAINTENANCE_DELAY_MS,
        }
    }
}

/// The `Duration` of `ms` milliseconds.
pub uninterp spec fn millis_duration(ms: u64) -> Duration;

/// Calls `Duration::from_millis`, whose result depends on `ms` alone and is
/// named `millis_duration(ms)`.
#[verifier::external_body]
pub(crate) fn duration_from_millis(ms: u64) -> (d: Duration)
    ensures
        d == millis_duration(ms),
{
    Duration::from_millis(ms)
}

impl IdleScheduler {
    /// The listeners are always held in timeout order.
    #[verifier::type_invariant]
    spec fn listeners_in_order(self) -> bool {
        sorted_by_timeout(self@.listeners)
    }

    /// A scheduler for the configured listeners, ordered by timeout (stably:
    /// listeners of equal timeout keep their configured order), none fired,
    /// not inhibited, with the idle cycle starting at zero.
    pub fn new(listeners: Vec<ListenerConfig>) -> (s: Self)
        ensures
            s@ == initial_view(listeners@),
            sorted_by_timeout(s@.listeners),
            !has_fired(s@.listeners),
    {
        let ghost configs = listeners@.map_values(|c: ListenerConfig| listener_of(c));
        let mut rest = listeners;
        let mut sorted: Vec<ListenerState> = Vec::new();
        let ghost n = configs.len();
        let ghost mut i: int = 0;
        while rest.len() > 0
            invariant
                0 <= i <= n,
                n == configs.len(),
                configs == listeners@.map_values(|c: ListenerConfig| listener_of(c)),
                rest@ == listeners@.subrange(i, n as int),
                sorted@.map_values(|l: ListenerState| state_view(l)) == sort_by_timeout(
                    configs.take(i),
                ),
                forall|j: int| 0 <= j < sorted@.len() ==> !(#[trigger] sorted@[j]).fired,
            decreases rest.len(),
        {
            let config = rest.remove(0);
            let timeout_ms: u64 = match config.timeout.checked_mul(MILLIS_PER_SECOND) {
                Some(ms) => ms,
                None => u64::MAX,
            };
            let state = ListenerState { config, timeout_ms, fired: false };
            proof {
                assert(state_view(state) == configs[i]);
            }
            let pos: usize = Self::insert_position(&sorted, timeout_ms);
            let ghost before = sorted@.map_values(|l: ListenerState| state_view(l));
            sorted.insert(pos, state);
            proof {
                assert(sorted@.map_values(|l: ListenerState| state_view(l)) =~= before.insert(
                    pos as int,
                    configs[i],
                ));
                assert(configs.take(i + 1).drop_last() =~= configs.take(i));
                assert(configs.take(i + 1).last() == configs[i]);
                assert(rest@ =~= listeners@.subrange(i + 1, n as int));
                i = i + 1;
            }
        }
        proof {
            assert(configs.take(i) =~= configs);
            lemma_sort_by_timeout(configs);
            let sv = sorted@.map_values(|l: ListenerState| state_view(l));
            assert forall|j: int| 0 <= j < sv.len() implies !(#[trigger] sv[j]).fired by {
                assert(!sorted@[j].fired);
            }
        }
        IdleScheduler { listeners: sorted, baseline_ms: 0, inhibit_active: false }
    }

    /// Whether there are no listeners.
    pub fn is_empty(&self) -> (r: bool)
        ensures
            r == (self@.listeners.len() == 0),
    {
        self.listeners.len() == 0
    }

    /// Takes the current idle time and whether the screensaver is
    /// inhibited. Unless inhibited, every listener that has not fired and
    /// whose timeout the idle time (counted from the start of the idle
    /// cycle) has reached fires; the timeout commands of those listeners
    /// are returned, in listener order. A blank timeout command (empty or
    /// whitespace only) runs nothing, though its listener still fires.
    /// While inhibited, nothing fires and the cycle start stays as it was.
    /// When an inhibition ends, the idle cycle restarts at `idle_ms`, so
    /// the timer is paused while inhibited; an uninhibited idle time below
    /// the cycle start means the user has been active since, and the cycle
    /// restarts at zero.
    pub fn update(&mut self, idle_ms: u64, inhibit_active: bool) -> (cmds: Vec<CommandRequest>)
        ensures
            final(self)@ == after_update(old(self)@, idle_ms, inhibit_active),
            sorted_by_timeout(final(self)@.listeners),
            cmds@.map_values(|c: CommandRequest| c@) == update_commands(
                old(self)@,
                idle_ms,
                inhibit_active,
            ),
    {
        proof {
            use_type_invariant(&*self);
        }
        let ghost v0 = self@;
        let mut cmds: Vec<CommandRequest> = Vec::new();
        if self.inhibit_active && !inhibit_active {
            self.baseline_ms = idle_ms;
        }
        if !inhibit_active && idle_ms < self.baseline_ms {
            self.baseline_ms = 0;
        }
        self.inhibit_active = inhibit_active;
        if !self.inhibit_active {
            let effective_ms: u64 = idle_ms - self.baseline_ms;
            let mut ls: Vec<ListenerState> = Vec::new();
            std::mem::swap(&mut ls, &mut self.listeners);
            let ghost old_ls = ls@;
            let n: usize = ls.len();
            let mut i: usize = 0;
            while i < n
                invariant
                    n == ls@.len(),
                    n == old_ls.len(),
                    i <= n,
                    v0.listeners == old_ls.map_values(|l: ListenerState| state_view(l)),
                    forall|j: int|
                        0 <= j < n ==> {
                            &&& (#[trigger] ls@[j]).config == old_ls[j].config
                            &&& ls@[j].timeout_ms == old_ls[j].timeout_ms
                            &&& ls@[j].fired == if j < i {
                                old_ls[j].fired || old_ls[j].timeout_ms <= effective_ms
                            } else {
                                old_ls[j].fired
                            }
                        },
                    cmds@.map_values(|c: CommandRequest| c@) == timeout_commands(
                        v0.listeners.take(i as int),
                        effective_ms,
                    ),
                decreases n - i,
            {
                let ghost before = cmds@.map_values(|c: CommandRequest| c@);
                proof {
                    assert(v0.listeners.take(i + 1).drop_last() =~= v0.listeners.take(i as int));
                    assert(v0.listeners.take(i + 1).last() == state_view(old_ls[i as int]));
                }
                if !ls[i].fired && effective_ms >= ls[i].timeout_ms {
                    let cmd = run_optional_command("listener timeout", ls[i].config.on_timeout.as_str());
                    match cmd {
                        Some(c) => {
                            cmds.push(c);
                        },
                        None => {},
                    }
                    ls[i].fired = true;
                }
                proof {
                    assert(cmds@.map_values(|c: CommandRequest| c@) =~= before + timeout_command(
                        state_view(old_ls[i as int]),
                        effective_ms,
                    ));
                }
                i = i + 1;
            }
            proof {
                assert(v0.listeners.take(n as int) =~= v0.listeners);
                assert(ls@.map_values(|l: ListenerState| state_view(l)) =~= fire_due(
                    v0.listeners,
                    effective_ms,
                ));
                lemma_order_kept(v0, idle_ms, inhibit_active);
            }
            self.listeners = ls;
        }
        cmds
    }

    /// Whether some listener has fired and waits for the user to return.
    pub fn has_pending_resumes(&self) -> (r: bool)
        ensures
            r == has_fired(self@.listeners),
    {
        let n: usize = self.listeners.len();
        let mut i: usize = 0;
        while i < n
            invariant
                n == self.listeners@.len(),
                i <= n,
                forall|j: int| 0 <= j < i ==> !(#[trigger] self.listeners@[j]).fired,
            decreases n - i,
        {
            if self.listeners[i].fired {
                assert(self@.listeners[i as int].fired);
                return true;
            }
            i = i + 1;
        }
        proof {
            assert forall|j: int| 0 <= j < self@.listeners.len() implies !(
            #[trigger] self@.listeners[j]).fired by {
                assert(self@.listeners[j] == state_view(self.listeners@[j]));
            }
        }
        false
    }

    /// Physical input ends the idle cycle: the resume commands of the
    /// listeners that fired are returned, the most recently due listener
    /// first (a blank resume command runs nothing); no listener remains
    /// fired and the next cycle starts at zero.
    pub fn handle_user_activity(&mut self) -> (cmds: Vec<CommandRequest>)
        ensures
            final(self)@ == after_activity(old(self)@),
            sorted_by_timeout(final(self)@.listeners),
            cmds@.map_values(|c: CommandRequest| c@) == resume_commands(old(self)@.listeners),
    {
        let cmds = self.run_resumes();
        proof {
            use_type_invariant(&*self);
        }
        self.baseline_ms = 0;
        cmds
    }

    fn run_resumes(&mut self) -> (cmds: Vec<CommandRequest>)
        ensures
            final(self)@ == (SchedulerView {
                listeners: after_activity(old(self)@).listeners,
                ..old(self)@
            }),
            cmds@.map_values(|c: CommandRequest| c@) == resume_commands(old(self)@.listeners),
    {
        proof {
            use_type_invariant(&*self);
        }
        let ghost v0 = self@;
        let mut ls: Vec<ListenerState> = Vec::new();
        std::mem::swap(&mut ls, &mut self.listeners);
        let ghost old_ls = ls@;
        let mut cmds: Vec<CommandRequest> = Vec::new();
        let n: usize = ls.len();
        let mut i: usize = n;
        proof {
            assert(v0.listeners.subrange(n as int, n as int) =~= Seq::<ListenerView>::empty());
        }
        while i > 0
            invariant
                n == ls@.len(),
                n == old_ls.len(),
                i <= n,
                v0.listeners == old_ls.map_values(|l: ListenerState| state_view(l)),
                forall|j: int|
                    0 <= j < n ==> {
                        &&& (#[trigger] ls@[j]).config == old_ls[j].config
                        &&& ls@[j].timeout_ms == old_ls[j].timeout_ms
                        &&& ls@[j].fired == if j >= i {
                            false
                        } else {
                            old_ls[j].fired
                        }
                    },
                cmds@.map_values(|c: CommandRequest| c@) == resume_commands(
                    v0.listeners.subrange(i as int, n as int),
                ),
            decreases i,
        {
            i = i - 1;
            let ghost before = cmds@.map_values(|c: CommandRequest| c@);
            proof {
                assert(v0.listeners.subrange(i as int, n as int).drop_first() =~= v0.listeners.subrange(
                    i + 1,
                    n as int,
                ));
                assert(v0.listeners.subrange(i as int, n as int).first() == state_view(
                    old_ls[i as int],
                ));
            }
            if ls[i].fired {
                let cmd = run_optional_command("listener resume", ls[i].config.on_resume.as_str());
                match cmd {
                    Some(c) => {
                        cmds.push(c);
                    },
                    None => {},
                }
                ls[i].fired = false;
            }
            proof {
                assert(cmds@.map_values(|c: CommandRequest| c@) =~= before + resume_command(
                    state_view(old_ls[i as int]),
                ));
            }
        }
        proof {
            assert(v0.listeners.subrange(0, n as int) =~= v0.listeners);
            assert(ls@.map_values(|l: ListenerState| state_view(l)) =~= after_activity(v0).listeners);
            lemma_order_kept(v0, 0, false);
        }
        self.listeners = ls;
        cmds
    }

    /// How many milliseconds to wait before sampling the idle time again
    /// (see [`wake_delay`]).
    pub fn next_wake_delay_ms(&self, idle_ms: u64, inhibit_active: bool) -> (ms: u64)
        ensures
            ms == wake_delay(self@, idle_ms, inhibit_active),
    {
        if self.listeners.len() == 0 {
            return IDLE_MAINTENANCE_DELAY_MS;
        }
        if inhibit_active {
            return IDLE_MAINTENANCE_DELAY_MS;
        }
        let effective_ms: u64 = if idle_ms < self.baseline_ms {
            idle_ms
        } else {
            idle_ms - self.baseline_ms
        };
        let ghost v = self@.listeners;
        let n: usize = self.listeners.len();
        let mut next: Option<u64> = None;
        let mut i: usize = 0;
        while i < n
            invariant
                n == self.listeners@.len(),
                i <= n,
                v == self@.listeners,
                next == next_unfired_timeout(v.take(i as int)),
            decreases n - i,
        {
            proof {
                assert(v.take(i + 1).drop_last() =~= v.take(i as int));
                assert(v.take(i + 1).last() == state_view(self.listeners@[i as int]));
            }
            if !self.listeners[i].fired {
                let t: u64 = self.listeners[i].timeout_ms;
                next = match next {
                    Some(best) => Some(if best <= t { best } else { t }),
                    None => Some(t),
                };
            }
            i = i + 1;
        }
        proof {
            assert(v.take(n as int) =~= v);
        }
        match next {
            Some(timeout_ms) => if timeout_ms > effective_ms {
                let remaining: u64 = timeout_ms - effective_ms;
                if remaining >= MIN_WAKE_DELAY_MS {
                    remaining
                } else {
                    MIN_WAKE_DELAY_MS
                }
            } else {
                MIN_WAKE_DELAY_MS
            },
            None => IDLE_MAINTENANCE_DELAY_MS,
        }
    }

    /// How long to wait before sampling the idle time again: the
    /// `Duration` of [`IdleScheduler::next_wake_delay_ms`].
    pub fn next_wake_delay(&self, idle_ms: u64, inhibit_active: bool) -> (d: Duration)
        ensures
            d == millis_duration(wake_delay(self@, idle_ms, inhibit_active)),
    {
        duration_from_millis(self.next_wake_delay_ms(idle_ms, inhibit_active))
    }

    /// The position at which a listener with timeout `t` is inserted into
    /// `sorted`: after every listener from the end whose timeout exceeds `t`.
    fn insert_position(sorted: &Vec<ListenerState>, t: u64) -> (pos: usize)
        ensures
            pos == insert_pos(sorted@.map_values(|l: ListenerState| state_view(l)), t),
            pos <= sorted@.len(),
    {
        let ghost v = sorted@.map_values(|l: ListenerState| state_view(l));
        let mut j: usize = sorted.len();
        assert(v.take(j as int) =~= v);
        while j > 0 && sorted[j - 1].timeout_ms > t
            invariant
                j <= sorted@.len(),
                v == sorted@.map_values(|l: ListenerState| state_view(l)),
                insert_pos(v, t) == insert_pos(v.take(j as int), t),
            decreases j,
        {
            proof {
                assert(v.take(j as int).drop_last() =~= v.take(j - 1));
            }
            j = j - 1;
        }
        j
    }
}

// Laws of the scheduler.

/// The listeners are in non-decreasing timeout order.
pub open spec fn sorted_by_timeout(s: Seq<ListenerView>) -> bool {
    forall|i: int, j: int| 0 <= i < j < s.len() ==> s[i].timeout_ms <= s[j].timeout_ms
}

/// Listeners whose timeout is `t`.
pub open spec fn has_timeout(t: u64) -> spec_fn(ListenerView) -> bool {
    |l: ListenerView| l.timeout_ms == t
}

proof fn lemma_insert_pos(s: Seq<ListenerView>, t: u64)
    ensures
        insert_pos(s, t) <= s.len(),
        forall|k: int| insert_pos(s, t) <= k < s.len() ==> s[k].timeout_ms > t,
        insert_pos(s, t) > 0 ==> s[insert_pos(s, t) - 1].timeout_ms <= t,
    decreases s.len(),
{
    if s.len() > 0 && s.last().timeout_ms > t {
        let rest = s.drop_last();
        lemma_insert_pos(rest, t);
        assert forall|k: int| insert_pos(s, t) <= k < s.len() implies s[k].timeout_ms > t by {
            if k < rest.len() {
                assert(s[k] == rest[k]);
            }
        }
    }
}

/// The scheduler's listeners are the configured ones, each exactly once,
/// in timeout order.
pub proof fn lemma_sort_by_timeout(s: Seq<ListenerView>)
    ensures
        sorted_by_timeout(sort_by_timeout(s)),
        sort_by_timeout(s).to_multiset() == s.to_multiset(),
        sort_by_timeout(s).len() == s.len(),
    decreases s.len(),
{
    broadcast use vstd::seq_lib::to_multiset_insert, vstd::seq_lib::to_multiset_build;

    if s.len() > 0 {
        let rest = s.drop_last();
        let x = s.last();
        lemma_sort_by_timeout(rest);
        let r = sort_by_timeout(rest);
        let p = insert_pos(r, x.timeout_ms) as int;
        lemma_insert_pos(r, x.timeout_ms);
        let q = r.insert(p, x);
        assert forall|i: int, j: int| 0 <= i < j < q.len() implies q[i].timeout_ms
            <= q[j].timeout_ms by {
            if j < p {
            } else if j == p {
                if i < p - 1 {
                    assert(r[i].timeout_ms <= r[p - 1].timeout_ms);
                }
            } else if i < p {
                assert(r[i].timeout_ms <= r[j - 1].timeout_ms);
            } else if i == p {
            } else {
                assert(r[i - 1].timeout_ms <= r[j - 1].timeout_ms);
            }
        }
        assert(s =~= rest.push(x));
    }
}

proof fn lemma_filter_none(s: Seq<ListenerView>, t: u64)
    requires
        forall|k: int| 0 <= k < s.len() ==> s[k].timeout_ms > t,
    ensures
        s.filter(has_timeout(t)) == Seq::<ListenerView>::empty(),
    decreases s.len(),
{
    reveal_with_fuel(Seq::filter, 1);
    if s.len() > 0 {
        lemma_filter_none(s.drop_last(), t);
    }
}

/// The order is stable: the listeners of any one timeout keep the order in
/// which they were configured.
pub proof fn lemma_sort_by_timeout_stable(s: Seq<ListenerView>, t: u64)
    ensures
        sort_by_timeout(s).filter(has_timeout(t)) == s.filter(has_timeout(t)),
    decreases s.len(),
{
    reveal_with_fuel(Seq::filter, 2);
    if s.len() > 0 {
        let rest = s.drop_last();
        let x = s.last();
        lemma_sort_by_timeout_stable(rest, t);
        let r = sort_by_timeout(rest);
        let p = insert_pos(r, x.timeout_ms) as int;
        lemma_insert_pos(r, x.timeout_ms);
        let pred = has_timeout(t);
        let head = r.take(p);
        let tail = r.skip(p);
        assert(r =~= head + tail);
        assert(r.insert(p, x) =~= head + seq![x] + tail);
        Seq::filter_distributes_over_add(head, tail, pred);
        Seq::filter_distributes_over_add(head + seq![x], tail, pred);
        Seq::filter_distributes_over_add(head, seq![x], pred);
        assert(seq![x].drop_last() =~= Seq::<ListenerView>::empty());
        if x.timeout_ms == t {
            lemma_filter_none(tail, t);
            assert(head.filter(pred) + seq![x].filter(pred) + tail.filter(pred) =~= (head.filter(
                pred,
            ) + tail.filter(pred)).push(x));
        } else {
            assert(head.filter(pred) + seq![x].filter(pred) + tail.filter(pred) =~= head.filter(
                pred,
            ) + tail.filter(pred));
        }
    }
}

/// Updates and user activity keep every listener's timeout and commands,
/// so the listeners stay in timeout order.
pub proof fn lemma_order_kept(v: SchedulerView, idle_ms: u64, inhibit_active: bool)
    requires
        sorted_by_timeout(v.listeners),
    ensures
        sorted_by_timeout(after_update(v, idle_ms, inhibit_active).listeners),
        sorted_by_timeout(after_activity(v).listeners),
        after_update(v, idle_ms, inhibit_active).listeners.len() == v.listeners.len(),
        after_activity(v).listeners.len() == v.listeners.len(),
        forall|i: int|
            0 <= i < v.listeners.len() ==> with_fired(
                #[trigger] after_update(v, idle_ms, inhibit_active).listeners[i],
                v.listeners[i].fired,
            ) == v.listeners[i] && with_fired(after_activity(v).listeners[i], v.listeners[i].fired)
                == v.listeners[i],
{
}

/// An update never clears a fired flag; without inhibition, afterwards
/// exactly the listeners that had fired or whose timeout the effective idle
/// time has reached are fired.
pub proof fn lemma_update_fires_due(v: SchedulerView, idle_ms: u64)
    ensures
        ({
            let w = after_update(v, idle_ms, false);
            let effective = effective_idle(idle_ms, w.baseline_ms);
            forall|i: int|
                0 <= i < v.listeners.len() ==> (#[trigger] w.listeners[i]).fired == (
                v.listeners[i].fired || v.listeners[i].timeout_ms <= effective)
        }),
{
}

proof fn lemma_no_due_no_commands(ls: Seq<ListenerView>, effective_ms: u64)
    requires
        forall|i: int| 0 <= i < ls.len() ==> !is_due(#[trigger] ls[i], effective_ms),
    ensures
        timeout_commands(ls, effective_ms) == Seq::<CommandView>::empty(),
    decreases ls.len(),
{
    if ls.len() > 0 {
        lemma_no_due_no_commands(ls.drop_last(), effective_ms);
        assert(!is_due(ls[ls.len() - 1], effective_ms));
    }
}

/// Each listener fires at most once per idle cycle: repeating an update
/// with the same idle time and inhibition changes nothing and runs no
/// command.
pub proof fn lemma_update_idempotent(v: SchedulerView, idle_ms: u64, inhibit_active: bool)
    ensures
        after_update(after_update(v, idle_ms, inhibit_active), idle_ms, inhibit_active)
            == after_update(v, idle_ms, inhibit_active),
        update_commands(after_update(v, idle_ms, inhibit_active), idle_ms, inhibit_active)
            == Seq::<CommandView>::empty(),
{
    let w = after_update(v, idle_ms, inhibit_active);
    if !inhibit_active {
        let effective = effective_idle(idle_ms, w.baseline_ms);
        assert(after_update(w, idle_ms, inhibit_active).listeners =~= w.listeners);
        lemma_no_due_no_commands(w.listeners, effective);
    }
}

/// Inhibition pauses the timer: an inhibited update fires nothing and runs
/// no command. When the inhibition ends, the idle cycle restarts at the
/// idle time measured then, so only a listener with a zero timeout can be
/// due at that moment. An uninhibited sample below the start of the cycle
/// means the user has been active since: the cycle restarts at zero and the
/// whole sampled idle time counts.
pub proof fn lemma_inhibition_pauses(v: SchedulerView, idle_ms: u64)
    ensures
        after_update(v, idle_ms, true).listeners == v.listeners,
        after_update(v, idle_ms, true).baseline_ms == v.baseline_ms,
        after_update(v, idle_ms, true).inhibit_active,
        update_commands(v, idle_ms, true) == Seq::<CommandView>::empty(),
        v.inhibit_active ==> after_update(v, idle_ms, false).baseline_ms == idle_ms,
        v.inhibit_active ==> after_update(v, idle_ms, false).listeners == fire_due(v.listeners, 0),
        !v.inhibit_active && idle_ms < v.baseline_ms ==> after_update(v, idle_ms, false).baseline_ms
            == 0,
        !v.inhibit_active && idle_ms < v.baseline_ms ==> after_update(v, idle_ms, false).listeners
            == fire_due(v.listeners, idle_ms),
{
}

/// After an uninhibited update the start of the idle cycle never lies above
/// the sampled idle time, and the effective idle time is the time since it.
pub proof fn lemma_cycle_start_below_sample(v: SchedulerView, idle_ms: u64)
    ensures
        after_update(v, idle_ms, false).baseline_ms <= idle_ms,
        effective_idle(idle_ms, after_update(v, idle_ms, false).baseline_ms) == idle_ms
            - after_update(v, idle_ms, false).baseline_ms,
{
}

proof fn lemma_no_fired_no_resumes(ls: Seq<ListenerView>)
    requires
        forall|i: int| 0 <= i < ls.len() ==> !(#[trigger] ls[i]).fired,
    ensures
        resume_commands(ls) == Seq::<CommandView>::empty(),
    decreases ls.len(),
{
    if ls.len() > 0 {
        assert(!ls[0].fired);
        lemma_no_fired_no_resumes(ls.drop_first());
    }
}

/// User activity ends the idle cycle: afterwards no listener waits for a
/// resume, so the resume commands run once per cycle and a second activity
/// runs none; the next cycle counts from zero.
pub proof fn lemma_activity_ends_cycle(v: SchedulerView)
    ensures
        !has_fired(after_activity(v).listeners),
        resume_commands(after_activity(v).listeners) == Seq::<CommandView>::empty(),
        after_activity(v).baseline_ms == 0,
{
    lemma_no_fired_no_resumes(after_activity(v).listeners);
}

/// `next_unfired_timeout` is the smallest timeout of a listener that has
/// not fired, and is `None` exactly when every listener has fired.
pub proof fn lemma_next_unfired_timeout(ls: Seq<ListenerView>)
    ensures
        next_unfired_timeout(ls) is None <==> forall|i: int|
            0 <= i < ls.len() ==> (#[trigger] ls[i]).fired,
        next_unfired_timeout(ls) matches Some(t) ==> {
            &&& exists|i: int| 0 <= i < ls.len() && !(#[trigger] ls[i]).fired && ls[i].timeout_ms == t
            &&& forall|i: int| 0 <= i < ls.len() && !(#[trigger] ls[i]).fired ==> t <= ls[i].timeout_ms
        },
    decreases ls.len(),
{
    if ls.len() > 0 {
        let rest = ls.drop_last();
        lemma_next_unfired_timeout(rest);
        let n = ls.len() - 1;
        assert forall|i: int| 0 <= i < n implies #[trigger] ls[i] == rest[i] by {}
        if next_unfired_timeout(rest) is None {
            if ls.last().fired {
                assert forall|i: int| 0 <= i < ls.len() implies (#[trigger] ls[i]).fired by {
                    if i < n {
                        assert(rest[i].fired);
                    }
                }
            } else {
                assert(!ls[n].fired);
            }
        } else {
            let t = next_unfired_timeout(rest)->0;
            let k = choose|i: int| 0 <= i < rest.len() && !(#[trigger] rest[i]).fired && rest[i].timeout_ms == t;
            assert(!ls[k].fired);
            if !ls.last().fired {
                assert(!ls[n].fired);
            }
        }
    }
}

/// The wake delay is never shorter than `MIN_WAKE_DELAY_MS` and never
/// longer than needed: without inhibition, when a listener has not fired,
/// the effective idle time plus the delay reaches the next timeout, and
/// equals it when that timeout is more than `MIN_WAKE_DELAY_MS` away.
pub proof fn lemma_wake_delay(v: SchedulerView, idle_ms: u64, inhibit_active: bool)
    ensures
        wake_delay(v, idle_ms, inhibit_active) >= MIN_WAKE_DELAY_MS,
        !inhibit_active && v.listeners.len() > 0 ==> (next_unfired_timeout(v.listeners) matches Some(
            t,
        ) ==> {
            let effective = effective_idle(idle_ms, v.baseline_ms);
            let d = wake_delay(v, idle_ms, inhibit_active);
            &&& effective + d >= t
            &&& t >= effective + MIN_WAKE_DELAY_MS ==> effective + d == t
        }),
{
}

/// Waiting the wake delay and updating with the grown idle time makes the
/// next listener fire, when nothing is inhibited and the start of the idle
/// cycle does not lie above the sampled idle time (as after every
/// uninhibited update with that sample, see
/// [`lemma_cycle_start_below_sample`]).
pub proof fn lemma_wake_then_fire(v: SchedulerView, idle_ms: u64)
    requires
        !v.inhibit_active,
        v.baseline_ms <= idle_ms,
        v.listeners.len() > 0,
        next_unfired_timeout(v.listeners) is Some,
        idle_ms + wake_delay(v, idle_ms, false) <= u64::MAX,
    ensures
        exists|i: int|
            0 <= i < v.listeners.len() && !(#[trigger] v.listeners[i]).fired && v.listeners[i].timeout_ms
                == next_unfired_timeout(v.listeners)->0 && after_update(
                v,
                (idle_ms + wake_delay(v, idle_ms, false)) as u64,
                false,
            ).listeners[i].fired,
{
    lemma_next_unfired_timeout(v.listeners);
    lemma_wake_delay(v, idle_ms, false);
    let t = next_unfired_timeout(v.listeners)->0;
    let k = choose|i: int|
        0 <= i < v.listeners.len() && !(#[trigger] v.listeners[i]).fired && v.listeners[i].timeout_ms
            == t;
    let later = (idle_ms + wake_delay(v, idle_ms, false)) as u64;
    assert(after_update(v, later, false).listeners[k].fired);
}

/// No listener becomes due before the wake delay: after an uninhibited
/// update, sampling again at any time before the returned delay fires
/// nothing and runs no command, unless the delay was raised to the
/// `MIN_WAKE_DELAY_MS` floor because the next timeout is closer than that.
pub proof fn lemma_no_early_wake(v: SchedulerView, idle_ms: u64, wait_ms: u64)
    requires
        wait_ms < wake_delay(after_update(v, idle_ms, false), idle_ms, false),
        wake_delay(after_update(v, idle_ms, false), idle_ms, false) > MIN_WAKE_DELAY_MS,
        idle_ms + wait_ms <= u64::MAX,
    ensures
        ({
            let u = after_update(v, idle_ms, false);
            let later = (idle_ms + wait_ms) as u64;
            &&& update_commands(u, later, false) == Seq::<CommandView>::empty()
            &&& after_update(u, later, false).listeners == u.listeners
        }),
{
    let u = after_update(v, idle_ms, false);
    let later = (idle_ms + wait_ms) as u64;
    let effective = effective_idle(idle_ms, u.baseline_ms);
    lemma_next_unfired_timeout(u.listeners);
    assert(baseline_after(u, later, false) == u.baseline_ms);
    let eff_later = effective_idle(later, u.baseline_ms);
    assert(eff_later == effective + wait_ms);
    assert forall|i: int| 0 <= i < u.listeners.len() implies !is_due(
        #[trigger] u.listeners[i],
        eff_later,
    ) by {
        if !u.listeners[i].fired {
            assert(u.listeners[i].timeout_ms > effective);
        }
    }
    lemma_no_due_no_commands(u.listeners, eff_later);
    assert(after_update(u, later, false).listeners =~= u.listeners);
}

} // verus!
