//! The state behind the `org.freedesktop.ScreenSaver` service: the cookies
//! handed out to applications that inhibit the screensaver.
//!
//! Cookies count up from 1; the counter saturates at `u32::MAX`. An
//! inhibition is answered with a fresh cookie and an inhibit event; an
//! uninhibition removes the cookie and reports what it was registered with.

use std::collections::HashMap;

use vstd::prelude::*;
use vstd::string::StringExecFns;

use crate::events::Event;

verus! {

broadcast use vstd::std_specs::hash::group_hash_axioms;

/// What an inhibition was registered with.
#[derive(Debug, Clone)]
pub struct CookieDetails {
    pub application: String,
    pub reason: String,
}

/// The cookie counter and the active inhibitions.
pub struct State {
    next_cookie: u32,
    active_cookies: HashMap<u32, CookieDetails>,
}

/// The contents of a [`State`].
pub struct StateView {
    /// The cookie the next inhibition receives.
    pub next_cookie: u32,
    /// The active inhibitions: cookie to application and reason.
    pub active: Map<u32, (Seq<char>, Seq<char>)>,
}

spec fn details_view(d: CookieDetails) -> (Seq<char>, Seq<char>) {
    (d.application@, d.reason@)
}

impl View for State {
    type V = StateView;

    closed spec fn view(&self) -> StateView {
        StateView {
            next_cookie: self.next_cookie,
            active: self.active_cookies@.map_values(|d: CookieDetails| details_view(d)),
        }
    }
}

/// Cookies are positive, and every active cookie was handed out before the
/// counter's current value (or the counter has saturated).
pub open spec fn state_wf(v: StateView) -> bool {
    &&& v.next_cookie >= 1
    &&& forall|k: u32|
        #[trigger] v.active.contains_key(k) ==> 1 <= k && (k < v.next_cookie || v.next_cookie
            == u32::MAX)
}

/// The counter after handing out a cookie: one more, saturating.
pub open spec fn next_after(n: u32) -> u32 {
    if n < u32::MAX {
        (n + 1) as u32
    } else {
        n
    }
}

/// The state after an inhibition by `application` for `reason`: the
/// current counter value becomes the cookie.
pub open spec fn after_allocate(v: StateView, application: Seq<char>, reason: Seq<char>) -> StateView {
    StateView {
        next_cookie: next_after(v.next_cookie),
        active: v.active.insert(v.next_cookie, (application, reason)),
    }
}

/// The state after `cookie` is released.
pub open spec fn after_remove(v: StateView, cookie: u32) -> StateView {
    StateView { next_cookie: v.next_cookie, active: v.active.remove(cookie) }
}

impl State {
    /// Cookies stay positive and below the counter (see [`state_wf`]).
    #[verifier::type_invariant]
    spec fn well_formed(self) -> bool {
        state_wf(self@)
    }

    /// No active inhibition; the first cookie is 1.
    pub fn new() -> (s: Self)
        ensures
            s@.next_cookie == 1,
            s@.active == Map::<u32, (Seq<char>, Seq<char>)>::empty(),
            state_wf(s@),
    {
        let active_cookies: HashMap<u32, CookieDetails> = HashMap::new();
        assert(active_cookies@.map_values(|d: CookieDetails| details_view(d)) =~= Map::<
            u32,
            (Seq<char>, Seq<char>),
        >::empty());
        State { next_cookie: 1, active_cookies }
    }

    /// Registers an inhibition: returns the current counter value as its
    /// cookie, records the application and reason under it, and advances
    /// the counter (saturating at `u32::MAX`).
    pub fn allocate_cookie(&mut self, application: &str, reason: &str) -> (cookie: u32)
        ensures
            cookie == old(self)@.next_cookie,
            final(self)@ == after_allocate(old(self)@, application@, reason@),
            state_wf(final(self)@),
    {
        proof {
            use_type_invariant(&*self);
        }
        let ghost v0 = self@;
        let cookie: u32 = self.next_cookie;
        let details = CookieDetails {
            application: String::from_str(application),
            reason: String::from_str(reason),
        };
        let mut active: HashMap<u32, CookieDetails> = HashMap::new();
        std::mem::swap(&mut active, &mut self.active_cookies);
        let ghost before = active@;
        active.insert(cookie, details);
        let next: u32 = self.next_cookie.saturating_add(1);
        proof {
            assert(active@.map_values(|d: CookieDetails| details_view(d)) =~= before.map_values(
                |d: CookieDetails| details_view(d),
            ).insert(cookie, (application@, reason@)));
            let v1 = after_allocate(v0, application@, reason@);
            assert forall|k: u32| #[trigger] v1.active.contains_key(k) implies 1 <= k && (k
                < v1.next_cookie || v1.next_cookie == u32::MAX) by {
                if k != cookie {
                    assert(v0.active.contains_key(k));
                }
            }
        }
        self.next_cookie = next;
        self.active_cookies = active;
        cookie
    }

    /// Releases an inhibition: removes `cookie` and returns what it was
    /// registered with, or `None` when it is not active.
    pub fn remove_cookie(&mut self, cookie: u32) -> (r: Option<CookieDetails>)
        ensures
            final(self)@ == after_remove(old(self)@, cookie),
            r is Some <==> old(self)@.active.contains_key(cookie),
            r matches Some(d) ==> (d.application@, d.reason@) == old(self)@.active[cookie],
            state_wf(final(self)@),
    {
        proof {
            use_type_invariant(&*self);
        }
        let ghost v0 = self@;
        let mut active: HashMap<u32, CookieDetails> = HashMap::new();
        std::mem::swap(&mut active, &mut self.active_cookies);
        let ghost before = active@;
        let r = active.remove(&cookie);
        proof {
            assert(active@.map_values(|d: CookieDetails| details_view(d)) =~= before.map_values(
                |d: CookieDetails| details_view(d),
            ).remove(cookie));
            let v1 = after_remove(v0, cookie);
            assert forall|k: u32| #[trigger] v1.active.contains_key(k) implies 1 <= k && (k
                < v1.next_cookie || v1.next_cookie == u32::MAX) by {
                assert(v0.active.contains_key(k));
            }
        }
        self.active_cookies = active;
        r
    }

    /// Answers an inhibition request received at `path`: allocates a cookie
    /// and returns it with the event that reports the inhibition.
    pub fn inhibit(&mut self, path: &'static str, application: &str, reason: &str) -> (r: (
        u32,
        Event,
    ))
        ensures
            r.0 == old(self)@.next_cookie,
            final(self)@ == after_allocate(old(self)@, application@, reason@),
            state_wf(final(self)@),
            r.1 matches Event::ScreenSaverInhibit { path: p, application: a, reason: e, cookie: c }
                && p == path && a@ == application@ && e@ == reason@ && c == r.0,
    {
        let cookie: u32 = self.allocate_cookie(application, reason);
        let event = Event::ScreenSaverInhibit {
            path,
            application: String::from_str(application),
            reason: String::from_str(reason),
            cookie,
        };
        (cookie, event)
    }

    /// Answers an uninhibition request received at `path`: releases
    /// `cookie` and returns the event that reports it, with the application
    /// and reason when the cookie was active.
    pub fn un_inhibit(&mut self, path: &'static str, cookie: u32) -> (e: Event)
        ensures
            final(self)@ == after_remove(old(self)@, cookie),
            state_wf(final(self)@),
            e matches Event::ScreenSaverUnInhibit { path: p, cookie: c, details: d } && p == path
                && c == cookie && (d is Some <==> old(self)@.active.contains_key(cookie)) && (d matches Some(
                (a, r),
            ) ==> (a@, r@) == old(self)@.active[cookie]),
    {
        let removed = self.remove_cookie(cookie);
        let details = match removed {
            Some(d) => Some((d.application, d.reason)),
            None => None,
        };
        Event::ScreenSaverUnInhibit { path, cookie, details }
    }
}

/// A fresh cookie: while the counter has not saturated, the cookie handed
/// out is positive and belongs to no active inhibition.
pub proof fn lemma_cookie_fresh(v: StateView)
    requires
        state_wf(v),
        v.next_cookie < u32::MAX,
    ensures
        v.next_cookie >= 1,
        !v.active.contains_key(v.next_cookie),
{
}

/// Releasing the cookie of an inhibition gives back what it was registered
/// with and leaves the active inhibitions as they were before it, while the
/// counter has not saturated.
pub proof fn lemma_inhibit_round_trip(v: StateView, application: Seq<char>, reason: Seq<char>)
    requires
        state_wf(v),
        v.next_cookie < u32::MAX,
    ensures
        after_allocate(v, application, reason).active.contains_key(v.next_cookie),
        after_allocate(v, application, reason).active[v.next_cookie] == (application, reason),
        after_remove(after_allocate(v, application, reason), v.next_cookie).active == v.active,
        after_allocate(v, application, reason).next_cookie == v.next_cookie + 1,
{
    assert(after_remove(after_allocate(v, application, reason), v.next_cookie).active =~= v.active);
}

/// One request to the registry: an inhibition by an application for a
/// reason, or the release of a cookie.
pub enum CookieOp {
    Inhibit(Seq<char>, Seq<char>),
    UnInhibit(u32),
}

/// The state after one request.
pub open spec fn after_op(v: StateView, op: CookieOp) -> StateView {
    match op {
        CookieOp::Inhibit(application, reason) => after_allocate(v, application, reason),
        CookieOp::UnInhibit(cookie) => after_remove(v, cookie),
    }
}

/// The state after a sequence of requests, in order.
pub open spec fn after_ops(v: StateView, ops: Seq<CookieOp>) -> StateView
    decreases ops.len(),
{
    if ops.len() == 0 {
        v
    } else {
        after_ops(after_op(v, ops[0]), ops.drop_first())
    }
}

/// None of the requests releases `cookie` or is handed `cookie` again.
pub open spec fn leaves_cookie(v: StateView, ops: Seq<CookieOp>, cookie: u32) -> bool
    decreases ops.len(),
{
    if ops.len() == 0 {
        true
    } else {
        &&& match ops[0] {
            CookieOp::Inhibit(_, _) => v.next_cookie != cookie,
            CookieOp::UnInhibit(k) => k != cookie,
        }
        &&& leaves_cookie(after_op(v, ops[0]), ops.drop_first(), cookie)
    }
}

/// An active cookie keeps what it was registered with through any requests
/// that neither release it nor hand it out again.
pub proof fn lemma_cookie_survives(v: StateView, ops: Seq<CookieOp>, cookie: u32)
    requires
        v.active.contains_key(cookie),
        leaves_cookie(v, ops, cookie),
    ensures
        after_ops(v, ops).active.contains_key(cookie),
        after_ops(v, ops).active[cookie] == v.active[cookie],
    decreases ops.len(),
{
    if ops.len() > 0 {
        lemma_cookie_survives(after_op(v, ops[0]), ops.drop_first(), cookie);
    }
}

/// The inhibit round trip over intervening requests: after an inhibition
/// by `application` for `reason`, and any requests that neither release its
/// cookie nor hand that cookie out again, releasing the cookie reports
/// `application` and `reason` (see [`State::un_inhibit`]), and a second
/// release reports nothing.
pub proof fn lemma_inhibit_uninhibit_round_trip(
    v: StateView,
    application: Seq<char>,
    reason: Seq<char>,
    ops: Seq<CookieOp>,
)
    requires
        leaves_cookie(after_allocate(v, application, reason), ops, v.next_cookie),
    ensures
        after_ops(after_allocate(v, application, reason), ops).active.contains_key(v.next_cookie),
        after_ops(after_allocate(v, application, reason), ops).active[v.next_cookie] == (
            application,
            reason,
        ),
        !after_remove(
            after_ops(after_allocate(v, application, reason), ops),
            v.next_cookie,
        ).active.contains_key(v.next_cookie),
{
    lemma_cookie_survives(after_allocate(v, application, reason), ops, v.next_cookie);
}

/// Releasing a cookie never moves the cookie counter.
pub proof fn lemma_release_keeps_counter(v: StateView, cookie: u32)
    ensures
        after_remove(v, cookie).next_cookie == v.next_cookie,
        !after_remove(v, cookie).active.contains_key(cookie),
{
}

/// The cookie counter never goes back, whatever the requests.
pub proof fn lemma_counter_monotone(v: StateView, ops: Seq<CookieOp>)
    ensures
        after_ops(v, ops).next_cookie >= v.next_cookie,
    decreases ops.len(),
{
    if ops.len() > 0 {
        lemma_counter_monotone(after_op(v, ops[0]), ops.drop_first());
    }
}

/// Cookies are not reused until the counter saturates: after an
/// inhibition, and any further requests, the next cookie handed out is
/// larger than that inhibition's cookie.
pub proof fn lemma_later_cookies_larger(
    v: StateView,
    application: Seq<char>,
    reason: Seq<char>,
    ops: Seq<CookieOp>,
)
    requires
        v.next_cookie < u32::MAX,
    ensures
        after_ops(after_allocate(v, application, reason), ops).next_cookie > v.next_cookie,
{
    lemma_counter_monotone(after_allocate(v, application, reason), ops);
}

} // verus!
