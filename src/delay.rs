//! The delay primitive: a one-shot suspension point that becomes ready once a
//! deadline has passed.
//!
//! `DelayCore` holds the decisions of a delay future: whether a poll is ready,
//! when the one-shot timer has to be armed, and which waker a timer firing has
//! to invoke. The caller owns the clock (times are plain tick counts on a
//! monotonic clock), the timer service and the actual waker type `W`.
use vstd::prelude::*;

verus! {

/// What a poll of a delay reports.
#[derive(Debug, PartialEq, Eq, Structural, Clone, Copy)]
pub enum DelayPoll {
    /// The deadline has passed: the delay is complete.
    Ready,
    /// Not ready; the waker was stored and a timer is already armed.
    Pending,
    /// Not ready; the waker was stored and the caller must arm a one-shot
    /// timer that fires after the given number of ticks.
    PendingArm(u64),
}

/// What a timer firing asks of its caller.
#[derive(Debug)]
pub enum TimerOutcome<W> {
    /// The delay completed now: invoke this waker, once.
    Wake(W),
    /// Nothing to do.
    Idle,
    /// The timer fired before the deadline: arm it again for the given
    /// number of ticks.
    Rearm(u64),
}

/// An input to a delay: a poll at a time with a waker, or a timer firing at a time.
pub enum DelayEvent<W> {
    Poll(nat, W),
    Fire(nat),
}

/// The abstract state of a delay.
pub struct DelayState<W> {
    /// The tick at which the delay becomes ready.
    pub deadline: nat,
    /// The one-way completion flag.
    pub complete: bool,
    /// Whether the one-shot timer has been requested.
    pub armed: bool,
    /// The single waker slot.
    pub waker: Option<W>,
    /// The latest tick seen by a poll or a timer firing.
    pub latest: nat,
}

pub open spec fn max_nat(a: nat, b: nat) -> nat {
    if a >= b { a } else { b }
}

impl<W> DelayState<W> {
    /// A completed delay has seen its deadline and holds no waker; a pending
    /// delay whose timer is armed holds the waker to invoke.
    pub open spec fn wf(self) -> bool {
        &&& self.complete ==> self.latest >= self.deadline && self.waker is None
        &&& !self.complete && self.armed ==> self.waker is Some
    }

    /// The state after a poll at tick `now` with waker `w`, and what the poll reports.
    pub open spec fn after_poll(self, now: nat, w: W) -> (DelayState<W>, DelayPoll) {
        let t = max_nat(self.latest, now);
        if self.complete {
            (DelayState { latest: t, ..self }, DelayPoll::Ready)
        } else if t >= self.deadline {
            (DelayState { latest: t, complete: true, waker: None, ..self }, DelayPoll::Ready)
        } else if self.armed {
            (DelayState { latest: t, waker: Some(w), ..self }, DelayPoll::Pending)
        } else {
            (
                DelayState { latest: t, waker: Some(w), armed: true, ..self },
                DelayPoll::PendingArm((self.deadline - t) as u64),
            )
        }
    }

    /// The state after the timer fires at tick `now`, and what the firing asks for.
    pub open spec fn after_fire(self, now: nat) -> (DelayState<W>, TimerOutcome<W>) {
        let t = max_nat(self.latest, now);
        if self.complete {
            (DelayState { latest: t, ..self }, TimerOutcome::Idle)
        } else if t < self.deadline {
            (DelayState { latest: t, ..self }, TimerOutcome::Rearm((self.deadline - t) as u64))
        } else {
            let out = match self.waker {
                Some(w) => TimerOutcome::Wake(w),
                None => TimerOutcome::Idle,
            };
            (DelayState { latest: t, complete: true, waker: None, ..self }, out)
        }
    }

    /// The state after one event, and how many wakers the event handed out.
    pub open spec fn after_event(self, e: DelayEvent<W>) -> (DelayState<W>, nat) {
        match e {
            DelayEvent::Poll(now, w) => (self.after_poll(now, w).0, 0),
            DelayEvent::Fire(now) => {
                let (s, out) = self.after_fire(now);
                (s, if out is Wake { 1 } else { 0 })
            },
        }
    }

    /// The state after a sequence of events, and how many wakers they handed out.
    pub open spec fn after_events(self, es: Seq<DelayEvent<W>>) -> (DelayState<W>, nat)
        decreases es.len(),
    {
        if es.len() == 0 {
            (self, 0)
        } else {
            let (s1, n1) = self.after_event(es[0]);
            let (s2, n2) = s1.after_events(es.drop_first());
            (s2, n1 + n2)
        }
    }
}

/// The executable state of a delay future.
pub struct DelayCore<W> {
    deadline: u64,
    complete: bool,
    armed: bool,
    waker: Option<W>,
    latest: u64,
}

impl<W> View for DelayCore<W> {
    type V = DelayState<W>;

    closed spec fn view(&self) -> DelayState<W> {
        DelayState {
            deadline: self.deadline as nat,
            complete: self.complete,
            armed: self.armed,
            waker: self.waker,
            latest: self.latest as nat,
        }
    }
}

impl<W> DelayCore<W> {
    /// A delay created at tick `now` that becomes ready `duration` ticks later.
    pub fn new(now: u64, duration: u64) -> (r: Self)
        requires
            now + duration <= u64::MAX,
        ensures
            r@ == (DelayState::<W> {
                deadline: (now + duration) as nat,
                complete: false,
                armed: false,
                waker: None,
                latest: now as nat,
            }),
            r@.wf(),
    {
        DelayCore { deadline: now + duration, complete: false, armed: false, waker: None, latest: now }
    }

    /// The tick at which the delay becomes ready.
    pub fn deadline(&self) -> (r: u64)
        ensures
            r == self@.deadline,
    {
        self.deadline
    }

    /// Whether the delay has completed.
    pub fn is_complete(&self) -> (r: bool)
        ensures
            r == self@.complete,
    {
        self.complete
    }

    /// Whether a waker is stored.
    pub fn has_waker(&self) -> (r: bool)
        ensures
            r == self@.waker is Some,
    {
        self.waker.is_some()
    }

    /// Polls the delay at tick `now`. It is ready exactly when `now` or an
    /// earlier observed tick has reached the deadline; otherwise `waker`
    /// replaces the stored one, and the first such poll asks for the timer.
    pub fn poll(&mut self, now: u64, waker: W) -> (r: DelayPoll)
        requires
            old(self)@.wf(),
        ensures
            (final(self)@, r) == old(self)@.after_poll(now as nat, waker),
            final(self)@.wf(),
            (r is Ready) <==> max_nat(old(self)@.latest, now as nat) >= old(self)@.deadline,
    {
        if now > self.latest {
            self.latest = now;
        }
        if self.complete {
            DelayPoll::Ready
        } else if self.latest >= self.deadline {
            self.complete = true;
            self.waker = None;
            DelayPoll::Ready
        } else if self.armed {
            self.waker = Some(waker);
            DelayPoll::Pending
        } else {
            self.waker = Some(waker);
            self.armed = true;
            DelayPoll::PendingArm(self.deadline - self.latest)
        }
    }

    /// Handles the timer firing at tick `now`. At or after the deadline the
    /// delay completes and the stored waker is handed out; before it the timer
    /// has to be armed again.
    pub fn fire(&mut self, now: u64) -> (r: TimerOutcome<W>)
        requires
            old(self)@.wf(),
        ensures
            (final(self)@, r) == old(self)@.after_fire(now as nat),
            final(self)@.wf(),
            r is Wake ==> !old(self)@.complete && final(self)@.complete,
            !old(self)@.complete && old(self)@.armed && max_nat(old(self)@.latest, now as nat)
                >= old(self)@.deadline ==> r is Wake,
    {
        if now > self.latest {
            self.latest = now;
        }
        if self.complete {
            TimerOutcome::Idle
        } else if self.latest < self.deadline {
            TimerOutcome::Rearm(self.deadline - self.latest)
        } else {
            self.complete = true;
            match self.waker.take() {
                Some(w) => TimerOutcome::Wake(w),
                None => TimerOutcome::Idle,
            }
        }
    }
}

/// Over any sequence of polls and timer firings, a delay hands out its waker
/// at most once, and never once it has completed.
pub proof fn delay_wakes_at_most_once<W>(s: DelayState<W>, es: Seq<DelayEvent<W>>)
    requires
        s.wf(),
    ensures
        s.after_events(es).1 <= (if s.complete { 0nat } else { 1nat }),
        s.after_events(es).0.wf(),
        s.complete ==> s.after_events(es).0.complete,
    decreases es.len(),
{
    if es.len() > 0 {
        let (s1, n1) = s.after_event(es[0]);
        delay_wakes_at_most_once(s1, es.drop_first());
    }
}

/// A delay whose timer was armed and has not completed hands out its waker
/// when the timer fires at or after the deadline, and never again after that,
/// whatever polls and firings follow.
pub proof fn delay_wakes_exactly_once<W>(s: DelayState<W>, now: nat, es: Seq<DelayEvent<W>>)
    requires
        s.wf(),
        !s.complete,
        s.armed,
        now >= s.deadline,
    ensures
        s.after_fire(now).1 is Wake,
        s.after_fire(now).0.after_events(es).1 == 0,
{
    delay_wakes_at_most_once(s.after_fire(now).0, es);
}

/// Once the latest observed tick is at or past `now`, a poll at `now` reports
/// ready exactly when `now` has reached the deadline: never before it, always
/// at or after it.
pub proof fn delay_ready_iff_deadline<W>(s: DelayState<W>, now: nat, w: W)
    requires
        s.wf(),
        now >= s.latest,
    ensures
        (s.after_poll(now, w).1 is Ready) <==> now >= s.deadline,
{
}

} // verus!
