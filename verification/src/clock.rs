//! The recording clock: wall time since the start, minus the time spent paused.
//!
//! Instants are nanoseconds on a monotonic time line; a `RecordingClock` reads
//! them from `std::time::Instant` relative to the moment it was created.
use vstd::prelude::*;
use std::time::{Duration, Instant};

verus! {

/// `std::time::Instant`, an instant of the monotonic clock; opaque here.
#[verifier::external_type_specification]
#[verifier::external_body]
pub struct ExInstant(Instant);

/// Timing state of one recording; every field is an instant or a span in nanoseconds.
#[derive(Clone, Copy, Debug, PartialEq, Eq, Structural)]
pub struct ClockState {
    pub started: u64,
    pub paused_at: Option<u64>,
    pub paused_total: u64,
    pub stopped_at: Option<u64>,
}

/// `a - b`, or zero when `b` is later.
pub open spec fn sat_sub(a: u64, b: u64) -> u64 {
    if a >= b {
        (a - b) as u64
    } else {
        0
    }
}

/// `a + b`, or `u64::MAX` when the sum does not fit.
pub open spec fn sat_add(a: u64, b: u64) -> u64 {
    if a + b <= u64::MAX {
        (a + b) as u64
    } else {
        u64::MAX
    }
}

/// Recorded time at `now`: the clock stands still while paused and after a stop.
pub open spec fn elapsed_nanos_at(s: ClockState, now: u64) -> u64 {
    let end = match s.paused_at {
        Some(p) => p,
        None => match s.stopped_at {
            Some(t) => t,
            None => now,
        },
    };
    sat_sub(sat_sub(end, s.started), s.paused_total)
}

/// State after a pause request at `now`: a stopped clock ignores it, and a
/// paused clock keeps the instant of its first pause.
pub open spec fn paused_state(s: ClockState, now: u64) -> ClockState {
    if s.stopped_at is None && s.paused_at is None {
        ClockState { paused_at: Some(now), ..s }
    } else {
        s
    }
}

/// State after a resume request at `now`: the pause just ended is added to the paused total.
pub open spec fn resumed_state(s: ClockState, now: u64) -> ClockState {
    match (s.stopped_at, s.paused_at) {
        (None, Some(p)) => ClockState {
            paused_at: None,
            paused_total: sat_add(s.paused_total, sat_sub(now, p)),
            ..s
        },
        _ => s,
    }
}

/// State after a stop at `now`: the first stop is the one that counts.
pub open spec fn stopped_state(s: ClockState, now: u64) -> ClockState {
    if s.stopped_at is None {
        ClockState { stopped_at: Some(now), ..s }
    } else {
        s
    }
}

/// Encoder ticks (100 ns units) of a span of `nanos` nanoseconds, limited to `i64::MAX`.
pub open spec fn ticks_of(nanos: u64) -> int {
    if nanos / 100 > i64::MAX {
        i64::MAX as int
    } else {
        (nanos / 100) as int
    }
}

impl ClockState {
    /// A running clock started at `started`.
    pub fn starting_at(started: u64) -> (s: ClockState)
        ensures
            s == (ClockState { started, paused_at: None, paused_total: 0, stopped_at: None }),
    {
        ClockState { started, paused_at: None, paused_total: 0, stopped_at: None }
    }

    pub fn elapsed_at(&self, now: u64) -> (r: u64)
        ensures
            r == elapsed_nanos_at(*self, now),
    {
        let end = match self.paused_at {
            Some(p) => p,
            None => match self.stopped_at {
                Some(t) => t,
                None => now,
            },
        };
        end.saturating_sub(self.started).saturating_sub(self.paused_total)
    }

    pub fn pause_at(&mut self, now: u64)
        ensures
            *final(self) == paused_state(*old(self), now),
    {
        if self.stopped_at.is_none() && self.paused_at.is_none() {
            self.paused_at = Some(now);
        }
    }

    pub fn resume_at(&mut self, now: u64)
        ensures
            *final(self) == resumed_state(*old(self), now),
    {
        if self.stopped_at.is_none() {
            if let Some(paused) = self.paused_at {
                self.paused_at = None;
                self.paused_total = self.paused_total.saturating_add(now.saturating_sub(paused));
            }
        }
    }

    pub fn stop_at(&mut self, now: u64)
        ensures
            *final(self) == stopped_state(*old(self), now),
    {
        if self.stopped_at.is_none() {
            self.stopped_at = Some(now);
        }
    }
}

/// Converts a span in nanoseconds into encoder ticks of 100 ns.
pub fn ticks(nanos: u64) -> (r: i64)
    ensures
        r == ticks_of(nanos),
{
    let t = nanos / 100;
    if t > i64::MAX as u64 {
        i64::MAX
    } else {
        t as i64
    }
}

/// A second pause request changes nothing: the first pause instant is kept.
pub proof fn law_pause_is_idempotent(s: ClockState, first: u64, second: u64)
    ensures
        paused_state(paused_state(s, first), second) == paused_state(s, first),
{
}

/// While the clock is paused, the recorded time does not advance.
pub proof fn law_paused_clock_stands_still(s: ClockState, at: u64, now1: u64, now2: u64)
    ensures
        elapsed_nanos_at(paused_state(s, at), now1) == elapsed_nanos_at(paused_state(s, at), now2),
{
}

/// After a stop, the recorded time no longer changes, whatever is requested later.
pub proof fn law_stopped_clock_is_final(s: ClockState, stop: u64, t: u64, now1: u64, now2: u64)
    ensures
        elapsed_nanos_at(stopped_state(s, stop), now1) == elapsed_nanos_at(
            stopped_state(s, stop),
            now2,
        ),
        paused_state(stopped_state(s, stop), t) == stopped_state(s, stop),
        resumed_state(stopped_state(s, stop), t) == stopped_state(s, stop),
{
}

/// A pause from `p` to `r` is left out of the recorded time: at any `now`
/// after the resume, the clock shows `(now - started) - (r - p)`.
pub proof fn law_pause_is_excluded(started: u64, p: u64, r: u64, now: u64)
    requires
        started <= p <= r <= now,
    ensures
        ({
            let s0 = ClockState { started, paused_at: None, paused_total: 0, stopped_at: None };
            elapsed_nanos_at(resumed_state(paused_state(s0, p), r), now) == (now - started) - (r
                - p)
        }),
{
}

/// A running clock never runs backwards.
pub proof fn law_running_clock_is_monotone(s: ClockState, now1: u64, now2: u64)
    requires
        now1 <= now2,
    ensures
        elapsed_nanos_at(s, now1) <= elapsed_nanos_at(s, now2),
{
}

/// `Instant::now`: the current instant of the monotonic clock. Nothing is
/// stated of it: it depends on the time.
#[verifier::external_body]
fn instant_now() -> Instant {
    Instant::now()
}

/// `Instant::elapsed`: the time that has passed since `origin`. Nothing is
/// stated of it: it depends on the time.
#[verifier::external_body]
fn instant_elapsed(origin: &Instant) -> Duration {
    origin.elapsed()
}

/// `Duration::as_nanos`: the span in whole nanoseconds. Nothing is stated of
/// it: the spans it is given come from the clock.
#[verifier::external_body]
fn duration_nanos(span: &Duration) -> u128 {
    span.as_nanos()
}

/// The machine's monotonic time, in nanoseconds since this value was made.
/// Readings never go back: each is at least the one before.
pub struct Monotonic {
    origin: Instant,
    last: u64,
}

impl Monotonic {
    /// The latest reading; zero before the first.
    pub closed spec fn last(&self) -> u64 {
        self.last
    }

    /// The time line starts now.
    pub fn new() -> (m: Self)
        ensures
            m.last() == 0,
    {
        Monotonic { origin: instant_now(), last: 0 }
    }

    /// Nanoseconds since `new`, limited to `u64::MAX`, and never less than the
    /// reading before (`Instant` does not go backwards, so this only guards
    /// what std promises).
    pub fn now(&mut self) -> (r: u64)
        ensures
            r >= old(self).last(),
            final(self).last() == r,
    {
        let span = instant_elapsed(&self.origin);
        let n = duration_nanos(&span);
        let reading: u64 = if n > u64::MAX as u128 {
            u64::MAX
        } else {
            n as u64
        };
        let r = if reading < self.last { self.last } else { reading };
        self.last = r;
        r
    }
}

/// Every instant that `s` holds lies at or after its start and no later than `last`.
pub open spec fn instants_within(s: ClockState, last: u64) -> bool {
    &&& s.started <= last
    &&& s.paused_at matches Some(p) ==> s.started <= p <= last
    &&& s.stopped_at matches Some(t) ==> s.started <= t <= last
}

/// Clock readings never go back. Once the clock has been read at `last`, a
/// reading at any later instant `later` shows at least as much, whether the
/// clock was left alone or paused, resumed or stopped at an instant `at` in
/// between (as long as the paused total fits in 64 bits).
pub proof fn law_readings_never_go_back(s: ClockState, last: u64, at: u64, later: u64)
    requires
        instants_within(s, last),
        last <= at <= later,
        s.paused_total + at <= u64::MAX,
    ensures
        elapsed_nanos_at(s, last) <= elapsed_nanos_at(s, later),
        elapsed_nanos_at(s, last) <= elapsed_nanos_at(paused_state(s, at), later),
        elapsed_nanos_at(s, last) <= elapsed_nanos_at(resumed_state(s, at), later),
        elapsed_nanos_at(s, last) <= elapsed_nanos_at(stopped_state(s, at), later),
        instants_within(paused_state(s, at), at),
        instants_within(resumed_state(s, at), at),
        instants_within(stopped_state(s, at), at),
{
}

/// Pausing at `a` and resuming at `b` leaves out exactly the span from `a` to
/// `b`; a resume of a clock that is not paused, or is stopped, changes nothing.
pub proof fn law_pause_then_resume(s0: ClockState, a: u64, b: u64, t: u64)
    requires
        s0.paused_at is None,
        s0.stopped_at is None,
        a <= b <= t,
        s0.paused_total + (b - a) <= u64::MAX,
    ensures
        ({
            let s = resumed_state(paused_state(s0, a), b);
            &&& s.paused_at is None
            &&& s.paused_total == s0.paused_total + (b - a)
            &&& elapsed_nanos_at(s, t) == sat_sub(elapsed_nanos_at(s0, t), (b - a) as u64)
        }),
        resumed_state(s0, b) == s0,
        resumed_state(stopped_state(s0, a), b) == stopped_state(s0, a),
{
}

/// A recording clock that reads the monotonic time of the machine.
pub struct RecordingClock {
    time: Monotonic,
    state: ClockState,
}

impl RecordingClock {
    /// The timing state that the clock holds.
    pub closed spec fn state(&self) -> ClockState {
        self.state
    }

    /// The latest instant the clock has read.
    pub closed spec fn last(&self) -> u64 {
        self.time.last()
    }

    /// Every instant the state holds was read no later than the latest reading.
    pub closed spec fn wf(&self) -> bool {
        instants_within(self.state, self.time.last())
    }

    /// A running clock whose time line starts now.
    pub fn new() -> (c: Self)
        ensures
            c.wf(),
            c.last() == 0,
            c.state() == (ClockState { started: 0, paused_at: None, paused_total: 0, stopped_at: None }),
    {
        RecordingClock { time: Monotonic::new(), state: ClockState::starting_at(0) }
    }

    fn now(&mut self) -> (r: u64)
        requires
            old(self).wf(),
        ensures
            r >= old(self).last(),
            final(self).last() == r,
            final(self).state() == old(self).state(),
            final(self).wf(),
    {
        self.time.now()
    }

    /// Recorded nanoseconds at the current instant, which is read now and is
    /// no earlier than any instant read before.
    pub fn elapsed(&mut self) -> (r: u64)
        requires
            old(self).wf(),
        ensures
            final(self).wf(),
            final(self).state() == old(self).state(),
            final(self).last() >= old(self).last(),
            r == elapsed_nanos_at(old(self).state(), final(self).last()),
    {
        let now = self.now();
        self.state.elapsed_at(now)
    }

    pub fn is_paused(&self) -> (r: bool)
        ensures
            r == self.state().paused_at is Some,
    {
        self.state.paused_at.is_some()
    }

    /// Pauses at the current instant.
    pub fn pause(&mut self)
        requires
            old(self).wf(),
        ensures
            final(self).wf(),
            final(self).last() >= old(self).last(),
            final(self).state() == paused_state(old(self).state(), final(self).last()),
    {
        let now = self.now();
        self.state.pause_at(now);
    }

    /// Resumes at the current instant, which is no earlier than the pause.
    pub fn resume(&mut self)
        requires
            old(self).wf(),
        ensures
            final(self).wf(),
            final(self).last() >= old(self).last(),
            final(self).state() == resumed_state(old(self).state(), final(self).last()),
    {
        let now = self.now();
        self.state.resume_at(now);
    }

    /// Stops at the current instant; a second stop changes nothing.
    pub fn stop(&mut self)
        requires
            old(self).wf(),
        ensures
            final(self).wf(),
            final(self).last() >= old(self).last(),
            final(self).state() == stopped_state(old(self).state(), final(self).last()),
    {
        let now = self.now();
        self.state.stop_at(now);
    }
}

/// The clock stands at the pause instant: stopping a paused clock does not
/// change the recorded time, which stays the time from the start to the pause,
/// less the time paused before.
pub proof fn law_stopping_a_paused_clock_keeps_its_time(s: ClockState, p: u64, t: u64, now: u64)
    requires
        s.paused_at is None,
        s.stopped_at is None,
        s.started <= p <= t,
    ensures
        elapsed_nanos_at(stopped_state(paused_state(s, p), t), now) == elapsed_nanos_at(paused_state(s, p), now),
        elapsed_nanos_at(paused_state(s, p), now) == if p - s.started >= s.paused_total {
            p - s.started - s.paused_total
        } else {
            0
        },
{
}

} // verus!
