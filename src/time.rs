//! Time values: durations, monotonic instants, wall-clock times and timers.

use vstd::prelude::*;

verus! {

/// Nanoseconds in one second.
pub const NANOS_PER_SEC: u64 = 1_000_000_000;

/// Nanoseconds in one millisecond.
pub const NANOS_PER_MILLI: u64 = 1_000_000;

/// A span of time, counted in nanoseconds as the host's monotonic clock does.
#[derive(Clone, Copy, Debug, PartialEq, Eq, Structural)]
pub struct Duration {
    pub nanos: u64,
}

impl Duration {
    /// The number of nanoseconds this duration spans.
    pub open spec fn view(self) -> nat {
        self.nanos as nat
    }

    /// A duration of `secs` seconds and `nanos` nanoseconds.
    pub fn new(secs: u64, nanos: u32) -> (r: Duration)
        requires
            secs * NANOS_PER_SEC + nanos <= u64::MAX,
        ensures
            r@ == secs * NANOS_PER_SEC + nanos,
    {
        Duration { nanos: secs * NANOS_PER_SEC + nanos as u64 }
    }

    pub fn from_nanos(nanos: u64) -> (r: Duration)
        ensures
            r@ == nanos,
    {
        Duration { nanos }
    }

    pub fn from_millis(millis: u64) -> (r: Duration)
        requires
            millis * NANOS_PER_MILLI <= u64::MAX,
        ensures
            r@ == millis * NANOS_PER_MILLI,
    {
        Duration { nanos: millis * NANOS_PER_MILLI }
    }

    pub fn from_secs(secs: u64) -> (r: Duration)
        requires
            secs * NANOS_PER_SEC <= u64::MAX,
        ensures
            r@ == secs * NANOS_PER_SEC,
    {
        Duration { nanos: secs * NANOS_PER_SEC }
    }

    /// The whole seconds of this duration.
    pub fn as_secs(&self) -> (r: u64)
        ensures
            r == self@ / (NANOS_PER_SEC as nat),
    {
        self.nanos / NANOS_PER_SEC
    }

    /// The whole milliseconds of this duration.
    pub fn as_millis(&self) -> (r: u64)
        ensures
            r == self@ / (NANOS_PER_MILLI as nat),
    {
        self.nanos / NANOS_PER_MILLI
    }

    pub fn as_nanos(&self) -> (r: u64)
        ensures
            r == self@,
    {
        self.nanos
    }
}

/// A reading of the monotonic clock, in nanoseconds.
#[derive(Clone, Copy, Debug, PartialEq, Eq, Structural)]
pub struct Instant {
    pub nanos: u64,
}

impl Instant {
    pub open spec fn view(self) -> nat {
        self.nanos as nat
    }

    /// The current reading of the monotonic clock.
    pub fn now() -> (r: Instant) {
        Instant { nanos: monotonic_now() }
    }

    /// The time elapsed from `earlier` to `self`, or zero when `earlier` is
    /// the later of the two.
    pub fn duration_since(&self, earlier: Instant) -> (r: Duration)
        ensures
            r@ == if self@ >= earlier@ { self@ - earlier@ } else { 0 },
    {
        if self.nanos >= earlier.nanos {
            Duration { nanos: self.nanos - earlier.nanos }
        } else {
            Duration { nanos: 0 }
        }
    }

    /// The instant `d` after `self`, or `None` where it passes the clock's range.
    pub fn checked_add(&self, d: Duration) -> (r: Option<Instant>)
        ensures
            self@ + d@ <= u64::MAX ==> r == Some(Instant { nanos: (self@ + d@) as u64 }),
            self@ + d@ > u64::MAX ==> r.is_none(),
    {
        match self.nanos.checked_add(d.nanos) {
            Some(n) => Some(Instant { nanos: n }),
            None => None,
        }
    }
}

/// Relies on the host's monotonic clock (`wasi:clocks/monotonic-clock.now`),
/// read through the `wasip2` bindings. Nothing is promised of the reading.
#[verifier::external_body]
fn monotonic_now() -> (r: u64) {
    wasip2::clocks::monotonic_clock::now()
}

/// Relies on the host's wall clock (`wasi:clocks/wall-clock.now`), read
/// through the `wasip2` bindings, whose documentation promises a nanosecond
/// field under one second.
#[verifier::external_body]
fn wall_clock_now() -> (r: (u64, u32))
    ensures
        r.1 < NANOS_PER_SEC,
{
    let d = wasip2::clocks::wall_clock::now();
    (d.seconds, d.nanoseconds)
}

/// A measurement of the system clock: seconds and nanoseconds since the Unix
/// epoch.
#[derive(Clone, Copy, Debug, PartialEq, Eq, Structural)]
pub struct SystemTime {
    pub seconds: u64,
    pub nanoseconds: u32,
}

/// The error of `SystemTime::duration_since` when `earlier` is not earlier.
#[derive(Clone, Copy, Debug, PartialEq, Eq, Structural)]
pub struct SystemTimeError;

impl SystemTime {
    /// The instant of the Unix epoch.
    pub fn unix_epoch() -> (r: SystemTime)
        ensures
            r.seconds == 0 && r.nanoseconds == 0,
    {
        SystemTime { seconds: 0, nanoseconds: 0 }
    }

    pub open spec fn total_nanos(self) -> int {
        self.seconds * NANOS_PER_SEC + self.nanoseconds
    }

    pub fn from_parts(seconds: u64, nanoseconds: u32) -> (r: SystemTime)
        ensures
            r == (SystemTime { seconds, nanoseconds }),
    {
        SystemTime { seconds, nanoseconds }
    }

    /// The current wall-clock time.
    pub fn now() -> (r: SystemTime)
        ensures
            r.nanoseconds < NANOS_PER_SEC,
    {
        let (seconds, nanoseconds) = wall_clock_now();
        SystemTime { seconds, nanoseconds }
    }

    /// The time from `earlier` to `self`, compared as total nanoseconds
    /// since the epoch. It is an error where `earlier` is the later of the
    /// two, or where the span does not fit a `Duration`.
    pub fn duration_since(&self, earlier: &SystemTime) -> (r: Result<Duration, SystemTimeError>)
        ensures
            ({
                let d = self.total_nanos() - earlier.total_nanos();
                &&& (0 <= d <= u64::MAX) ==> r == Ok::<Duration, SystemTimeError>(
                    Duration { nanos: d as u64 },
                )
                &&& !(0 <= d <= u64::MAX) ==> r.is_err()
            }),
    {
        proof {
            assert(self.seconds * NANOS_PER_SEC + self.nanoseconds <= u128::MAX) by (nonlinear_arith);
            assert(earlier.seconds * NANOS_PER_SEC + earlier.nanoseconds <= u128::MAX) by (
            nonlinear_arith);
        }
        let a: u128 = self.seconds as u128 * NANOS_PER_SEC as u128 + self.nanoseconds as u128;
        let b: u128 = earlier.seconds as u128 * NANOS_PER_SEC as u128 + earlier.nanoseconds as u128;
        if a >= b && a - b <= u64::MAX as u128 {
            Ok(Duration { nanos: (a - b) as u64 })
        } else {
            Err(SystemTimeError)
        }
    }
}

/// A timer: it fires at its deadline, or never when it has none.
#[derive(Clone, Copy, Debug, PartialEq, Eq, Structural)]
pub struct Timer {
    pub deadline: Option<Instant>,
}

/// What waiting on a timer amounts to: the deadline the runtime subscribes
/// to, or none for a wait that stays pending for ever.
#[derive(Clone, Copy, Debug, PartialEq, Eq, Structural)]
pub struct Wait {
    pub deadline: Option<Instant>,
}

impl Timer {
    /// A timer that never fires.
    pub fn never() -> (r: Timer)
        ensures
            r.deadline.is_none(),
    {
        Timer { deadline: None }
    }

    /// A timer that fires at `deadline`.
    pub fn at(deadline: Instant) -> (r: Timer)
        ensures
            r.deadline == Some(deadline),
    {
        Timer { deadline: Some(deadline) }
    }

    /// A timer that fires `duration` after the clock reading `now`; where
    /// that passes the clock's range it never fires.
    pub fn after_from(now: Instant, duration: Duration) -> (r: Timer)
        ensures
            r == Timer::after_from_spec(now, duration),
    {
        Timer { deadline: now.checked_add(duration) }
    }

    /// A timer that fires `duration` from now.
    pub fn after(duration: Duration) -> (r: Timer)
        ensures
            exists|n: u64| r == Timer::after_from_spec(Instant { nanos: n }, duration),
            r.deadline.is_some() ==> r.deadline.unwrap()@ >= duration@,
    {
        let now = Instant::now();
        let r = Self::after_from(now, duration);
        assert(r == Timer::after_from_spec(Instant { nanos: now.nanos }, duration));
        r
    }

    /// Re-arms this timer to fire `duration` from now.
    pub fn set_after(&mut self, duration: Duration)
        ensures
            exists|n: u64| *final(self) == Timer::after_from_spec(Instant { nanos: n }, duration),
            final(self).deadline.is_some() ==> final(self).deadline.unwrap()@ >= duration@,
    {
        *self = Self::after(duration);
    }

    /// What waiting on this timer amounts to.
    pub fn wait(&self) -> (r: Wait)
        ensures
            r.deadline == self.deadline,
    {
        Wait { deadline: self.deadline }
    }
}

impl Wait {
    /// Whether this wait stays pending for ever.
    pub fn is_never(&self) -> (r: bool)
        ensures
            r == self.deadline.is_none(),
    {
        self.deadline.is_none()
    }
}

/// Notifications at a fixed interval: each one comes a full period after the
/// previous one was taken.
#[derive(Clone, Copy, Debug, PartialEq, Eq, Structural)]
pub struct Interval {
    pub duration: Duration,
}

/// An interval with the period `duration`.
pub fn interval(duration: Duration) -> (r: Interval)
    ensures
        r.duration == duration,
{
    Interval { duration }
}

impl Interval {
    /// The timer for the next notification, one period from `now`.
    pub fn next_timer_from(&self, now: Instant) -> (r: Timer)
        ensures
            r == Timer::after_from_spec(now, self.duration),
    {
        Timer::after_from(now, self.duration)
    }
}

impl Timer {
    pub open spec fn after_from_spec(now: Instant, duration: Duration) -> Timer {
        if now@ + duration@ <= u64::MAX {
            Timer { deadline: Some(Instant { nanos: (now@ + duration@) as u64 }) }
        } else {
            Timer { deadline: None }
        }
    }
}

} // verus!
