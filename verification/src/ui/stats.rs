//! Throughput bookkeeping between progress updates.
//!
//! Clock readings are kept as nanoseconds since the calculator's start, so that what a
//! sample reports can be stated over plain numbers.

use vstd::prelude::*;
use std::time::Instant;

verus! {

/// `std::time::Instant`, a reading of the monotonic clock.
#[verifier::external_type_specification]
#[verifier::external_body]
pub struct ExInstant(std::time::Instant);

/// Calls `Instant::now()`. The reading depends on the time, so nothing is stated of it.
#[verifier::external_body]
fn clock_now() -> Instant {
    Instant::now()
}

/// Calls `start.elapsed().as_nanos()`: the nanoseconds from `start` to now (zero if the clock
/// reads earlier than `start`). The value depends on the time, so nothing is stated of it;
/// in particular that a later call reads no less than an earlier one (the clock is
/// monotonic) relates two calls, which no clause over one call's result can say.
#[verifier::external_body]
fn nanos_since(start: &Instant) -> u128 {
    start.elapsed().as_nanos()
}

/// One throughput sample.
pub struct PerformanceStats {
    /// Attempts since the previous sample (0 if the counter went backwards).
    pub attempts_delta: u64,
    /// Nanoseconds since the previous sample.
    pub interval_nanos: u128,
    /// Nanoseconds since the calculator was created.
    pub elapsed_nanos: u128,
    /// Attempts so far.
    pub total_attempts: u64,
}

/// Keys per second in hundredths: `delta` attempts over `interval_nanos`, rounded to the
/// nearest hundredth (halves up) and capped at `u64::MAX`; 0 when no time has passed.
pub open spec fn rate_hundredths_of(delta: u64, interval_nanos: u128) -> int {
    let num = (delta as int) * 100_000_000_000;
    let i = interval_nanos as int;
    let q = num / i + (if num % i >= i - num % i { 1int } else { 0int });
    if interval_nanos == 0 {
        0
    } else if q > u64::MAX as int {
        u64::MAX as int
    } else {
        q
    }
}

impl PerformanceStats {
    /// The sample's throughput in hundredths of a key per second.
    pub fn rate_hundredths(&self) -> (r: u64)
        ensures
            r == rate_hundredths_of(self.attempts_delta, self.interval_nanos),
    {
        let i = self.interval_nanos;
        if i == 0 {
            return 0;
        }
        let num: u128 = (self.attempts_delta as u128) * 100_000_000_000;
        let rem: u128 = num % i;
        let q: u128 = if rem >= i - rem { num / i + 1 } else { num / i };
        if q > u64::MAX as u128 {
            u64::MAX
        } else {
            q as u64
        }
    }
}

/// Tracks the attempt counter between samples.
pub struct StatsCalculator {
    start_time: Instant,
    last_update_nanos: u128,
    last_attempts: u64,
}

impl StatsCalculator {
    /// The start of the run, the reading every measurement is taken from.
    pub closed spec fn start(&self) -> Instant {
        self.start_time
    }

    /// The previous sample's reading, in nanoseconds since the start (0 before any sample).
    pub closed spec fn last_update(&self) -> u128 {
        self.last_update_nanos
    }

    /// The attempt count of the previous sample.
    pub closed spec fn last_attempts(&self) -> u64 {
        self.last_attempts
    }

    /// Starts tracking now, with no attempts seen: the previous sample is the start itself.
    pub fn new() -> (calc: Self)
        ensures
            calc.last_attempts() == 0,
            calc.last_update() == 0,
    {
        StatsCalculator { start_time: clock_now(), last_update_nanos: 0, last_attempts: 0 }
    }

    /// Takes a sample at the current attempt count: the attempts and the time since the
    /// previous sample, which this sample then replaces.
    pub fn calculate(&mut self, current_attempts: u64) -> (stats: PerformanceStats)
        ensures
            stats.total_attempts == current_attempts,
            stats.attempts_delta == (if current_attempts >= old(self).last_attempts() {
                current_attempts - old(self).last_attempts()
            } else {
                0
            }),
            stats.interval_nanos == (if stats.elapsed_nanos >= old(self).last_update() {
                stats.elapsed_nanos - old(self).last_update()
            } else {
                0
            }),
            final(self).last_update() == stats.elapsed_nanos,
            final(self).last_attempts() == current_attempts,
            final(self).start() == old(self).start(),
    {
        let now = nanos_since(&self.start_time);
        let attempts_delta = current_attempts.saturating_sub(self.last_attempts);
        let interval_nanos = now.saturating_sub(self.last_update_nanos);
        self.last_update_nanos = now;
        self.last_attempts = current_attempts;
        PerformanceStats { attempts_delta, interval_nanos, elapsed_nanos: now, total_attempts: current_attempts }
    }

    /// Nanoseconds since the calculator was created, read from `start()`, which no sample
    /// changes.
    pub fn elapsed(&self) -> u128 {
        nanos_since(&self.start_time)
    }
}

} // verus!
