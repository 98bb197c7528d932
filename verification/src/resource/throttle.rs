//! Adaptive CPU throttling: how long a worker sleeps to keep its CPU use at the limit.
//!
//! The clock is read, and the sleep performed, by the caller; the throttler decides.

use vstd::prelude::*;

verus! {

/// Interval between two adjustments of the sleep time (100 ms).
pub const CHECK_INTERVAL_NANOS: u64 = 100_000_000;

/// The sleep that keeps the work share at `limit` percent after `work_nanos` of work:
/// `work * (100 - limit) / limit`, rounded up (the whole work time when the limit is 0, and no
/// sleep at 100 % or more).
pub open spec fn desired_sleep(limit: u8, work_nanos: u64) -> nat {
    if limit == 0 {
        work_nanos as nat
    } else if limit >= 100 {
        0
    } else {
        ((work_nanos * (100 - limit) + limit - 1) / (limit as int)) as nat
    }
}

/// Law: for a limit between 1 and 99 percent, the work done in a check interval followed by
/// the sleep the throttler then takes uses at most the limit's share of the time:
/// `work / (work + sleep) <= limit / 100`.
pub proof fn lemma_cpu_share_within_limit(limit: u8, work_nanos: u64)
    requires
        1 <= limit <= 99,
    ensures
        100 * work_nanos <= limit * (work_nanos + desired_sleep(limit, work_nanos)),
        desired_sleep(limit, work_nanos) * limit >= work_nanos * (100 - limit),
{
    let p = limit as int;
    let a = work_nanos * (100 - p);
    let s = desired_sleep(limit, work_nanos) as int;
    assert(s == (a + p - 1) / p);
    assert(s * p >= a) by (nonlinear_arith)
        requires
            s == (a + p - 1) / p,
            p >= 1,
            a >= 0;
    assert(100 * work_nanos <= p * (work_nanos + s)) by (nonlinear_arith)
        requires
            s * p >= work_nanos * (100 - p),
            p >= 1;
}

/// What the caller does after a call of `maybe_sleep`.
#[derive(Clone, Copy, Debug, PartialEq, Eq, Structural)]
pub struct ThrottleStep {
    /// Nanoseconds to sleep now (0: do not sleep).
    pub sleep_nanos: u128,
    /// Restart the clock that measures the time since the last adjustment.
    pub reset_clock: bool,
}

/// Adaptive CPU throttler that adjusts its sleep time to the configured CPU limit percentage.
pub struct Throttler {
    cpu_limit_percent: u8,
    sleep_nanos: u128,
}

impl Throttler {
    /// The configured CPU limit in percent.
    pub closed spec fn limit(&self) -> u8 {
        self.cpu_limit_percent
    }

    /// The current sleep per call, in nanoseconds.
    pub closed spec fn sleep(&self) -> u128 {
        self.sleep_nanos
    }

    /// A throttler for the given limit, not sleeping yet.
    pub fn new(cpu_limit_percent: u8) -> (t: Self)
        ensures
            t.limit() == cpu_limit_percent,
            t.sleep() == 0,
    {
        Throttler { cpu_limit_percent, sleep_nanos: 0 }
    }

    /// Called periodically in the generation loop with the time since the clock was last
    /// restarted. At 100 % it never sleeps. Otherwise, once a check interval has passed, it sets
    /// the sleep to `desired_sleep` of that time and asks for a clock restart; the current sleep
    /// is returned in every case.
    pub fn maybe_sleep(&mut self, elapsed_nanos: u64) -> (step: ThrottleStep)
        ensures
            final(self).limit() == old(self).limit(),
            old(self).limit() >= 100 ==> step == (ThrottleStep { sleep_nanos: 0, reset_clock: false })
                && final(self).sleep() == old(self).sleep(),
            old(self).limit() < 100 && elapsed_nanos >= CHECK_INTERVAL_NANOS ==> {
                &&& final(self).sleep() == desired_sleep(old(self).limit(), elapsed_nanos)
                &&& step == (ThrottleStep { sleep_nanos: final(self).sleep(), reset_clock: true })
            },
            old(self).limit() < 100 && elapsed_nanos < CHECK_INTERVAL_NANOS ==> {
                &&& final(self).sleep() == old(self).sleep()
                &&& step == (ThrottleStep { sleep_nanos: old(self).sleep(), reset_clock: false })
            },
    {
        if self.cpu_limit_percent >= 100 {
            return ThrottleStep { sleep_nanos: 0, reset_clock: false };
        }
        if elapsed_nanos >= CHECK_INTERVAL_NANOS {
            let limit = self.cpu_limit_percent;
            let sleep: u128 = if limit == 0 {
                elapsed_nanos as u128
            } else {
                let idle: u128 = (100 - limit) as u128;
                let work: u128 = elapsed_nanos as u128;
                let p: u128 = limit as u128;
                assert(work * idle <= 0xFFFF_FFFF_FFFF_FFFF * 100) by (nonlinear_arith)
                    requires work <= 0xFFFF_FFFF_FFFF_FFFF, idle <= 100;
                (work * idle + p - 1) / p
            };
            self.sleep_nanos = sleep;
            return ThrottleStep { sleep_nanos: sleep, reset_clock: true };
        }
        ThrottleStep { sleep_nanos: self.sleep_nanos, reset_clock: false }
    }
}

} // verus!
