//! The moment the last request went out, from which a latency is measured.

use vstd::prelude::*;

verus! {

/// `time::precise_time_ns`: the value of a high-resolution counter, in
/// nanoseconds since an epoch of its own. Nothing is claimed of the value:
/// two calls may return anything, and in any order.
pub assume_specification[ time::precise_time_ns ]() -> (now: u64);

/// The time from `start` to `now`, or `None` when `now` is the earlier one.
pub open spec fn time_between(start: nat, now: u64) -> Option<u64> {
    if start <= now {
        Some((now - start) as u64)
    } else {
        None
    }
}

/// When the last request of a connection was handed on, in nanoseconds.
#[derive(Clone, Copy, Debug)]
pub struct StartTime {
    ns: u64,
}

impl View for StartTime {
    type V = nat;

    closed spec fn view(&self) -> nat {
        self.ns as nat
    }
}

impl StartTime {
    /// The start time of a connection that has handed on no request.
    pub fn new() -> (s: Self)
        ensures
            s@ == 0,
    {
        StartTime { ns: 0 }
    }

    /// Moves the start time to `now`.
    pub fn stamp_at(&mut self, now: u64)
        ensures
            final(self)@ == now,
    {
        self.ns = now;
    }

    /// Moves the start time to the present and returns what the clock showed.
    pub fn stamp(&mut self) -> (now: u64)
        ensures
            final(self)@ == now,
    {
        let now: u64 = time::precise_time_ns();
        self.stamp_at(now);
        now
    }

    /// The time from the start time to `now`.
    pub fn elapsed_at(&self, now: u64) -> (ns: u64)
        requires
            self@ <= now,
        ensures
            ns == now - self@,
    {
        now - self.ns
    }

    /// The time from the start time to `now`, or `None` when `now` is the
    /// earlier one.
    pub fn checked_elapsed_at(&self, now: u64) -> (r: Option<u64>)
        ensures
            r == time_between(self@, now),
            match r {
                Some(ns) => self@ + ns == now,
                None => now < self@,
            },
    {
        if self.ns <= now {
            Some(self.elapsed_at(now))
        } else {
            None
        }
    }

    /// The time from the start time to the present, or `None` when the clock
    /// shows an earlier time than the start time; and what the clock showed.
    pub fn elapsed(&self) -> (r: (Option<u64>, u64))
        ensures
            r.0 == time_between(self@, r.1),
            match r.0 {
                Some(ns) => self@ + ns == r.1,
                None => r.1 < self@,
            },
    {
        let now: u64 = time::precise_time_ns();
        (self.checked_elapsed_at(now), now)
    }
}

} // verus!
