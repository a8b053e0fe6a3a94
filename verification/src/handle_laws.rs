//! What the handles of proxies share. A clone of a handle is a handle of the
//! same proxy; each proxy that is made is one of its own.

use crate::async_proxy::{AsyncMeterProxy, BYTES_PER_KBYTE};
use crate::meters::Reading;
use crate::proxy::{MeterProxy, NS_PER_MS};
use vstd::prelude::*;

verus! {

/// The threaded proxies of a process, which of them each handle stands for,
/// and the meters of the process.
pub struct Process {
    pub proxies: Seq<MeterProxy>,
    pub handles: Seq<int>,
    pub num_bytes: nat,
    pub time_table: Seq<u64>,
}

impl Process {
    /// Whether there is a handle `h`, and a proxy for it.
    pub open spec fn has(self, h: int) -> bool {
        0 <= h < self.handles.len() && 0 <= self.handles[h] < self.proxies.len()
    }

    /// Whether every handle stands for a proxy.
    pub open spec fn is_valid(self) -> bool {
        forall|h: int| 0 <= h < self.handles.len() ==> 0 <= #[trigger] self.handles[h]
            < self.proxies.len()
    }

    /// The proxy that a handle stands for.
    pub open spec fn proxy(self, h: int) -> MeterProxy {
        self.proxies[self.handles[h]]
    }

    /// Whether two handles stand for one proxy.
    pub open spec fn are_one(self, h: int, j: int) -> bool {
        self.handles[h] == self.handles[j]
    }

    /// A proxy is made, not stopped, with the first handle of it.
    pub open spec fn makes(self, then: Process) -> bool {
        &&& then.proxies.len() == self.proxies.len() + 1
        &&& !then.proxies.last().reset_lock_flag
        &&& then == (Process {
            proxies: self.proxies.push(then.proxies.last()),
            handles: self.handles.push(self.proxies.len() as int),
            ..self
        })
    }

    /// The handle `h` is cloned.
    pub open spec fn clones(self, then: Process, h: int) -> bool {
        &&& self.has(h)
        &&& then == (Process { handles: self.handles.push(self.handles[h]), ..self })
    }

    /// The proxy of the handle `h` is stopped and the meters are cleared.
    pub open spec fn stops(self, then: Process, h: int) -> bool {
        &&& self.has(h)
        &&& then.proxies.len() == self.proxies.len()
        &&& then.proxy(h).is_stopped(self.proxy(h))
        &&& then == (Process {
            proxies: self.proxies.update(self.handles[h], then.proxy(h)),
            num_bytes: 0,
            time_table: Seq::empty(),
            ..self
        })
    }

    /// The connections report to the meters.
    pub open spec fn reports(self, then: Process) -> bool {
        then == (Process { num_bytes: then.num_bytes, time_table: then.time_table, ..self })
    }

    /// Whether the process goes from `self` to `then` in one step.
    pub open spec fn goes(self, then: Process) -> bool {
        ||| self.makes(then)
        ||| exists|h: int| #[trigger] self.clones(then, h)
        ||| exists|h: int| #[trigger] self.stops(then, h)
        ||| self.reports(then)
    }
}

/// A clone is one with the handle that it was made from, and a handle of a new
/// proxy is one with no other.
pub proof fn clones_share_and_new_proxies_do_not(s: Process, t: Process, h: int)
    requires
        s.is_valid(),
        s.has(h),
    ensures
        s.clones(t, h) ==> t.are_one(h, t.handles.len() - 1),
        s.makes(t) ==> !t.are_one(h, t.handles.len() - 1),
{
    assert(0 <= s.handles[h] < s.proxies.len());
}

/// Handles that are one stay one, and those that are not never become so; a
/// handle keeps its proxy's route; and a proxy that is stopped stays stopped.
pub proof fn handles_keep_their_proxy(s: Process, t: Process, h: int, j: int)
    requires
        s.is_valid(),
        s.has(h),
        s.has(j),
        s.goes(t),
    ensures
        t.is_valid(),
        t.has(h),
        t.are_one(h, j) == s.are_one(h, j),
        t.proxy(h).same_route(s.proxy(h)),
        s.proxy(h).reset_lock_flag ==> t.proxy(h).reset_lock_flag,
{
    assert(t.handles[h] == s.handles[h]);
    assert(t.handles[j] == s.handles[j]);
    assert forall|k: int| 0 <= k < t.handles.len() implies 0 <= #[trigger] t.handles[k]
        < t.proxies.len() by {
        if k < s.handles.len() {
            assert(t.handles[k] == s.handles[k]);
            assert(0 <= s.handles[k] < s.proxies.len());
        }
    }
}

/// Stopping a proxy through one handle stops it for every handle of it, and for
/// no handle of another; the meters, which all proxies of a process share, are
/// cleared for all.
pub proof fn stopping_reaches_every_handle(s: Process, t: Process, h: int, j: int)
    requires
        s.is_valid(),
        s.stops(t, h),
        s.has(j),
    ensures
        s.are_one(h, j) ==> t.proxy(j).reset_lock_flag,
        !s.are_one(h, j) ==> t.proxy(j) == s.proxy(j),
        t.num_bytes == 0,
        t.time_table == Seq::<u64>::empty(),
{
}

/// The event-driven proxies of a process, each with its own meters, and which
/// of them each handle stands for.
pub struct AsyncProcess {
    pub proxies: Seq<AsyncMeterProxy>,
    pub handles: Seq<int>,
}

impl AsyncProcess {
    /// Whether there is a handle `h`, and a proxy for it.
    pub open spec fn has(self, h: int) -> bool {
        0 <= h < self.handles.len() && 0 <= self.handles[h] < self.proxies.len()
    }

    /// Whether every handle stands for a proxy.
    pub open spec fn is_valid(self) -> bool {
        forall|h: int| 0 <= h < self.handles.len() ==> 0 <= #[trigger] self.handles[h]
            < self.proxies.len()
    }

    /// The proxy that a handle stands for.
    pub open spec fn proxy(self, h: int) -> AsyncMeterProxy {
        self.proxies[self.handles[h]]
    }

    /// Whether two handles stand for one proxy.
    pub open spec fn are_one(self, h: int, j: int) -> bool {
        self.handles[h] == self.handles[j]
    }

    /// A proxy is made, with its meters at zero, with the first handle of it.
    pub open spec fn makes(self, then: AsyncProcess) -> bool {
        &&& then.proxies.len() == self.proxies.len() + 1
        &&& then.proxies.last().is_reset(then.proxies.last())
        &&& then == (AsyncProcess {
            proxies: self.proxies.push(then.proxies.last()),
            handles: self.handles.push(self.proxies.len() as int),
        })
    }

    /// The handle `h` is cloned.
    pub open spec fn clones(self, then: AsyncProcess, h: int) -> bool {
        &&& self.has(h)
        &&& then == (AsyncProcess { handles: self.handles.push(self.handles[h]), ..self })
    }

    /// The meters of the proxy of the handle `h` are put to zero.
    pub open spec fn resets(self, then: AsyncProcess, h: int) -> bool {
        &&& self.has(h)
        &&& then.proxies.len() == self.proxies.len()
        &&& then.proxy(h).is_reset(self.proxy(h))
        &&& then == (AsyncProcess {
            proxies: self.proxies.update(self.handles[h], then.proxy(h)),
            ..self
        })
    }

    /// A connection of the proxy of the handle `h` reports to its meters, which
    /// only adds to them.
    pub open spec fn reports(self, then: AsyncProcess, h: int) -> bool {
        &&& self.has(h)
        &&& then.proxies.len() == self.proxies.len()
        &&& then.proxy(h).num_bytes >= self.proxy(h).num_bytes
        &&& then.proxy(h).num_resp >= self.proxy(h).num_resp
        &&& self.proxy(h).times@.is_prefix_of(then.proxy(h).times@)
        &&& then.proxy(h).same_route(self.proxy(h))
        &&& then == (AsyncProcess {
            proxies: self.proxies.update(self.handles[h], then.proxy(h)),
            ..self
        })
    }

    /// Whether the process goes from `self` to `then` in one step.
    pub open spec fn goes(self, then: AsyncProcess) -> bool {
        ||| self.makes(then)
        ||| exists|h: int| #[trigger] self.clones(then, h)
        ||| exists|h: int| #[trigger] self.resets(then, h)
        ||| exists|h: int| #[trigger] self.reports(then, h)
    }
}

/// A clone is one with the handle that it was made from, and a handle of a new
/// event-driven proxy is one with no other.
pub proof fn async_clones_share_and_new_proxies_do_not(s: AsyncProcess, t: AsyncProcess, h: int)
    requires
        s.is_valid(),
        s.has(h),
    ensures
        s.clones(t, h) ==> t.are_one(h, t.handles.len() - 1),
        s.makes(t) ==> !t.are_one(h, t.handles.len() - 1),
{
    assert(0 <= s.handles[h] < s.proxies.len());
}

/// Handles of event-driven proxies that are one stay one, and those that are
/// not never become so; and a handle keeps its proxy's route.
pub proof fn async_handles_keep_their_proxy(s: AsyncProcess, t: AsyncProcess, h: int, j: int)
    requires
        s.is_valid(),
        s.has(h),
        s.has(j),
        s.goes(t),
    ensures
        t.is_valid(),
        t.has(h),
        t.are_one(h, j) == s.are_one(h, j),
        t.proxy(h).same_route(s.proxy(h)),
{
    assert(t.handles[h] == s.handles[h]);
    assert(t.handles[j] == s.handles[j]);
    assert forall|k: int| 0 <= k < t.handles.len() implies 0 <= #[trigger] t.handles[k]
        < t.proxies.len() by {
        if k < s.handles.len() {
            assert(t.handles[k] == s.handles[k]);
            assert(0 <= s.handles[k] < s.proxies.len());
        }
    }
}

/// What a connection reports to one proxy, every handle of that proxy sees, and
/// no handle of another.
pub proof fn reports_reach_every_handle(s: AsyncProcess, t: AsyncProcess, h: int, j: int)
    requires
        s.is_valid(),
        s.reports(t, h),
        s.has(j),
    ensures
        s.are_one(h, j) ==> t.proxy(j) == t.proxy(h),
        !s.are_one(h, j) ==> t.proxy(j) == s.proxy(j),
{
}

/// What a proxy shows when its meters are at zero: no kilobytes, and a latency
/// of zero.
pub open spec fn shows_zero(p: AsyncMeterProxy) -> bool {
    &&& p.kbytes() == (Reading { sum: 0, count: 1, unit: BYTES_PER_KBYTE })
    &&& p.latency() == (Reading { sum: 0, count: 1, unit: NS_PER_MS })
}

/// A new event-driven proxy shows zero.
pub proof fn new_proxy_shows_zero(s: AsyncProcess, t: AsyncProcess)
    requires
        s.makes(t),
    ensures
        shows_zero(t.proxy(t.handles.len() - 1)),
{
}

/// Putting the meters to zero through one handle does so for every handle of
/// the proxy, which then shows zero kilobytes and a latency of zero, and for no
/// handle of another.
pub proof fn reset_reaches_every_handle(s: AsyncProcess, t: AsyncProcess, h: int, j: int)
    requires
        s.is_valid(),
        s.resets(t, h),
        s.has(j),
    ensures
        s.are_one(h, j) ==> shows_zero(t.proxy(j)) && t.proxy(j).num_resp == 0,
        !s.are_one(h, j) ==> t.proxy(j) == s.proxy(j),
        t.are_one(h, j) == s.are_one(h, j),
{
}

/// A second reset changes nothing.
pub proof fn reset_twice_is_reset_once(
    before: AsyncMeterProxy,
    once: AsyncMeterProxy,
    twice: AsyncMeterProxy,
)
    requires
        once.is_reset(before),
        twice.is_reset(once),
    ensures
        twice.num_bytes == once.num_bytes,
        twice.num_resp == once.num_resp,
        twice.times@ == once.times@,
        twice.kbytes() == once.kbytes(),
        twice.latency() == once.latency(),
        twice.same_route(once),
{
}

} // verus!
