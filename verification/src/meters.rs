//! What the proxy measures: a byte counter for the throughput and a table of
//! times for the latency. Every connection reports to the same pair.

use crate::sums::{map_ignores_order, sum, sum_ignores_order};
use vstd::prelude::*;

verus! {

/// The number `sum / count / unit`, kept as the three integers it is made of.
/// It is no number when `count` is zero.
#[derive(Clone, Copy, Debug, PartialEq, Eq, Structural)]
pub struct Reading {
    pub sum: u64,
    pub count: u64,
    pub unit: u64,
}

impl Reading {
    /// The reading, or zero where it is no number.
    pub fn or_zero(self) -> (r: Reading)
        ensures
            self.count > 0 ==> r == self,
            self.count == 0 ==> r == (Reading { sum: 0, count: 1, unit: self.unit }),
    {
        if self.count > 0 {
            self
        } else {
            Reading { sum: 0, count: 1, unit: self.unit }
        }
    }
}

/// The sum of a row of values.
pub open spec fn total(s: Seq<u64>) -> nat {
    sum(s.map_values(|v: u64| v as nat))
}

/// The last value of a row adds to the sum of those before it.
proof fn total_by_last(s: Seq<u64>)
    requires
        s.len() > 0,
    ensures
        total(s) == total(s.drop_last()) + s.last(),
{
    let widened = s.map_values(|v: u64| v as nat);
    assert(widened.drop_last() =~= s.drop_last().map_values(|v: u64| v as nat));
}

/// A running count of bytes.
#[derive(Debug)]
pub struct SharedCounter {
    count: usize,
}

impl View for SharedCounter {
    type V = nat;

    closed spec fn view(&self) -> nat {
        self.count as nat
    }
}

impl SharedCounter {
    /// A counter at zero.
    pub fn new() -> (c: Self)
        ensures
            c@ == 0,
    {
        SharedCounter { count: 0 }
    }

    /// Adds `quantity` to the count.
    pub fn increment(&mut self, quantity: usize)
        requires
            old(self)@ + quantity <= usize::MAX,
        ensures
            final(self)@ == old(self)@ + quantity,
    {
        self.count = self.count + quantity;
    }

    /// The count so far.
    pub fn get(&self) -> (n: usize)
        ensures
            n == self@,
    {
        self.count
    }

    /// Puts the count back to zero.
    pub fn reset(&mut self)
        ensures
            final(self)@ == 0,
    {
        self.count = 0;
    }
}

/// The counts that a counter shows before and after each of a row of
/// increments.
pub open spec fn is_tally(counts: Seq<nat>, quantities: Seq<nat>) -> bool {
    &&& counts.len() == quantities.len() + 1
    &&& forall|i: int|
        0 <= i < quantities.len() ==> #[trigger] counts[i + 1] == counts[i] + quantities[i]
}

/// No increment is lost: after a row of them the counter shows what it showed
/// before and their sum.
pub proof fn increments_add_up(counts: Seq<nat>, quantities: Seq<nat>)
    requires
        is_tally(counts, quantities),
    ensures
        counts.last() == counts[0] + sum(quantities),
    decreases quantities.len(),
{
    if quantities.len() > 0 {
        let fewer = counts.drop_last();
        let rest = quantities.drop_last();
        let last = quantities.len() - 1;
        assert(counts[last + 1] == counts[last] + quantities[last]);
        assert forall|i: int| 0 <= i < rest.len() implies #[trigger] fewer[i + 1] == fewer[i]
            + rest[i] by {
            assert(counts[i + 1] == counts[i] + quantities[i]);
        }
        increments_add_up(fewer, rest);
    }
}

/// Whatever the order in which the connections make their increments, the
/// counter shows the same in the end.
pub proof fn increments_ignore_order(
    a: Seq<nat>,
    quantities_a: Seq<nat>,
    b: Seq<nat>,
    quantities_b: Seq<nat>,
)
    requires
        is_tally(a, quantities_a),
        is_tally(b, quantities_b),
        a[0] == b[0],
        quantities_a.to_multiset() == quantities_b.to_multiset(),
    ensures
        a.last() == b.last(),
{
    increments_add_up(a, quantities_a);
    increments_add_up(b, quantities_b);
    sum_ignores_order(quantities_a, quantities_b);
}

/// A table of measured times, in nanoseconds, in the order they came in.
#[derive(Debug)]
pub struct SharedTimeVec {
    times: Vec<u64>,
}

impl View for SharedTimeVec {
    type V = Seq<u64>;

    closed spec fn view(&self) -> Seq<u64> {
        self.times@
    }
}

impl SharedTimeVec {
    /// An empty table.
    pub fn new() -> (t: Self)
        ensures
            t@ == Seq::<u64>::empty(),
    {
        SharedTimeVec { times: Vec::new() }
    }

    /// Appends `value` to the table.
    pub fn insert(&mut self, value: u64)
        ensures
            final(self)@ == old(self)@.push(value),
    {
        self.times.push(value);
    }

    /// The sum of the table, or `None` when it does not fit in 64 bits.
    pub fn checked_sum(&self) -> (r: Option<u64>)
        ensures
            match r {
                Some(sum) => sum == total(self@),
                None => total(self@) > u64::MAX,
            },
    {
        let mut sum: u64 = 0;
        let mut i: usize = 0;
        while i < self.times.len()
            invariant
                i <= self.times@.len(),
                sum == total(self.times@.take(i as int)),
            decreases self.times@.len() - i,
        {
            proof {
                total_by_last(self.times@.take(i + 1));
                assert(self.times@.take(i + 1).drop_last() =~= self.times@.take(i as int));
                total_of_prefix(self.times@, i + 1);
            }
            match sum.checked_add(self.times[i]) {
                Some(more) => {
                    sum = more;
                },
                None => {
                    return None;
                },
            }
            i = i + 1;
        }
        assert(self.times@.take(i as int) =~= self.times@);
        Some(sum)
    }

    /// The mean of the table.
    pub fn get_avg_value(&self) -> (mean: Reading)
        requires
            total(self@) <= u64::MAX,
        ensures
            mean.sum == total(self@),
            mean.count == self@.len(),
            mean.unit == 1,
    {
        let sum: u64 = match self.checked_sum() {
            Some(sum) => sum,
            None => 0,
        };
        Reading { sum, count: self.times.len() as u64, unit: 1 }
    }

    /// Empties the table.
    pub fn reset(&mut self)
        ensures
            final(self)@ == Seq::<u64>::empty(),
    {
        self.times.clear();
    }
}

/// A prefix sums to no more than the whole.
proof fn total_of_prefix(s: Seq<u64>, k: int)
    requires
        0 <= k <= s.len(),
    ensures
        total(s.take(k)) <= total(s),
    decreases s.len() - k,
{
    if k == s.len() {
        assert(s.take(k) =~= s);
    } else {
        total_by_last(s.take(k + 1));
        assert(s.take(k + 1).drop_last() =~= s.take(k));
        total_of_prefix(s, k + 1);
    }
}

/// The mean lies between the smallest and the largest measured time.
pub proof fn mean_is_between(times: Seq<u64>, lo: u64, hi: u64)
    requires
        forall|i: int| 0 <= i < times.len() ==> lo <= #[trigger] times[i] <= hi,
    ensures
        lo * times.len() <= total(times) <= hi * times.len(),
    decreases times.len(),
{
    if times.len() > 0 {
        let rest = times.drop_last();
        assert forall|i: int| 0 <= i < rest.len() implies lo <= #[trigger] rest[i] <= hi by {
            assert(rest[i] == times[i]);
        }
        mean_is_between(rest, lo, hi);
        total_by_last(times);
        assert(lo * times.len() == lo * rest.len() + lo) by (nonlinear_arith)
            requires
                times.len() == rest.len() + 1,
        ;
        assert(hi * times.len() == hi * rest.len() + hi) by (nonlinear_arith)
            requires
                times.len() == rest.len() + 1,
        ;
    } else {
        assert(total(times) == 0);
    }
}

/// The mean does not depend on the order in which the connections put in
/// their measurements.
pub proof fn mean_ignores_order(a: Seq<u64>, b: Seq<u64>)
    requires
        a.to_multiset() == b.to_multiset(),
    ensures
        total(a) == total(b),
        a.len() == b.len(),
{
    let widen = |v: u64| v as nat;
    map_ignores_order(a, b, widen);
    sum_ignores_order(a.map_values(widen), b.map_values(widen));
}

} // verus!
