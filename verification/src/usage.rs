//! The usage percentage between two counter snapshots.

use vstd::prelude::*;
use crate::counter::CpuTime;

verus! {

/// A whole-number percentage. A meaningful one lies in `0..=100`.
#[derive(Debug, Clone, Copy, PartialEq, Eq)]
pub struct Percantage(pub u8);

impl Percantage {
    /// The percentage does not exceed one hundred.
    pub open spec fn valid(self) -> bool {
        self.0 <= 100
    }
}

/// The payload handed to subscribers once per sampling interval.
#[derive(Debug, Clone, Copy, PartialEq, Eq)]
pub struct SystemMonitorMessage {
    pub total_cpu_usage: Percantage,
}

/// The accumulators of `curr` lie behind those of `prev`: the counters were
/// reset between the two readings.
pub open spec fn is_discontinuity(prev: CpuTime, curr: CpuTime) -> bool {
    curr.total() < prev.total() || curr.work() < prev.work()
}

/// `100 * busy / total`, rounded to the nearest whole number, halves upward.
pub open spec fn rounded_percent(busy: nat, total: nat) -> nat
    recommends
        total > 0,
{
    (200 * busy + total) / (2 * total)
}

/// The usage reported for the interval between two snapshots: zero across a
/// discontinuity or when no time has passed, else the rounded share of
/// working time in the elapsed time, capped at one hundred.
pub open spec fn usage_between(prev: CpuTime, curr: CpuTime) -> nat {
    if is_discontinuity(prev, curr) || curr.total() == prev.total() {
        0
    } else {
        let percent = rounded_percent(
            (curr.work() - prev.work()) as nat,
            (curr.total() - prev.total()) as nat,
        );
        if percent > 100 {
            100
        } else {
            percent
        }
    }
}

/// The usage between any two snapshots is a percentage.
pub proof fn usage_is_a_percentage(prev: CpuTime, curr: CpuTime)
    ensures
        usage_between(prev, curr) <= 100,
        usage_between(prev, prev) == 0,
{
}

/// The rounded percentage is the whole number nearest to the exact quotient:
/// it lies within half a unit of `100 * busy / total`, the upper half excluded.
pub proof fn rounded_percent_is_nearest(busy: nat, total: nat)
    requires
        total > 0,
    ensures
        2 * (rounded_percent(busy, total) * total) <= 200 * busy + total,
        200 * busy + total < 2 * (rounded_percent(busy, total) * total) + 2 * total,
{
    let n = (200 * busy + total) as int;
    let d = (2 * total) as int;
    vstd::arithmetic::div_mod::lemma_fundamental_div_mod(n, d);
    vstd::arithmetic::div_mod::lemma_mod_bound(n, d);
    let q = n / d;
    assert(d * q == 2 * (q * total)) by (nonlinear_arith)
        requires
            d == 2 * total,
    ;
}

/// Working time that is part of the elapsed time gives at most one hundred
/// percent before any capping.
pub proof fn rounded_percent_of_part(busy: nat, total: nat)
    requires
        total > 0,
        busy <= total,
    ensures
        rounded_percent(busy, total) <= 100,
{
    let n = (200 * busy + total) as int;
    let d = (2 * total) as int;
    vstd::arithmetic::div_mod::lemma_div_by_multiple_is_strongly_ordered(n, 101 * d, 101, d);
    vstd::arithmetic::div_mod::lemma_div_by_multiple(101, d);
}

/// Computes the usage percentage for the interval from `old_stats` to
/// `new_stats`.
pub fn calculate_cpu_usage(old_stats: &CpuTime, new_stats: &CpuTime) -> (usage: Percantage)
    ensures
        usage.0 == usage_between(*old_stats, *new_stats),
        usage.valid(),
        *old_stats == *new_stats ==> usage.0 == 0,
{
    if new_stats.total_time() <= old_stats.total_time() || new_stats.work_time()
        < old_stats.work_time() {
        return Percantage(0);
    }
    let busy: u128 = (new_stats.work_time() - old_stats.work_time()) as u128;
    let total: u128 = (new_stats.total_time() - old_stats.total_time()) as u128;
    let percent: u128 = (200 * busy + total) / (2 * total);
    if percent > 100 {
        Percantage(100)
    } else {
        Percantage(percent as u8)
    }
}

} // verus!
