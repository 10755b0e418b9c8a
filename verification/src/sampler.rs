//! One step of the periodic sampler: from the stored baseline and a new
//! reading to the next baseline and the message that goes out.

use vstd::prelude::*;
use crate::broadcast::Channel;
use crate::counter::CpuTime;
use crate::usage::{
    calculate_cpu_usage, is_discontinuity, usage_between, Percantage, SystemMonitorMessage,
};
use crate::error::SourceError;

verus! {

/// Seconds between two samples.
pub const SAMPLE_PERIOD_SECS: u64 = 3;

/// What one sampling step did.
#[derive(Debug, Clone, Copy, PartialEq, Eq)]
pub enum TickOutcome {
    /// The reading was taken as the new baseline and this message was
    /// published.
    Published(SystemMonitorMessage),
    /// The reading was taken as the new baseline, but the channel refused the
    /// message: it is closed, or its count is exhausted.
    Refused(SystemMonitorMessage),
    /// The reading failed; baseline and channel are untouched.
    Skipped(SourceError),
}

impl TickOutcome {
    /// The usage that the step computed, if the reading succeeded.
    pub open spec fn reported_usage(self) -> Option<u8> {
        match self {
            TickOutcome::Published(msg) => Some(msg.total_cpu_usage.0),
            TickOutcome::Refused(msg) => Some(msg.total_cpu_usage.0),
            TickOutcome::Skipped(_) => None,
        }
    }
}

/// The sampler's state between two ticks: the snapshot to measure against.
#[derive(Debug, Clone, Copy)]
pub struct Sampler {
    baseline: CpuTime,
}

/// The message that reports the interval from `prev` to `curr`.
pub open spec fn message_between(prev: CpuTime, curr: CpuTime) -> SystemMonitorMessage {
    SystemMonitorMessage { total_cpu_usage: Percantage(usage_between(prev, curr) as u8) }
}

impl Sampler {
    /// The snapshot the next reading is measured against.
    pub closed spec fn baseline(self) -> CpuTime {
        self.baseline
    }

    /// Starts from an initial snapshot.
    pub fn new(initial: CpuTime) -> (sampler: Sampler)
        ensures
            sampler.baseline() == initial,
    {
        Sampler { baseline: initial }
    }

    /// The current baseline.
    pub fn current_baseline(&self) -> (baseline: CpuTime)
        ensures
            baseline == self.baseline(),
    {
        self.baseline
    }

    /// Handles the outcome of one attempt to read the counters.
    ///
    /// A successful reading becomes the new baseline, and the usage since the
    /// old one is offered to `channel`; across a discontinuity that usage is
    /// zero. A failed reading changes nothing and is handed back.
    pub fn tick(&mut self, channel: &mut Channel, reading: Result<CpuTime, SourceError>) -> (outcome:
        TickOutcome)
        ensures
            match reading {
                Ok(curr) => {
                    let msg = message_between(old(self).baseline(), curr);
                    &&& final(self).baseline() == curr
                    &&& final(channel)@ == old(channel)@.offered(msg)
                    &&& outcome == if old(channel)@.accepts() {
                        TickOutcome::Published(msg)
                    } else {
                        TickOutcome::Refused(msg)
                    }
                },
                Err(e) => {
                    &&& *final(self) == *old(self)
                    &&& *final(channel) == *old(channel)
                    &&& outcome == TickOutcome::Skipped(e)
                },
            },
            reading matches Ok(curr) ==> (is_discontinuity(old(self).baseline(), curr) ==> {
                &&& final(self).baseline() == curr
                &&& outcome.reported_usage() == Some(0u8)
            }),
    {
        match reading {
            Ok(curr) => {
                let usage = calculate_cpu_usage(&self.baseline, &curr);
                let msg = SystemMonitorMessage { total_cpu_usage: usage };
                self.baseline = curr;
                if channel.publish(msg) {
                    TickOutcome::Published(msg)
                } else {
                    TickOutcome::Refused(msg)
                }
            },
            Err(e) => TickOutcome::Skipped(e),
        }
    }
}

} // verus!
