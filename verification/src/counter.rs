//! CPU-time counter snapshots and the reader of the counter source.

use vstd::prelude::*;
use crate::error::SourceError;
use crate::text::{
    after_prefix, lines, lines_of, parse_usize, parsed_usize, split_whitespace, strip_prefix,
    tokens_of, views_of,
};

verus! {

/// One reading of the cumulative CPU-time accumulators: all time, and the part
/// of it spent working. The working time never exceeds the total.
#[derive(Debug, Clone, Copy, PartialEq, Eq)]
pub struct CpuTime {
    total_time: usize,
    work_time: usize,
}

impl CpuTime {
    /// The accumulated total time.
    pub closed spec fn total(self) -> nat {
        self.total_time as nat
    }

    /// The accumulated working time.
    pub closed spec fn work(self) -> nat {
        self.work_time as nat
    }

    /// The snapshot's invariant: working time is part of total time.
    pub open spec fn wf(self) -> bool {
        self.work() <= self.total()
    }

    #[verifier::type_invariant]
    spec fn inv(self) -> bool {
        self.work_time <= self.total_time
    }

    /// Builds a snapshot from its two accumulators, if they are consistent.
    pub fn from_times(total_time: usize, work_time: usize) -> (snapshot: Option<CpuTime>)
        ensures
            snapshot is Some <==> work_time <= total_time,
            snapshot matches Some(s) ==> s.total() == total_time && s.work() == work_time && s.wf(),
    {
        if work_time <= total_time {
            Some(CpuTime { total_time, work_time })
        } else {
            None
        }
    }

    /// The accumulated total time.
    pub fn total_time(&self) -> (t: usize)
        ensures
            t == self.total(),
    {
        self.total_time
    }

    /// The accumulated working time.
    pub fn work_time(&self) -> (t: usize)
        ensures
            t == self.work(),
            self.wf(),
    {
        proof {
            use_type_invariant(self);
        }
        self.work_time
    }
}

/// The place of the idle time among the fields of a counter line.
pub const IDLE_FIELD: usize = 3;

/// The place of the time spent waiting for I/O among the fields of a counter
/// line.
pub const IOWAIT_FIELD: usize = 4;

/// What follows the `cpu` label on line `core` of the counter source, if the
/// source has that line and it carries the label. Line 0 is the aggregate of
/// all cores.
pub open spec fn counter_line(text: Seq<char>, core: nat) -> Option<Seq<char>> {
    let all = lines_of(text);
    if core < all.len() {
        after_prefix(all[core as int], "cpu"@)
    } else {
        None
    }
}

/// The numbers on a counter line, if each of its words spells a `usize`.
pub open spec fn counter_fields(rest: Seq<char>) -> Option<Seq<nat>> {
    let words = tokens_of(rest);
    if forall|i: int| 0 <= i < words.len() ==> parsed_usize(#[trigger] words[i]) is Some {
        Some(Seq::new(words.len(), |i: int| parsed_usize(words[i]).unwrap() as nat))
    } else {
        None
    }
}

/// The sum of a sequence of numbers.
pub open spec fn sum_of(values: Seq<nat>) -> nat
    decreases values.len(),
{
    if values.len() == 0 {
        0
    } else {
        sum_of(values.drop_last()) + values.last()
    }
}

/// Total and working time of a counter line's fields: the total is their sum,
/// which must fit in a `usize`; the working time is the total without the idle
/// and I/O-wait fields, which must both be there.
pub open spec fn times_of_fields(fields: Seq<nat>) -> Option<(nat, nat)> {
    if fields.len() > IOWAIT_FIELD && sum_of(fields) <= usize::MAX {
        Some(
            (
                sum_of(fields),
                (sum_of(fields) - fields[IDLE_FIELD as int] - fields[IOWAIT_FIELD as int]) as nat,
            ),
        )
    } else {
        None
    }
}

/// Total and working time that the counter source gives for line `core`, if
/// the source is well formed there.
pub open spec fn parsed_times(text: Seq<char>, core: nat) -> Option<(nat, nat)> {
    match counter_line(text, core) {
        Some(rest) => match counter_fields(rest) {
            Some(fields) => times_of_fields(fields),
            None => None,
        },
        None => None,
    }
}

/// The sum of the first `k` numbers is at most the sum of all.
pub proof fn lemma_sum_prefix(values: Seq<nat>, k: int)
    requires
        0 <= k <= values.len(),
    ensures
        sum_of(values.subrange(0, k)) <= sum_of(values),
    decreases values.len(),
{
    if k == values.len() {
        assert(values.subrange(0, k) == values);
    } else {
        assert(values.drop_last().subrange(0, k) == values.subrange(0, k));
        lemma_sum_prefix(values.drop_last(), k);
    }
}

impl CpuTime {
    /// Reads a snapshot from the text of the counter source, or from the fact
    /// that there is none. `cpu_core` selects the line; 0 is the aggregate of
    /// all cores.
    pub fn new(source: Option<&str>, cpu_core: u16) -> (snapshot: Result<CpuTime, SourceError>)
        ensures
            match source {
                None => snapshot == Err::<CpuTime, SourceError>(SourceError::SourceUnavailable),
                Some(text) => match parsed_times(text@, cpu_core as nat) {
                    Some((total, work)) => snapshot matches Ok(s) && s.total() == total && s.work()
                        == work && s.wf(),
                    None => snapshot == Err::<CpuTime, SourceError>(SourceError::MalformedSource),
                },
            },
    {
        let text = match source {
            Some(text) => text,
            None => { return Err(SourceError::SourceUnavailable); },
        };
        let all = lines(text);
        let core = cpu_core as usize;
        if core >= all.len() {
            return Err(SourceError::MalformedSource);
        }
        let rest = match strip_prefix(all[core], "cpu") {
            Some(rest) => rest,
            None => { return Err(SourceError::MalformedSource); },
        };
        let words = split_whitespace(rest);
        let ghost spelled = tokens_of(rest@);
        let ghost mut fields: Seq<nat> = Seq::empty();
        let mut total: usize = 0;
        let mut idle: usize = 0;
        let mut i: usize = 0;
        while i < words.len()
            invariant
                i <= words.len(),
                source == Some(text),
                counter_line(text@, cpu_core as nat) == Some(rest@),
                views_of(words@) == spelled,
                spelled == tokens_of(rest@),
                fields.len() == i,
                forall|j: int|
                    0 <= j < i ==> parsed_usize(#[trigger] spelled[j]) == Some(fields[j] as usize)
                        && fields[j] <= usize::MAX,
                total == sum_of(fields),
                idle <= total,
                idle == (if i > IDLE_FIELD {
                    fields[IDLE_FIELD as int]
                } else {
                    0
                }) + (if i > IOWAIT_FIELD {
                    fields[IOWAIT_FIELD as int]
                } else {
                    0
                }),
            decreases words.len() - i,
        {
            let value = match parse_usize(words[i]) {
                Some(value) => value,
                None => {
                    assert(parsed_usize(spelled[i as int]) is None);
                    return Err(SourceError::MalformedSource);
                },
            };
            let ghost longer = fields.push(value as nat);
            assert(longer.drop_last() == fields);
            if value > usize::MAX - total {
                proof {
                    if counter_fields(rest@) is Some {
                        let every = counter_fields(rest@).unwrap();
                        assert(every.subrange(0, i + 1) == longer);
                        lemma_sum_prefix(every, i + 1);
                    }
                }
                return Err(SourceError::MalformedSource);
            }
            total = total + value;
            if i == IDLE_FIELD || i == IOWAIT_FIELD {
                idle = idle + value;
            }
            proof {
                fields = longer;
            }
            i = i + 1;
        }
        assert(counter_fields(rest@) == Some(fields)) by {
            assert(Seq::new(spelled.len(), |j: int| parsed_usize(spelled[j]).unwrap() as nat)
                == fields);
        }
        if words.len() <= IOWAIT_FIELD {
            return Err(SourceError::MalformedSource);
        }
        Ok(CpuTime { total_time: total, work_time: total - idle })
    }
}

} // verus!
