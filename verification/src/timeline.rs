//! The shared timeline of protocol messages and of the firmware's trace.
use std::collections::VecDeque;

use vstd::prelude::*;

use crate::pd_decoder::DecodedPdEntry;

verus! {

/// How many protocol entries are kept.
pub const PROTOCOL_ENTRIES: usize = 1_000;

/// How many entries of the firmware's trace are kept.
pub const TRACE_ENTRIES: usize = 2_000;

/// What an entry of the firmware's trace is about.
#[derive(Debug, Clone, Copy, PartialEq, Eq, Structural)]
pub enum PdTraceCategory {
    TypeCState,
    ProtocolEvent,
    Unknown,
}

/// An entry of the firmware's trace.
#[derive(Debug, Clone)]
pub struct PdTraceEntry {
    pub timestamp_ms: u64,
    pub category: PdTraceCategory,
    pub summary: String,
}

/// An entry of the timeline: its place in the log that it comes from.
#[derive(Debug, Clone, Copy, PartialEq, Eq, Structural)]
pub enum PdTimelineEntry {
    Protocol(usize),
    FirmwareTrace(usize),
}

// -- The logs --

/// The newest `limit` of `entries`.
pub open spec fn newest_entries<T>(entries: Seq<T>, limit: int) -> Seq<T> {
    if entries.len() > limit {
        entries.skip(entries.len() - limit)
    } else {
        entries
    }
}

/// Adds `entries` to a log that keeps the newest `limit` ones.
pub fn extend_log<T>(log: &mut VecDeque<T>, entries: Vec<T>, limit: usize)
    requires
        old(log)@.len() <= limit,
    ensures
        final(log)@ == newest_entries(old(log)@ + entries@, limit as int),
        final(log)@.len() <= limit,
{
    let ghost before = log@;
    let ghost added = entries@;
    let mut entries = entries;
    let mut waiting: Vec<T> = Vec::new();
    let ghost mut taken: int = 0;
    while entries.len() > 0
        invariant
            log@ == before,
            0 <= taken <= added.len(),
            entries@ == added.take(added.len() - taken),
            waiting@ == added.skip(added.len() - taken).reverse(),
        decreases entries.len(),
    {
        let entry = entries.pop();
        match entry {
            Some(entry) => {
                proof {
                    taken = taken + 1;
                    assert(entry == added[added.len() - taken]);
                    assert(added.skip(added.len() - taken).reverse() =~= added.skip(
                        added.len() - taken + 1,
                    ).reverse().push(entry));
                    assert(entries@ =~= added.take(added.len() - taken));
                }
                waiting.push(entry);
            },
            None => {},
        }
    }
    proof {
        assert(added.skip(0) =~= added);
        assert(waiting@ =~= added.reverse());
        assert(newest_entries(before + added.take(0), limit as int) =~= before);
    }
    let ghost mut given: int = 0;
    while waiting.len() > 0
        invariant
            0 <= given <= added.len(),
            waiting@ == added.skip(given).reverse(),
            log@ == newest_entries(before + added.take(given), limit as int),
            log@.len() <= limit,
        decreases waiting.len(),
    {
        let entry = waiting.pop();
        match entry {
            Some(entry) => {
                log.push_back(entry);
                if log.len() > limit {
                    log.pop_front();
                }
                proof {
                    assert(entry == added[given]);
                    assert((before + added.take(given)).push(entry) =~= before + added.take(
                        given + 1,
                    ));
                    given = given + 1;
                    assert(waiting@ =~= added.skip(given).reverse());
                    assert(log@ =~= newest_entries(before + added.take(given), limit as int));
                }
            },
            None => {},
        }
    }
    proof {
        assert(given == added.len());
        assert(added.take(given) =~= added);
    }
}

// -- The order --

/// Whether entry `a` comes before entry `b`: earlier, or at the same time and
/// first in the log.
pub open spec fn comes_before(times: Seq<u64>, a: int, b: int) -> bool {
    times[a] < times[b] || (times[a] == times[b] && a < b)
}

/// Whether `order` lists every entry once, in the order of time.
pub open spec fn is_order(times: Seq<u64>, order: Seq<usize>) -> bool {
    &&& order.len() == times.len()
    &&& forall|i: int| 0 <= i < order.len() ==> #[trigger] order[i] < times.len()
    &&& forall|i: int, j: int|
        0 <= i < j < order.len() ==> comes_before(
            times,
            #[trigger] order[i] as int,
            #[trigger] order[j] as int,
        )
    &&& forall|p: usize| p < times.len() ==> #[trigger] order.contains(p)
}

/// The entries of one log in the order of time.
fn sorted_positions(times: &Vec<u64>) -> (order: Vec<usize>)
    ensures
        is_order(times@, order@),
{
    let mut order: Vec<usize> = Vec::new();
    let mut next: usize = 0;
    while next < times.len()
        invariant
            next <= times@.len(),
            order@.len() == next,
            forall|i: int| 0 <= i < order@.len() ==> #[trigger] order@[i] < next,
            forall|i: int, j: int|
                0 <= i < j < order@.len() ==> comes_before(
                    times@,
                    #[trigger] order@[i] as int,
                    #[trigger] order@[j] as int,
                ),
            forall|p: usize| p < next ==> #[trigger] order@.contains(p),
        decreases times.len() - next,
    {
        let mut at: usize = order.len();
        while at > 0 && times[order[at - 1]] > times[next]
            invariant
                at <= order@.len(),
                next < times@.len(),
                order@.len() == next,
                forall|i: int| 0 <= i < order@.len() ==> #[trigger] order@[i] < next,
                forall|i: int|
                    at <= i < order@.len() ==> times@[#[trigger] order@[i] as int]
                        > times@[next as int],
            decreases at,
        {
            at -= 1;
        }
        let ghost before = order@;
        proof {
            assert forall|i: int| 0 <= i < at implies times@[#[trigger] before[i] as int]
                <= times@[next as int] by {
                if i < at - 1 {
                    assert(comes_before(times@, before[i] as int, before[at - 1] as int));
                }
            }
        }
        order.insert(at, next);
        proof {
            assert(order@ =~= before.insert(at as int, next));
            assert forall|i: int, j: int| 0 <= i < j < order@.len() implies comes_before(
                times@,
                #[trigger] order@[i] as int,
                #[trigger] order@[j] as int,
            ) by {
                if i < at && j < at {
                    assert(order@[i] == before[i] && order@[j] == before[j]);
                } else if i < at && j == at {
                    assert(order@[i] == before[i]);
                } else if i < at {
                    assert(order@[i] == before[i] && order@[j] == before[j - 1]);
                } else if i == at {
                    assert(order@[j] == before[j - 1]);
                } else {
                    assert(order@[i] == before[i - 1] && order@[j] == before[j - 1]);
                }
            }
            assert forall|p: usize| p < next + 1 implies #[trigger] order@.contains(p) by {
                if p == next {
                    assert(order@[at as int] == p);
                } else {
                    assert(before.contains(p));
                    let k = choose|k: int| 0 <= k < before.len() && before[k] == p;
                    if k < at {
                        assert(order@[k] == p);
                    } else {
                        assert(order@[k + 1] == p);
                    }
                }
            }
        }
        next += 1;
    }
    order
}

/// The times of two logs, as far as they are shown.
pub ghost struct TimelineTimes {
    pub protocol: Seq<u64>,
    pub trace: Seq<u64>,
}

impl TimelineTimes {
    /// Whether there is such an entry.
    pub open spec fn has(self, entry: PdTimelineEntry) -> bool {
        match entry {
            PdTimelineEntry::Protocol(at) => at < self.protocol.len(),
            PdTimelineEntry::FirmwareTrace(at) => at < self.trace.len(),
        }
    }

    /// The time of an entry.
    pub open spec fn time(self, entry: PdTimelineEntry) -> u64 {
        match entry {
            PdTimelineEntry::Protocol(at) => self.protocol[at as int],
            PdTimelineEntry::FirmwareTrace(at) => self.trace[at as int],
        }
    }

    /// Whether `a` comes before `b`: earlier; or at the same time and a
    /// protocol entry before one of the trace, and within a log the first one.
    pub open spec fn precedes(self, a: PdTimelineEntry, b: PdTimelineEntry) -> bool {
        self.time(a) < self.time(b) || (self.time(a) == self.time(b) && match (a, b) {
            (PdTimelineEntry::Protocol(at), PdTimelineEntry::Protocol(then)) => at < then,
            (
                PdTimelineEntry::FirmwareTrace(at),
                PdTimelineEntry::FirmwareTrace(then),
            ) => at < then,
            (PdTimelineEntry::Protocol(_), PdTimelineEntry::FirmwareTrace(_)) => true,
            (PdTimelineEntry::FirmwareTrace(_), PdTimelineEntry::Protocol(_)) => false,
        })
    }

    /// Whether `entries` is the timeline: every entry once, in order.
    pub open spec fn is_timeline(self, entries: Seq<PdTimelineEntry>) -> bool {
        &&& entries.len() == self.protocol.len() + self.trace.len()
        &&& forall|i: int| 0 <= i < entries.len() ==> self.has(#[trigger] entries[i])
        &&& forall|i: int, j: int|
            0 <= i < j < entries.len() ==> self.precedes(
                #[trigger] entries[i],
                #[trigger] entries[j],
            )
        &&& forall|entry: PdTimelineEntry| self.has(entry) ==> #[trigger] entries.contains(entry)
    }
}

/// The two logs in one order, each already in its own.
fn merged(
    protocol: &Vec<u64>,
    protocol_order: &Vec<usize>,
    trace: &Vec<u64>,
    trace_order: &Vec<usize>,
) -> (entries: Vec<PdTimelineEntry>)
    requires
        is_order(protocol@, protocol_order@),
        is_order(trace@, trace_order@),
    ensures
        (TimelineTimes { protocol: protocol@, trace: trace@ }).is_timeline(entries@),
{
    let ghost times = TimelineTimes { protocol: protocol@, trace: trace@ };
    let mut entries: Vec<PdTimelineEntry> = Vec::new();
    let mut i: usize = 0;
    let mut j: usize = 0;
    while i < protocol_order.len() || j < trace_order.len()
        invariant
            times == (TimelineTimes { protocol: protocol@, trace: trace@ }),
            is_order(protocol@, protocol_order@),
            is_order(trace@, trace_order@),
            i <= protocol_order@.len(),
            j <= trace_order@.len(),
            entries@.len() == i + j,
            forall|k: int| 0 <= k < entries@.len() ==> times.has(#[trigger] entries@[k]),
            forall|k: int, l: int|
                0 <= k < l < entries@.len() ==> times.precedes(
                    #[trigger] entries@[k],
                    #[trigger] entries@[l],
                ),
            forall|k: int|
                0 <= k < i ==> entries@.contains(
                    PdTimelineEntry::Protocol(#[trigger] protocol_order@[k]),
                ),
            forall|k: int|
                0 <= k < j ==> entries@.contains(
                    PdTimelineEntry::FirmwareTrace(#[trigger] trace_order@[k]),
                ),
            i < protocol_order@.len() ==> forall|k: int|
                0 <= k < entries@.len() ==> times.precedes(
                    #[trigger] entries@[k],
                    PdTimelineEntry::Protocol(protocol_order@[i as int]),
                ),
            j < trace_order@.len() ==> forall|k: int|
                0 <= k < entries@.len() ==> times.precedes(
                    #[trigger] entries@[k],
                    PdTimelineEntry::FirmwareTrace(trace_order@[j as int]),
                ),
        decreases protocol_order.len() - i + trace_order.len() - j,
    {
        let ghost before = entries@;
        let first: bool = i < protocol_order.len() && (j >= trace_order.len()
            || protocol[protocol_order[i]] <= trace[trace_order[j]]);
        if first {
            let entry = PdTimelineEntry::Protocol(protocol_order[i]);
            entries.push(entry);
            proof {
                assert(entries@.last() == entry);
                assert(entries@[entries@.len() - 1] == entry);
                if i + 1 < protocol_order@.len() {
                    assert(comes_before(
                        protocol@,
                        protocol_order@[i as int] as int,
                        protocol_order@[i + 1] as int,
                    ));
                    assert forall|k: int| 0 <= k < entries@.len() implies times.precedes(
                        #[trigger] entries@[k],
                        PdTimelineEntry::Protocol(protocol_order@[i + 1]),
                    ) by {
                        if k < before.len() {
                            assert(entries@[k] == before[k]);
                        }
                    }
                }
                assert forall|k: int| 0 <= k < i + 1 implies entries@.contains(
                    PdTimelineEntry::Protocol(#[trigger] protocol_order@[k]),
                ) by {
                    if k < i {
                        lemma_contains_push(
                            before,
                            entry,
                            PdTimelineEntry::Protocol(protocol_order@[k]),
                        );
                    }
                }
                assert forall|k: int| 0 <= k < j implies entries@.contains(
                    PdTimelineEntry::FirmwareTrace(#[trigger] trace_order@[k]),
                ) by {
                    lemma_contains_push(
                        before,
                        entry,
                        PdTimelineEntry::FirmwareTrace(trace_order@[k]),
                    );
                }
            }
            i += 1;
        } else {
            let entry = PdTimelineEntry::FirmwareTrace(trace_order[j]);
            entries.push(entry);
            proof {
                assert(entries@[entries@.len() - 1] == entry);
                if j + 1 < trace_order@.len() {
                    assert(comes_before(
                        trace@,
                        trace_order@[j as int] as int,
                        trace_order@[j + 1] as int,
                    ));
                    assert forall|k: int| 0 <= k < entries@.len() implies times.precedes(
                        #[trigger] entries@[k],
                        PdTimelineEntry::FirmwareTrace(trace_order@[j + 1]),
                    ) by {
                        if k < before.len() {
                            assert(entries@[k] == before[k]);
                        }
                    }
                }
                assert forall|k: int| 0 <= k < i implies entries@.contains(
                    PdTimelineEntry::Protocol(#[trigger] protocol_order@[k]),
                ) by {
                    lemma_contains_push(
                        before,
                        entry,
                        PdTimelineEntry::Protocol(protocol_order@[k]),
                    );
                }
                assert forall|k: int| 0 <= k < j + 1 implies entries@.contains(
                    PdTimelineEntry::FirmwareTrace(#[trigger] trace_order@[k]),
                ) by {
                    if k < j {
                        lemma_contains_push(
                            before,
                            entry,
                            PdTimelineEntry::FirmwareTrace(trace_order@[k]),
                        );
                    }
                }
            }
            j += 1;
        }
    }
    proof {
        assert forall|entry: PdTimelineEntry| times.has(entry) implies #[trigger] entries@.contains(
            entry,
        ) by {
            match entry {
                PdTimelineEntry::Protocol(at) => {
                    assert(protocol_order@.contains(at));
                    let k = choose|k: int|
                        0 <= k < protocol_order@.len() && protocol_order@[k] == at;
                    assert(entries@.contains(PdTimelineEntry::Protocol(protocol_order@[k])));
                },
                PdTimelineEntry::FirmwareTrace(at) => {
                    assert(trace_order@.contains(at));
                    let k = choose|k: int| 0 <= k < trace_order@.len() && trace_order@[k] == at;
                    assert(entries@.contains(PdTimelineEntry::FirmwareTrace(trace_order@[k])));
                },
            }
        }
    }
    entries
}

proof fn lemma_contains_push(
    entries: Seq<PdTimelineEntry>,
    added: PdTimelineEntry,
    entry: PdTimelineEntry,
)
    requires
        entries.contains(entry),
    ensures
        entries.push(added).contains(entry),
{
    let k = choose|k: int| 0 <= k < entries.len() && entries[k] == entry;
    assert(entries.push(added)[k] == entry);
}

/// The times of protocol entries.
pub open spec fn protocol_times(log: Seq<DecodedPdEntry>) -> Seq<u64> {
    log.map_values(|entry: DecodedPdEntry| entry.timestamp_ms)
}

/// The times of trace entries.
pub open spec fn trace_times(log: Seq<PdTraceEntry>) -> Seq<u64> {
    log.map_values(|entry: PdTraceEntry| entry.timestamp_ms)
}

/// The times of what is shown of the two logs.
pub open spec fn shown_times(
    protocol_log: Seq<DecodedPdEntry>,
    trace_log: Seq<PdTraceEntry>,
    show_protocol: bool,
    show_trace: bool,
) -> TimelineTimes {
    TimelineTimes {
        protocol: if show_protocol {
            protocol_times(protocol_log)
        } else {
            Seq::empty()
        },
        trace: if show_trace {
            trace_times(trace_log)
        } else {
            Seq::empty()
        },
    }
}

/// What is shown of the two logs, in the order of time.
pub fn pd_timeline_entries(
    protocol_log: &VecDeque<DecodedPdEntry>,
    trace_log: &VecDeque<PdTraceEntry>,
    show_protocol: bool,
    show_trace: bool,
) -> (entries: Vec<PdTimelineEntry>)
    ensures
        shown_times(protocol_log@, trace_log@, show_protocol, show_trace).is_timeline(entries@),
{
    let mut protocol: Vec<u64> = Vec::new();
    if show_protocol {
        let mut index: usize = 0;
        while index < protocol_log.len()
            invariant
                index <= protocol_log@.len(),
                protocol@ =~= protocol_times(protocol_log@).take(index as int),
            decreases protocol_log.len() - index,
        {
            protocol.push(protocol_log[index].timestamp_ms);
            index += 1;
        }
    }
    let mut trace: Vec<u64> = Vec::new();
    if show_trace {
        let mut index: usize = 0;
        while index < trace_log.len()
            invariant
                index <= trace_log@.len(),
                trace@ =~= trace_times(trace_log@).take(index as int),
            decreases trace_log.len() - index,
        {
            trace.push(trace_log[index].timestamp_ms);
            index += 1;
        }
    }
    proof {
        let times = shown_times(protocol_log@, trace_log@, show_protocol, show_trace);
        assert(protocol@ =~= times.protocol);
        assert(trace@ =~= times.trace);
    }
    let protocol_order = sorted_positions(&protocol);
    let trace_order = sorted_positions(&trace);
    merged(&protocol, &protocol_order, &trace, &trace_order)
}

/// There is one timeline of two logs, and no other: it holds every entry that
/// is shown exactly once.
pub proof fn law_timeline_is_complete_and_unique(
    times: TimelineTimes,
    entries: Seq<PdTimelineEntry>,
    others: Seq<PdTimelineEntry>,
)
    requires
        times.is_timeline(entries),
        times.is_timeline(others),
    ensures
        entries.no_duplicates(),
        entries == others,
{
    assert forall|i: int, j: int|
        0 <= i < entries.len() && 0 <= j < entries.len() && i != j implies entries[i]
        != entries[j] by {
        if i < j {
            assert(times.precedes(entries[i], entries[j]));
        } else {
            assert(times.precedes(entries[j], entries[i]));
        }
    }
    lemma_same_timeline(times, entries, others, entries.len() as int);
    assert(entries =~= others);
}

/// Two timelines agree up to any point.
proof fn lemma_same_timeline(
    times: TimelineTimes,
    entries: Seq<PdTimelineEntry>,
    others: Seq<PdTimelineEntry>,
    count: int,
)
    requires
        times.is_timeline(entries),
        times.is_timeline(others),
        0 <= count <= entries.len(),
    ensures
        forall|i: int| 0 <= i < count ==> entries[i] == others[i],
    decreases count,
{
    if count > 0 {
        lemma_same_timeline(times, entries, others, count - 1);
        let at = count - 1;
        let a = entries[at];
        let b = others[at];
        if a != b {
            assert(others.contains(a));
            assert(entries.contains(b));
            let k = choose|k: int| 0 <= k < others.len() && others[k] == a;
            let l = choose|l: int| 0 <= l < entries.len() && entries[l] == b;
            if k < at {
                assert(entries[k] == a);
                assert(times.precedes(entries[k], entries[at]));
            } else {
                assert(times.precedes(others[at], others[k]));
            }
            if l < at {
                assert(others[l] == b);
                assert(times.precedes(others[l], others[at]));
            } else {
                assert(times.precedes(entries[at], entries[l]));
            }
            assert(false);
        }
    }
}

/// The time of an entry in the two logs.
pub open spec fn logged_time(
    protocol_log: Seq<DecodedPdEntry>,
    trace_log: Seq<PdTraceEntry>,
    entry: PdTimelineEntry,
) -> u64 {
    match entry {
        PdTimelineEntry::Protocol(at) => protocol_log[at as int].timestamp_ms,
        PdTimelineEntry::FirmwareTrace(at) => trace_log[at as int].timestamp_ms,
    }
}

/// The timeline never goes back in time: of two entries the later one in the
/// list is not the earlier one in time, at equal times a message stands before
/// a line of the trace, and within a log the older entry stands first. A log
/// that is not shown has no entry in it, and of one that is shown none is
/// missing.
pub proof fn law_timeline_follows_the_time(
    protocol_log: Seq<DecodedPdEntry>,
    trace_log: Seq<PdTraceEntry>,
    show_protocol: bool,
    show_trace: bool,
    entries: Seq<PdTimelineEntry>,
)
    requires
        protocol_log.len() <= usize::MAX,
        trace_log.len() <= usize::MAX,
        shown_times(protocol_log, trace_log, show_protocol, show_trace).is_timeline(entries),
    ensures
        entries.len() == (if show_protocol {
            protocol_log.len()
        } else {
            0
        }) + (if show_trace {
            trace_log.len()
        } else {
            0
        }),
        forall|i: int, j: int|
            #![trigger entries[i], entries[j]]
            0 <= i < j < entries.len() ==> {
                let a = logged_time(protocol_log, trace_log, entries[i]);
                let b = logged_time(protocol_log, trace_log, entries[j]);
                &&& a <= b
                &&& a == b ==> !(entries[i] is FirmwareTrace && entries[j] is Protocol)
                &&& entries[i] matches PdTimelineEntry::Protocol(at) ==> (
                entries[j] matches PdTimelineEntry::Protocol(next) ==> a < b || at < next)
                &&& entries[i] matches PdTimelineEntry::FirmwareTrace(at) ==> (
                entries[j] matches PdTimelineEntry::FirmwareTrace(next) ==> a < b || at < next)
            },
        forall|i: int|
            0 <= i < entries.len() ==> match #[trigger] entries[i] {
                PdTimelineEntry::Protocol(at) => show_protocol && at < protocol_log.len(),
                PdTimelineEntry::FirmwareTrace(at) => show_trace && at < trace_log.len(),
            },
        forall|at: usize|
            show_protocol && at < protocol_log.len() ==> #[trigger] entries.contains(
                PdTimelineEntry::Protocol(at),
            ),
        forall|at: usize|
            show_trace && at < trace_log.len() ==> #[trigger] entries.contains(
                PdTimelineEntry::FirmwareTrace(at),
            ),
{
    let times = shown_times(protocol_log, trace_log, show_protocol, show_trace);
    assert forall|i: int| 0 <= i < entries.len() implies match #[trigger] entries[i] {
        PdTimelineEntry::Protocol(at) => show_protocol && at < protocol_log.len(),
        PdTimelineEntry::FirmwareTrace(at) => show_trace && at < trace_log.len(),
    } by {
        assert(times.has(entries[i]));
    }
    assert forall|i: int, j: int|
        #![trigger entries[i], entries[j]]
        0 <= i < j < entries.len() implies {
        let a = logged_time(protocol_log, trace_log, entries[i]);
        let b = logged_time(protocol_log, trace_log, entries[j]);
        &&& a <= b
        &&& a == b ==> !(entries[i] is FirmwareTrace && entries[j] is Protocol)
        &&& entries[i] matches PdTimelineEntry::Protocol(at) ==> (
        entries[j] matches PdTimelineEntry::Protocol(next) ==> a < b || at < next)
        &&& entries[i] matches PdTimelineEntry::FirmwareTrace(at) ==> (
        entries[j] matches PdTimelineEntry::FirmwareTrace(next) ==> a < b || at < next)
    } by {
        assert(times.precedes(entries[i], entries[j]));
        assert(times.has(entries[i]));
        assert(times.has(entries[j]));
        assert(times.time(entries[i]) == logged_time(protocol_log, trace_log, entries[i]));
        assert(times.time(entries[j]) == logged_time(protocol_log, trace_log, entries[j]));
    }
    assert forall|at: usize| show_protocol && at < protocol_log.len() implies #[trigger] entries
        .contains(PdTimelineEntry::Protocol(at)) by {
        assert(times.has(PdTimelineEntry::Protocol(at)));
    }
    assert forall|at: usize| show_trace && at < trace_log.len() implies #[trigger] entries.contains(
        PdTimelineEntry::FirmwareTrace(at),
    ) by {
        assert(times.has(PdTimelineEntry::FirmwareTrace(at)));
    }
}

/// A log keeps its newest entries, in their order, and no more than fit; what
/// is kept does not depend on how many arrive at once.
pub proof fn law_logs_keep_the_newest<T>(log: Seq<T>, first: Seq<T>, second: Seq<T>, limit: int)
    requires
        0 <= limit,
    ensures
        ({
            let all = log + first;
            let kept = newest_entries(all, limit);
            &&& kept.len() <= limit
            &&& kept.len() == limit || kept == all
            &&& forall|i: int|
                0 <= i < kept.len() ==> #[trigger] kept[i] == all[all.len() - kept.len() + i]
            &&& newest_entries(kept + second, limit) == newest_entries(all + second, limit)
        }),
{
    let all = log + first;
    let kept = newest_entries(all, limit);
    assert(newest_entries(kept + second, limit) =~= newest_entries(all + second, limit));
}

} // verus!
