//! The metadata of a recording session: when it ran, what interrupted it, and
//! what its segments amount to.
use vstd::prelude::*;
use vstd::string::*;

use crate::recording::{
    append_suffix, Completeness, DeviceFacts, RecordingFormat, RecordingMetadata, RecordingSummary,
    RecordingTotals,
};
use crate::text::{append_decimal, decimal};
use crate::utc::{
    beijing_text, compact_beijing_text, create_session_id, format_beijing, format_beijing_compact,
    session_id_text, UtcInstant,
};

verus! {

pub const SESSION_SCHEMA_VERSION: u32 = 1;

pub const DISPLAY_TIMEZONE: &'static str = "Asia/Shanghai";

pub const PARQUET_SESSION_METADATA_KEY: &'static str = "km003c.session_metadata_v1";

/// What a session was doing when its manifest was written last.
#[derive(Debug, Clone, Copy, PartialEq, Eq, Structural)]
pub enum SessionState {
    Recording,
    Paused,
    WaitingForReconnect,
    Finalizing,
    Saved,
    Interrupted,
}

/// Why a session stood still.
#[derive(Debug, Clone, Copy, PartialEq, Eq, Structural)]
pub enum IntervalReason {
    ManualPause,
    AutomaticPause,
    UsbDisconnected,
    ApplicationRestart,
}

/// A stretch of time in which a session stood still.
#[derive(Debug, Clone, Copy, PartialEq, Eq, Structural)]
pub struct RecordingTimeInterval {
    pub reason: IntervalReason,
    pub started_at_utc: UtcInstant,
    pub ended_at_utc: Option<UtcInstant>,
}

impl RecordingTimeInterval {
    /// Both ends are valid instants.
    pub open spec fn valid(self) -> bool {
        &&& self.started_at_utc.valid()
        &&& self.ended_at_utc matches Some(end) ==> end.valid()
    }

    /// How long the interval lasted, or has lasted by `now` if it goes on.
    pub open spec fn millis(self, now: UtcInstant) -> u64 {
        match self.ended_at_utc {
            Some(end) => end.millis_since(self.started_at_utc),
            None => now.millis_since(self.started_at_utc),
        }
    }

    /// How long the interval lasted, or has lasted by `now` if it goes on.
    pub fn duration_ms(&self, now: UtcInstant) -> (millis: u64)
        requires
            self.valid(),
            now.valid(),
        ensures
            millis == self.millis(now),
    {
        match self.ended_at_utc {
            Some(end) => end.duration_ms_since(self.started_at_utc),
            None => now.duration_ms_since(self.started_at_utc),
        }
    }
}

/// Every interval is valid.
pub open spec fn all_valid(intervals: Seq<RecordingTimeInterval>) -> bool {
    forall|i: int| 0 <= i < intervals.len() ==> (#[trigger] intervals[i]).valid()
}

/// How long `intervals` lasted together, up to the range of a counter.
pub open spec fn total_millis(intervals: Seq<RecordingTimeInterval>, now: UtcInstant) -> u64
    decreases intervals.len(),
{
    if intervals.len() == 0 {
        0
    } else {
        crate::recording::in_counter(
            total_millis(intervals.drop_last(), now) + intervals.last().millis(now),
        )
    }
}

/// How long `intervals` lasted together, up to the range of a counter.
pub fn total_duration_ms(intervals: &Vec<RecordingTimeInterval>, now: UtcInstant) -> (total: u64)
    requires
        all_valid(intervals@),
        now.valid(),
    ensures
        total == total_millis(intervals@, now),
{
    let mut total: u64 = 0;
    let mut i: usize = 0;
    while i < intervals.len()
        invariant
            all_valid(intervals@),
            now.valid(),
            i <= intervals.len(),
            total == total_millis(intervals@.take(i as int), now),
        decreases intervals.len() - i,
    {
        assert(intervals@.take(i + 1).drop_last() =~= intervals@.take(i as int));
        assert(intervals@[i as int].valid());
        total = total.saturating_add(intervals[i].duration_ms(now));
        i += 1;
    }
    assert(intervals@.take(i as int) =~= intervals@);
    total
}

/// When a session ran, in UTC and as it reads in Beijing.
#[derive(Debug, Clone)]
pub struct RecordingTimestamps {
    pub started_at_utc: UtcInstant,
    pub ended_at_utc: Option<UtcInstant>,
    pub saved_at_utc: Option<UtcInstant>,
    pub display_timezone: String,
    pub started_at_beijing: String,
    pub ended_at_beijing: Option<String>,
    pub saved_at_beijing: Option<String>,
}

impl RecordingTimestamps {
    /// Every instant is valid.
    pub open spec fn valid(self) -> bool {
        &&& self.started_at_utc.valid()
        &&& self.ended_at_utc matches Some(end) ==> end.valid()
        &&& self.saved_at_utc matches Some(saved) ==> saved.valid()
    }

    /// The session started at `started_at_utc` and has not ended.
    pub fn new(started_at_utc: UtcInstant) -> (timestamps: RecordingTimestamps)
        requires
            started_at_utc.valid(),
        ensures
            timestamps.started_at_utc == started_at_utc,
            timestamps.ended_at_utc is None,
            timestamps.saved_at_utc is None,
            timestamps.display_timezone@ == "Asia/Shanghai"@,
            timestamps.started_at_beijing@ == beijing_text(started_at_utc),
            timestamps.ended_at_beijing is None,
            timestamps.saved_at_beijing is None,
            timestamps.valid(),
    {
        RecordingTimestamps {
            started_at_utc,
            ended_at_utc: None,
            saved_at_utc: None,
            display_timezone: "Asia/Shanghai".to_owned(),
            started_at_beijing: format_beijing(started_at_utc),
            ended_at_beijing: None,
            saved_at_beijing: None,
        }
    }

    /// The session ended.
    pub fn set_ended(&mut self, ended_at_utc: UtcInstant)
        requires
            ended_at_utc.valid(),
        ensures
            *final(self) == (RecordingTimestamps {
                ended_at_utc: Some(ended_at_utc),
                ended_at_beijing: final(self).ended_at_beijing,
                ..*old(self)
            }),
            final(self).ended_at_beijing matches Some(text) && text@ == beijing_text(ended_at_utc),
    {
        self.ended_at_utc = Some(ended_at_utc);
        self.ended_at_beijing = Some(format_beijing(ended_at_utc));
    }

    /// The session was saved.
    pub fn set_saved(&mut self, saved_at_utc: UtcInstant)
        requires
            saved_at_utc.valid(),
        ensures
            *final(self) == (RecordingTimestamps {
                saved_at_utc: Some(saved_at_utc),
                saved_at_beijing: final(self).saved_at_beijing,
                ..*old(self)
            }),
            final(self).saved_at_beijing matches Some(text) && text@ == beijing_text(saved_at_utc),
    {
        self.saved_at_utc = Some(saved_at_utc);
        self.saved_at_beijing = Some(format_beijing(saved_at_utc));
    }
}

/// What is kept beside a recording file.
#[derive(Debug, Clone)]
pub struct RecordingSessionMetadataV1 {
    pub schema_version: u32,
    pub session_id: String,
    pub timestamps: RecordingTimestamps,
    pub device: RecordingMetadata,
    pub sample_rate_hz: u32,
    pub rows: u64,
    pub effective_duration_us: u64,
    pub wall_clock_duration_ms: u64,
    pub paused_duration_ms: u64,
    pub disconnected_duration_ms: u64,
    pub missing_samples: u64,
    pub interpolated_duration_us: u64,
    pub discarded_sequence_samples: u64,
    pub net_charge: i128,
    pub net_energy: i128,
    pub cumulative_capacity: i128,
    pub cumulative_energy: i128,
    pub completeness: Completeness,
    pub pause_intervals: Vec<RecordingTimeInterval>,
    pub disconnect_intervals: Vec<RecordingTimeInterval>,
}

impl RecordingSessionMetadataV1 {
    /// Every instant is valid.
    pub open spec fn valid(self) -> bool {
        &&& self.timestamps.valid()
        &&& all_valid(self.pause_intervals@)
        &&& all_valid(self.disconnect_intervals@)
    }

    /// The instant up to which the session's time counts.
    pub open spec fn end(self, now: UtcInstant) -> UtcInstant {
        match self.timestamps.ended_at_utc {
            Some(end) => end,
            None => now,
        }
    }

    /// The metadata with the durations that hold at `now`.
    pub open spec fn with_durations(self, now: UtcInstant) -> RecordingSessionMetadataV1 {
        RecordingSessionMetadataV1 {
            wall_clock_duration_ms: self.end(now).millis_since(self.timestamps.started_at_utc),
            paused_duration_ms: total_millis(self.pause_intervals@, now),
            disconnected_duration_ms: total_millis(self.disconnect_intervals@, now),
            ..self
        }
    }

    /// The metadata with what the recording amounts to.
    pub open spec fn with_totals(self, totals: RecordingTotals) -> RecordingSessionMetadataV1 {
        RecordingSessionMetadataV1 {
            rows: totals.rows,
            effective_duration_us: totals.elapsed_us,
            missing_samples: totals.missing_samples,
            interpolated_duration_us: totals.interpolated_duration_us,
            discarded_sequence_samples: totals.discarded_sequence_samples,
            net_charge: totals.charge,
            net_energy: totals.energy,
            cumulative_capacity: totals.charge_throughput,
            cumulative_energy: totals.energy_throughput,
            completeness: totals.measured(),
            ..self
        }
    }

    /// The metadata of a session that process `process_id` starts.
    pub fn new(
        started_at_utc: UtcInstant,
        device: RecordingMetadata,
        sample_rate_hz: u32,
        process_id: u32,
    ) -> (metadata: RecordingSessionMetadataV1)
        requires
            started_at_utc.valid(),
        ensures
            metadata.valid(),
            metadata.schema_version == SESSION_SCHEMA_VERSION,
            metadata.session_id@ == session_id_text(started_at_utc, process_id),
            metadata.timestamps.started_at_utc == started_at_utc,
            metadata.timestamps.ended_at_utc is None,
            metadata.timestamps.saved_at_utc is None,
            metadata.timestamps.display_timezone@ == "Asia/Shanghai"@,
            metadata.timestamps.started_at_beijing@ == beijing_text(started_at_utc),
            metadata.timestamps.ended_at_beijing is None,
            metadata.timestamps.saved_at_beijing is None,
            metadata.device == device,
            metadata.sample_rate_hz == sample_rate_hz,
            metadata.rows == 0,
            metadata.effective_duration_us == 0,
            metadata.wall_clock_duration_ms == 0,
            metadata.paused_duration_ms == 0,
            metadata.disconnected_duration_ms == 0,
            metadata.missing_samples == 0,
            metadata.interpolated_duration_us == 0,
            metadata.discarded_sequence_samples == 0,
            metadata.net_charge == 0,
            metadata.net_energy == 0,
            metadata.cumulative_capacity == 0,
            metadata.cumulative_energy == 0,
            metadata.completeness == (Completeness { measured_us: 1, elapsed_us: 1 }),
            metadata.pause_intervals@.len() == 0,
            metadata.disconnect_intervals@.len() == 0,
    {
        RecordingSessionMetadataV1 {
            schema_version: SESSION_SCHEMA_VERSION,
            session_id: create_session_id(started_at_utc, process_id),
            timestamps: RecordingTimestamps::new(started_at_utc),
            device,
            sample_rate_hz,
            rows: 0,
            effective_duration_us: 0,
            wall_clock_duration_ms: 0,
            paused_duration_ms: 0,
            disconnected_duration_ms: 0,
            missing_samples: 0,
            interpolated_duration_us: 0,
            discarded_sequence_samples: 0,
            net_charge: 0,
            net_energy: 0,
            cumulative_capacity: 0,
            cumulative_energy: 0,
            completeness: Completeness { measured_us: 1, elapsed_us: 1 },
            pause_intervals: Vec::new(),
            disconnect_intervals: Vec::new(),
        }
    }

    /// Brings the durations up to date.
    pub fn refresh_durations(&mut self, now: UtcInstant)
        requires
            old(self).valid(),
            now.valid(),
        ensures
            *final(self) == old(self).with_durations(now),
            final(self).valid(),
    {
        let end = match self.timestamps.ended_at_utc {
            Some(end) => end,
            None => now,
        };
        self.wall_clock_duration_ms = end.duration_ms_since(self.timestamps.started_at_utc);
        self.paused_duration_ms = total_duration_ms(&self.pause_intervals, now);
        self.disconnected_duration_ms = total_duration_ms(&self.disconnect_intervals, now);
    }

    /// Takes over what the recording amounts to.
    pub fn update_from_summary(&mut self, summary: &RecordingSummary)
        ensures
            *final(self) == old(self).with_totals(summary.totals),
    {
        self.update_from_totals(summary.totals);
    }

    /// Takes over what the recording amounts to.
    pub fn update_from_totals(&mut self, totals: RecordingTotals)
        ensures
            *final(self) == old(self).with_totals(totals),
    {
        self.rows = totals.rows;
        self.effective_duration_us = totals.elapsed_us;
        self.missing_samples = totals.missing_samples;
        self.interpolated_duration_us = totals.interpolated_duration_us;
        self.discarded_sequence_samples = totals.discarded_sequence_samples;
        self.net_charge = totals.charge;
        self.net_energy = totals.energy;
        self.cumulative_capacity = totals.charge_throughput;
        self.cumulative_energy = totals.energy_throughput;
        self.completeness = totals.completeness();
    }

    /// The session ended with `summary`.
    pub fn finalize(&mut self, summary: &RecordingSummary, ended_at_utc: UtcInstant)
        requires
            old(self).valid(),
            ended_at_utc.valid(),
        ensures
            final(self).valid(),
            final(self).timestamps == (RecordingTimestamps {
                ended_at_utc: Some(ended_at_utc),
                ended_at_beijing: final(self).timestamps.ended_at_beijing,
                ..old(self).timestamps
            }),
            final(self).timestamps.ended_at_beijing matches Some(text) && text@ == beijing_text(
                ended_at_utc,
            ),
            *final(self) == (RecordingSessionMetadataV1 {
                timestamps: final(self).timestamps,
                ..old(self).with_totals(summary.totals)
            }).with_durations(ended_at_utc),
    {
        self.update_from_summary(summary);
        self.timestamps.set_ended(ended_at_utc);
        self.refresh_durations(ended_at_utc);
    }

    /// The session was saved.
    pub fn mark_saved(&mut self, saved_at_utc: UtcInstant)
        requires
            old(self).valid(),
            saved_at_utc.valid(),
        ensures
            final(self).valid(),
            final(self).timestamps == (RecordingTimestamps {
                saved_at_utc: Some(saved_at_utc),
                saved_at_beijing: final(self).timestamps.saved_at_beijing,
                ..old(self).timestamps
            }),
            final(self).timestamps.saved_at_beijing matches Some(text) && text@ == beijing_text(
                saved_at_utc,
            ),
            *final(self) == (RecordingSessionMetadataV1 {
                timestamps: final(self).timestamps,
                ..*old(self)
            }).with_durations(saved_at_utc),
    {
        self.timestamps.set_saved(saved_at_utc);
        self.refresh_durations(saved_at_utc);
    }

    /// The file name that the session is offered under at `now`.
    pub fn suggested_filename(&self, format: RecordingFormat, now: UtcInstant) -> (name: String)
        requires
            self.valid(),
            now.valid(),
        ensures
            name@ == filename_text(
                compact_beijing_text(self.timestamps.started_at_utc),
                compact_beijing_text(self.end(now)),
                self.sample_rate_hz,
                format,
            ),
    {
        let end = match self.timestamps.ended_at_utc {
            Some(end) => end,
            None => now,
        };
        let started = format_beijing_compact(self.timestamps.started_at_utc);
        let ended = format_beijing_compact(end);
        filename_from(started.as_str(), ended.as_str(), self.sample_rate_hz, format)
    }
}

/// The characters of a text that may be missing.
pub open spec fn optional_text(text: Option<String>) -> Option<Seq<char>> {
    match text {
        Some(text) => Some(text@),
        None => None,
    }
}

/// When a session ran.
#[verifier::ext_equal]
pub ghost struct TimeFacts {
    pub started: UtcInstant,
    pub ended: Option<UtcInstant>,
    pub saved: Option<UtcInstant>,
    pub timezone: Seq<char>,
    pub started_text: Seq<char>,
    pub ended_text: Option<Seq<char>>,
    pub saved_text: Option<Seq<char>>,
}

impl View for RecordingTimestamps {
    type V = TimeFacts;

    open spec fn view(&self) -> TimeFacts {
        TimeFacts {
            started: self.started_at_utc,
            ended: self.ended_at_utc,
            saved: self.saved_at_utc,
            timezone: self.display_timezone@,
            started_text: self.started_at_beijing@,
            ended_text: optional_text(self.ended_at_beijing),
            saved_text: optional_text(self.saved_at_beijing),
        }
    }
}

impl RecordingTimestamps {
    /// The same timestamps once more.
    pub fn copied(&self) -> (copy: RecordingTimestamps)
        ensures
            copy@ == self@,
            copy.valid() == self.valid(),
    {
        RecordingTimestamps {
            started_at_utc: self.started_at_utc,
            ended_at_utc: self.ended_at_utc,
            saved_at_utc: self.saved_at_utc,
            display_timezone: self.display_timezone.clone(),
            started_at_beijing: self.started_at_beijing.clone(),
            ended_at_beijing: match &self.ended_at_beijing {
                Some(text) => Some(text.clone()),
                None => None,
            },
            saved_at_beijing: match &self.saved_at_beijing {
                Some(text) => Some(text.clone()),
                None => None,
            },
        }
    }
}

/// What is known of a session.
#[verifier::ext_equal]
pub ghost struct SessionFacts {
    pub schema_version: u32,
    pub session_id: Seq<char>,
    pub times: TimeFacts,
    pub device: DeviceFacts,
    pub sample_rate_hz: u32,
    pub rows: u64,
    pub effective_duration_us: u64,
    pub wall_clock_duration_ms: u64,
    pub paused_duration_ms: u64,
    pub disconnected_duration_ms: u64,
    pub missing_samples: u64,
    pub interpolated_duration_us: u64,
    pub discarded_sequence_samples: u64,
    pub net_charge: i128,
    pub net_energy: i128,
    pub cumulative_capacity: i128,
    pub cumulative_energy: i128,
    pub completeness: Completeness,
    pub pauses: Seq<RecordingTimeInterval>,
    pub disconnects: Seq<RecordingTimeInterval>,
}

impl View for RecordingSessionMetadataV1 {
    type V = SessionFacts;

    open spec fn view(&self) -> SessionFacts {
        SessionFacts {
            schema_version: self.schema_version,
            session_id: self.session_id@,
            times: self.timestamps@,
            device: self.device@,
            sample_rate_hz: self.sample_rate_hz,
            rows: self.rows,
            effective_duration_us: self.effective_duration_us,
            wall_clock_duration_ms: self.wall_clock_duration_ms,
            paused_duration_ms: self.paused_duration_ms,
            disconnected_duration_ms: self.disconnected_duration_ms,
            missing_samples: self.missing_samples,
            interpolated_duration_us: self.interpolated_duration_us,
            discarded_sequence_samples: self.discarded_sequence_samples,
            net_charge: self.net_charge,
            net_energy: self.net_energy,
            cumulative_capacity: self.cumulative_capacity,
            cumulative_energy: self.cumulative_energy,
            completeness: self.completeness,
            pauses: self.pause_intervals@,
            disconnects: self.disconnect_intervals@,
        }
    }
}

/// The position of the last interval that goes on, and -1 where none does.
pub open spec fn last_open(intervals: Seq<RecordingTimeInterval>) -> int
    decreases intervals.len(),
{
    if intervals.len() == 0 {
        -1
    } else if intervals.last().ended_at_utc is None {
        intervals.len() - 1
    } else {
        last_open(intervals.drop_last())
    }
}

/// The interval, ended at `end`.
pub open spec fn ended_interval(
    interval: RecordingTimeInterval,
    end: UtcInstant,
) -> RecordingTimeInterval {
    RecordingTimeInterval { ended_at_utc: Some(end), ..interval }
}

/// The intervals with the last one that goes on ended at `end`.
pub open spec fn closed_last(intervals: Seq<RecordingTimeInterval>, end: UtcInstant) -> Seq<
    RecordingTimeInterval,
> {
    let at = last_open(intervals);
    if at < 0 {
        intervals
    } else {
        intervals.update(at, ended_interval(intervals[at], end))
    }
}

/// The intervals with every one that goes on ended at `end`.
pub open spec fn closed_all(intervals: Seq<RecordingTimeInterval>, end: UtcInstant) -> Seq<
    RecordingTimeInterval,
> {
    intervals.map_values(
        |interval: RecordingTimeInterval|
            if interval.ended_at_utc is None {
                ended_interval(interval, end)
            } else {
                interval
            },
    )
}

proof fn lemma_last_open(intervals: Seq<RecordingTimeInterval>)
    ensures
        -1 <= last_open(intervals) < intervals.len(),
        last_open(intervals) >= 0 ==> intervals[last_open(intervals)].ended_at_utc is None,
    decreases intervals.len(),
{
    if intervals.len() > 0 {
        lemma_last_open(intervals.drop_last());
    }
}

impl SessionFacts {
    /// Every instant is valid.
    pub open spec fn valid(self) -> bool {
        &&& self.times.started.valid()
        &&& self.times.ended matches Some(end) ==> end.valid()
        &&& self.times.saved matches Some(saved) ==> saved.valid()
        &&& all_valid(self.pauses)
        &&& all_valid(self.disconnects)
    }

    /// The facts with the durations that hold at `now`.
    pub open spec fn with_durations(self, now: UtcInstant) -> SessionFacts {
        let end = match self.times.ended {
            Some(end) => end,
            None => now,
        };
        SessionFacts {
            wall_clock_duration_ms: end.millis_since(self.times.started),
            paused_duration_ms: total_millis(self.pauses, now),
            disconnected_duration_ms: total_millis(self.disconnects, now),
            ..self
        }
    }

    /// The facts with what the recording amounts to.
    pub open spec fn with_totals(self, totals: RecordingTotals) -> SessionFacts {
        SessionFacts {
            rows: totals.rows,
            effective_duration_us: totals.elapsed_us,
            missing_samples: totals.missing_samples,
            interpolated_duration_us: totals.interpolated_duration_us,
            discarded_sequence_samples: totals.discarded_sequence_samples,
            net_charge: totals.charge,
            net_energy: totals.energy,
            cumulative_capacity: totals.charge_throughput,
            cumulative_energy: totals.energy_throughput,
            completeness: totals.measured(),
            ..self
        }
    }

    /// What the recording amounts to, as far as the facts tell.
    pub open spec fn totals(self) -> RecordingTotals {
        RecordingTotals {
            rows: self.rows,
            elapsed_us: self.effective_duration_us,
            missing_samples: self.missing_samples,
            interpolated_duration_us: self.interpolated_duration_us,
            discarded_sequence_samples: self.discarded_sequence_samples,
            charge: self.net_charge,
            energy: self.net_energy,
            charge_throughput: self.cumulative_capacity,
            energy_throughput: self.cumulative_energy,
        }
    }

    /// The facts of a session that ended at `at`.
    pub open spec fn ended(self, at: UtcInstant) -> SessionFacts {
        SessionFacts {
            times: TimeFacts {
                ended: Some(at),
                ended_text: Some(beijing_text(at)),
                ..self.times
            },
            ..self
        }
    }

    /// The facts of a session that was saved at `at`.
    pub open spec fn saved(self, at: UtcInstant) -> SessionFacts {
        SessionFacts {
            times: TimeFacts {
                saved: Some(at),
                saved_text: Some(beijing_text(at)),
                ..self.times
            },
            ..self
        }
    }

    /// The facts with an interval that begins at `at`.
    pub open spec fn stopped(self, reason: IntervalReason, at: UtcInstant) -> SessionFacts {
        let interval = RecordingTimeInterval {
            reason,
            started_at_utc: at,
            ended_at_utc: None,
        };
        if reason == IntervalReason::UsbDisconnected {
            SessionFacts { disconnects: self.disconnects.push(interval), ..self }
        } else {
            SessionFacts { pauses: self.pauses.push(interval), ..self }
        }
    }

    /// The facts with the last pause, or the last disconnection, ended at `at`.
    pub open spec fn continued(self, disconnected: bool, at: UtcInstant) -> SessionFacts {
        if disconnected {
            SessionFacts { disconnects: closed_last(self.disconnects, at), ..self }
        } else {
            SessionFacts { pauses: closed_last(self.pauses, at), ..self }
        }
    }

    /// The facts with every interval ended by `at`.
    pub open spec fn settled(self, at: UtcInstant) -> SessionFacts {
        SessionFacts {
            pauses: closed_all(self.pauses, at),
            disconnects: closed_all(self.disconnects, at),
            ..self
        }
    }
}

/// Ends the last of `intervals` that goes on.
fn close_last(intervals: &mut Vec<RecordingTimeInterval>, end: UtcInstant)
    requires
        all_valid(old(intervals)@),
        end.valid(),
    ensures
        final(intervals)@ == closed_last(old(intervals)@, end),
        all_valid(final(intervals)@),
{
    let mut rest: usize = intervals.len();
    proof {
        lemma_last_open(intervals@);
        assert(intervals@.take(rest as int) =~= intervals@);
    }
    while rest > 0
        invariant
            intervals@ == old(intervals)@,
            rest <= intervals@.len(),
            all_valid(intervals@),
            end.valid(),
            last_open(intervals@) == last_open(intervals@.take(rest as int)),
        decreases rest,
    {
        let at: usize = rest - 1;
        let interval = intervals[at];
        assert(intervals@[at as int].valid());
        if interval.ended_at_utc.is_none() {
            intervals.set(
                at,
                RecordingTimeInterval {
                    reason: interval.reason,
                    started_at_utc: interval.started_at_utc,
                    ended_at_utc: Some(end),
                },
            );
            return;
        }
        assert(intervals@.take(rest as int).drop_last() =~= intervals@.take(at as int));
        rest = at;
    }
}

/// Ends every one of `intervals` that goes on.
fn close_all(intervals: &mut Vec<RecordingTimeInterval>, end: UtcInstant)
    requires
        all_valid(old(intervals)@),
        end.valid(),
    ensures
        final(intervals)@ == closed_all(old(intervals)@, end),
        all_valid(final(intervals)@),
{
    let count: usize = intervals.len();
    let mut index: usize = 0;
    while index < count
        invariant
            count == intervals@.len(),
            count == old(intervals)@.len(),
            index <= count,
            end.valid(),
            all_valid(intervals@),
            forall|i: int|
                0 <= i < index ==> #[trigger] intervals@[i] == closed_all(old(intervals)@, end)[i],
            forall|i: int| index <= i < count ==> #[trigger] intervals@[i] == old(intervals)@[i],
        decreases count - index,
    {
        let interval = intervals[index];
        assert(intervals@[index as int].valid());
        if interval.ended_at_utc.is_none() {
            intervals.set(
                index,
                RecordingTimeInterval {
                    reason: interval.reason,
                    started_at_utc: interval.started_at_utc,
                    ended_at_utc: Some(end),
                },
            );
        }
        index += 1;
    }
    assert(intervals@ =~= closed_all(old(intervals)@, end));
}

/// The same intervals once more.
fn copied_intervals(intervals: &Vec<RecordingTimeInterval>) -> (copy: Vec<RecordingTimeInterval>)
    ensures
        copy@ == intervals@,
{
    let mut copy: Vec<RecordingTimeInterval> = Vec::new();
    let mut index: usize = 0;
    while index < intervals.len()
        invariant
            index <= intervals@.len(),
            copy@ =~= intervals@.take(index as int),
        decreases intervals.len() - index,
    {
        copy.push(intervals[index]);
        index += 1;
    }
    assert(intervals@.take(index as int) =~= intervals@);
    copy
}

impl RecordingSessionMetadataV1 {
    /// Notes that the session stands still from `at` on.
    pub fn stop(&mut self, reason: IntervalReason, at: UtcInstant)
        requires
            old(self).valid(),
            at.valid(),
        ensures
            final(self)@ == old(self)@.stopped(reason, at),
            final(self).valid(),
    {
        let interval = RecordingTimeInterval {
            reason,
            started_at_utc: at,
            ended_at_utc: None,
        };
        if reason == IntervalReason::UsbDisconnected {
            self.disconnect_intervals.push(interval);
        } else {
            self.pause_intervals.push(interval);
        }
    }

    /// Notes that the session goes on at `at` after a pause, or after a
    /// disconnection.
    pub fn carry_on(&mut self, disconnected: bool, at: UtcInstant)
        requires
            old(self).valid(),
            at.valid(),
        ensures
            final(self)@ == old(self)@.continued(disconnected, at),
            final(self).valid(),
    {
        if disconnected {
            close_last(&mut self.disconnect_intervals, at);
        } else {
            close_last(&mut self.pause_intervals, at);
        }
    }

    /// Ends every interval by `at`.
    pub fn settle_intervals(&mut self, at: UtcInstant)
        requires
            old(self).valid(),
            at.valid(),
        ensures
            final(self)@ == old(self)@.settled(at),
            final(self).valid(),
    {
        close_all(&mut self.pause_intervals, at);
        close_all(&mut self.disconnect_intervals, at);
    }

    /// The same metadata once more.
    pub fn copied(&self) -> (copy: RecordingSessionMetadataV1)
        ensures
            copy@ == self@,
            copy.valid() == self.valid(),
    {
        RecordingSessionMetadataV1 {
            schema_version: self.schema_version,
            session_id: self.session_id.clone(),
            timestamps: self.timestamps.copied(),
            device: self.device.copied(),
            sample_rate_hz: self.sample_rate_hz,
            rows: self.rows,
            effective_duration_us: self.effective_duration_us,
            wall_clock_duration_ms: self.wall_clock_duration_ms,
            paused_duration_ms: self.paused_duration_ms,
            disconnected_duration_ms: self.disconnected_duration_ms,
            missing_samples: self.missing_samples,
            interpolated_duration_us: self.interpolated_duration_us,
            discarded_sequence_samples: self.discarded_sequence_samples,
            net_charge: self.net_charge,
            net_energy: self.net_energy,
            cumulative_capacity: self.cumulative_capacity,
            cumulative_energy: self.cumulative_energy,
            completeness: self.completeness,
            pause_intervals: copied_intervals(&self.pause_intervals),
            disconnect_intervals: copied_intervals(&self.disconnect_intervals),
        }
    }

    /// What the recording amounts to, as far as the metadata tell.
    pub fn totals(&self) -> (totals: RecordingTotals)
        ensures
            totals == self@.totals(),
    {
        RecordingTotals {
            rows: self.rows,
            elapsed_us: self.effective_duration_us,
            missing_samples: self.missing_samples,
            interpolated_duration_us: self.interpolated_duration_us,
            discarded_sequence_samples: self.discarded_sequence_samples,
            charge: self.net_charge,
            energy: self.net_energy,
            charge_throughput: self.cumulative_capacity,
            energy_throughput: self.cumulative_energy,
        }
    }
}

/// The file name of a session with the written times `started` and `ended`.
pub open spec fn filename_text(
    started: Seq<char>,
    ended: Seq<char>,
    sample_rate_hz: u32,
    format: RecordingFormat,
) -> Seq<char> {
    "KM003C_"@ + started + "_to_"@ + ended + "_BJT_"@ + decimal(sample_rate_hz as nat) + "SPS."@
        + format.suffix()
}

/// The file name of a session with the written times `started` and `ended`.
pub fn filename_from(
    started: &str,
    ended: &str,
    sample_rate_hz: u32,
    format: RecordingFormat,
) -> (name: String)
    ensures
        name@ == filename_text(started@, ended@, sample_rate_hz, format),
{
    let mut name = "KM003C_".to_owned();
    name.append(started);
    name.append("_to_");
    name.append(ended);
    name.append("_BJT_");
    append_decimal(&mut name, sample_rate_hz as u128);
    name.append("SPS.");
    name.append(format.extension());
    name
}

/// One file of a session that is still recorded.
#[derive(Debug, Clone)]
pub struct RecordingSegmentMetadata {
    pub index: u32,
    pub file_name: String,
    pub start_row: u64,
    pub end_row: u64,
    pub start_elapsed_us: u64,
    pub end_elapsed_us: u64,
    pub sealed: bool,
}

/// What is kept beside the segments of a session until it is saved.
#[derive(Debug, Clone)]
pub struct RecordingSessionManifestV1 {
    pub schema_version: u32,
    pub state: SessionState,
    pub format: RecordingFormat,
    pub metadata: RecordingSessionMetadataV1,
    pub segments: Vec<RecordingSegmentMetadata>,
}

impl RecordingSessionManifestV1 {
    /// A session that just started.
    pub fn new(format: RecordingFormat, metadata: RecordingSessionMetadataV1) -> (manifest:
        RecordingSessionManifestV1)
        ensures
            manifest.schema_version == SESSION_SCHEMA_VERSION,
            manifest.state == SessionState::Recording,
            manifest.format == format,
            manifest.metadata == metadata,
            manifest.segments@.len() == 0,
    {
        RecordingSessionManifestV1 {
            schema_version: SESSION_SCHEMA_VERSION,
            state: SessionState::Recording,
            format,
            metadata,
            segments: Vec::new(),
        }
    }
}

/// What is known of one file of a session.
#[verifier::ext_equal]
pub ghost struct SegmentFacts {
    pub index: u32,
    pub file_name: Seq<char>,
    pub start_row: u64,
    pub end_row: u64,
    pub start_elapsed_us: u64,
    pub end_elapsed_us: u64,
    pub sealed: bool,
}

impl View for RecordingSegmentMetadata {
    type V = SegmentFacts;

    open spec fn view(&self) -> SegmentFacts {
        SegmentFacts {
            index: self.index,
            file_name: self.file_name@,
            start_row: self.start_row,
            end_row: self.end_row,
            start_elapsed_us: self.start_elapsed_us,
            end_elapsed_us: self.end_elapsed_us,
            sealed: self.sealed,
        }
    }
}

/// What is known of the files of a session.
pub open spec fn segment_facts(segments: Seq<RecordingSegmentMetadata>) -> Seq<SegmentFacts> {
    segments.map_values(|segment: RecordingSegmentMetadata| segment@)
}

impl RecordingSegmentMetadata {
    /// The same entry once more.
    pub fn copied(&self) -> (copy: RecordingSegmentMetadata)
        ensures
            copy@ == self@,
    {
        RecordingSegmentMetadata {
            index: self.index,
            file_name: self.file_name.clone(),
            start_row: self.start_row,
            end_row: self.end_row,
            start_elapsed_us: self.start_elapsed_us,
            end_elapsed_us: self.end_elapsed_us,
            sealed: self.sealed,
        }
    }
}

/// The metadata file beside a recording file.
pub fn sidecar_path(data_path: &str) -> (path: String)
    ensures
        path@ == data_path@ + ".km003c.json"@,
{
    append_suffix(data_path, ".km003c.json")
}

/// Whether session `a` is listed before session `b`: later ones first, and of
/// two that started together the one that was found first.
pub open spec fn listed_before(starts: Seq<UtcInstant>, a: int, b: int) -> bool {
    starts[a].nanoseconds() > starts[b].nanoseconds() || (starts[a].nanoseconds()
        == starts[b].nanoseconds() && a < b)
}

/// Whether `order` lists every session once, in the order of the list.
pub open spec fn is_listing(order: Seq<usize>, starts: Seq<UtcInstant>) -> bool {
    &&& order.len() == starts.len()
    &&& forall|i: int| 0 <= i < order.len() ==> 0 <= #[trigger] order[i] < starts.len()
    &&& forall|i: int, j: int|
        0 <= i < j < order.len() ==> listed_before(
            starts,
            #[trigger] order[i] as int,
            #[trigger] order[j] as int,
        )
}

/// The order in which recoverable sessions are listed: the latest first.
pub fn listing_order(starts: &Vec<UtcInstant>) -> (order: Vec<usize>)
    requires
        forall|i: int| 0 <= i < starts.len() ==> (#[trigger] starts[i]).nanos < 1_000_000_000,
    ensures
        is_listing(order@, starts@),
{
    let mut order: Vec<usize> = Vec::new();
    let mut next: usize = 0;
    while next < starts.len()
        invariant
            forall|i: int| 0 <= i < starts.len() ==> (#[trigger] starts[i]).nanos < 1_000_000_000,
            next <= starts.len(),
            order.len() == next,
            forall|i: int| 0 <= i < order.len() ==> 0 <= #[trigger] order[i] < next,
            forall|i: int, j: int|
                0 <= i < j < order.len() ==> listed_before(
                    starts@,
                    #[trigger] order[i] as int,
                    #[trigger] order[j] as int,
                ),
        decreases starts.len() - next,
    {
        let mut place: usize = 0;
        while place < order.len() && !starts[next].is_after(starts[order[place]])
            invariant
                forall|i: int|
                    0 <= i < starts.len() ==> (#[trigger] starts[i]).nanos < 1_000_000_000,
                next < starts.len(),
                place <= order.len(),
                order.len() == next,
                forall|i: int| 0 <= i < order.len() ==> 0 <= #[trigger] order[i] < next,
                forall|i: int|
                    0 <= i < place ==> listed_before(
                        starts@,
                        #[trigger] order[i] as int,
                        next as int,
                    ),
            decreases order.len() - place,
        {
            place += 1;
        }
        let ghost before = order@;
        assert(forall|i: int|
            place <= i < before.len() ==> listed_before(
                starts@,
                next as int,
                #[trigger] before[i] as int,
            )) by {
            assert forall|i: int| place <= i < before.len() implies listed_before(
                starts@,
                next as int,
                #[trigger] before[i] as int,
            ) by {
                if i > place {
                    assert(listed_before(
                        starts@,
                        before[place as int] as int,
                        before[i] as int,
                    ));
                }
            }
        }
        order.insert(place, next);
        next += 1;
        assert(order@ =~= before.insert(place as int, (next - 1) as usize));
        assert forall|i: int, j: int| 0 <= i < j < order.len() implies listed_before(
            starts@,
            #[trigger] order[i] as int,
            #[trigger] order[j] as int,
        ) by {
            if i < place && j > place {
                assert(order@[i] == before[i] && order@[j] == before[j - 1]);
            } else if i > place {
                assert(order@[i] == before[i - 1] && order@[j] == before[j - 1]);
            } else if j < place {
                assert(order@[i] == before[i] && order@[j] == before[j]);
            }
        }
    }
    order
}

/// The bytes behind the first line of `segment`; none where it has only one.
pub open spec fn body_start(segment: Seq<u8>) -> int
    decreases segment.len(),
{
    if segment.len() == 0 {
        0
    } else if segment[0] == 10 {
        1
    } else {
        1 + body_start(segment.drop_first())
    }
}

/// The CSV file that `segments` make together: the first one whole, and each
/// later one without its header line.
pub open spec fn merged_csv(segments: Seq<Seq<u8>>) -> Seq<u8>
    decreases segments.len(),
{
    if segments.len() == 0 {
        Seq::empty()
    } else if segments.len() == 1 {
        segments[0]
    } else {
        merged_csv(segments.drop_last()) + segments.last().skip(body_start(segments.last()))
    }
}

/// The position behind the first line of `segment`.
pub fn csv_body_start(segment: &Vec<u8>) -> (start: usize)
    ensures
        start == body_start(segment@),
        start <= segment.len(),
{
    let mut i: usize = 0;
    assert(segment@.skip(0) =~= segment@);
    while i < segment.len()
        invariant
            i <= segment.len(),
            body_start(segment@) == i + body_start(segment@.skip(i as int)),
        decreases segment.len() - i,
    {
        let byte: u8 = segment[i];
        assert(segment@.skip(i as int).drop_first() =~= segment@.skip(i + 1));
        i += 1;
        if byte == 10 {
            return i;
        }
    }
    i
}

/// Appends the part of `segment` from `start` on.
fn append_bytes_from(output: &mut Vec<u8>, segment: &Vec<u8>, start: usize)
    requires
        start <= segment.len(),
    ensures
        final(output)@ == old(output)@ + segment@.skip(start as int),
{
    let mut i: usize = start;
    assert(output@ =~= old(output)@ + segment@.subrange(start as int, i as int));
    while i < segment.len()
        invariant
            start <= i <= segment.len(),
            output@ == old(output)@ + segment@.subrange(start as int, i as int),
        decreases segment.len() - i,
    {
        output.push(segment[i]);
        i += 1;
        assert(output@ =~= old(output)@ + segment@.subrange(start as int, i as int));
    }
    assert(segment@.subrange(start as int, i as int) =~= segment@.skip(start as int));
}

/// The contents of `segments`.
pub open spec fn contents(segments: Seq<Vec<u8>>) -> Seq<Seq<u8>> {
    segments.map_values(|s: Vec<u8>| s@)
}

/// The CSV file that `segments` make together.
pub fn merge_csv_segments(segments: &Vec<Vec<u8>>) -> (merged: Vec<u8>)
    ensures
        merged@ == merged_csv(contents(segments@)),
{
    let mut merged: Vec<u8> = Vec::new();
    let mut i: usize = 0;
    while i < segments.len()
        invariant
            i <= segments.len(),
            merged@ == merged_csv(contents(segments@.take(i as int))),
        decreases segments.len() - i,
    {
        let ghost after = contents(segments@.take(i + 1));
        assert(after.drop_last() =~= contents(segments@.take(i as int)));
        assert(after.last() == segments@[i as int]@);
        let start: usize = if i == 0 {
            0
        } else {
            csv_body_start(&segments[i])
        };
        append_bytes_from(&mut merged, &segments[i], start);
        i += 1;
        assert(merged@ =~= merged_csv(after));
    }
    assert(segments@.take(i as int) =~= segments@);
    merged
}

/// The length of the complete lines at the head of `bytes`.
pub open spec fn complete_lines(bytes: Seq<u8>) -> int
    decreases bytes.len(),
{
    if bytes.len() == 0 {
        0
    } else if bytes.last() == 10 {
        bytes.len() as int
    } else {
        complete_lines(bytes.drop_last())
    }
}

/// How much of an unfinished CSV file can be kept: its complete lines.
pub fn recover_csv_partial(bytes: &Vec<u8>) -> (kept: Result<usize, String>)
    ensures
        match kept {
            Ok(length) => length == complete_lines(bytes@) && 0 < length <= bytes.len()
                && bytes@[length - 1] == 10 && forall|i: int|
                length <= i < bytes.len() ==> bytes@[i] != 10,
            Err(error) => complete_lines(bytes@) == 0 && error@ == "CSV 尾段没有完整行"@
                && forall|i: int| 0 <= i < bytes.len() ==> bytes@[i] != 10,
        },
{
    let mut length: usize = bytes.len();
    assert(bytes@.take(length as int) =~= bytes@);
    while length > 0
        invariant
            length <= bytes.len(),
            complete_lines(bytes@) == complete_lines(bytes@.take(length as int)),
            forall|i: int| length <= i < bytes.len() ==> bytes@[i] != 10,
        decreases length,
    {
        if bytes[length - 1] == 10 {
            return Ok(length);
        }
        assert(bytes@.take(length as int).drop_last() =~= bytes@.take(length - 1));
        length -= 1;
    }
    Err("CSV 尾段没有完整行".to_owned())
}

/// What could be read of one field of the last row of a merged recording: its
/// value, nothing where the cell is empty, or why it could not be read.
#[derive(Debug)]
pub struct MergedTail {
    pub elapsed_us: Result<Option<u64>, String>,
    pub missing_samples: Result<Option<u64>, String>,
    pub interpolated_duration_us: Result<Option<u64>, String>,
    pub discarded_sequence_samples: Result<Option<u64>, String>,
    pub charge: Result<Option<i128>, String>,
    pub energy: Result<Option<i128>, String>,
    pub charge_throughput: Result<Option<i128>, String>,
    pub energy_throughput: Result<Option<i128>, String>,
}

/// Why a cell has no value, if it has none.
pub open spec fn cell_error<T>(name: Seq<char>, cell: Result<Option<T>, String>) -> Option<
    Seq<char>,
> {
    match cell {
        Err(error) => Some(error@),
        Ok(None) => Some("合并录制字段 "@ + name + " 末行为空"@),
        Ok(Some(_)) => None,
    }
}

/// The first error of `errors`, if there is one.
pub open spec fn first_error(errors: Seq<Option<Seq<char>>>) -> Option<Seq<char>>
    decreases errors.len(),
{
    if errors.len() == 0 {
        None
    } else if errors[0] is Some {
        errors[0]
    } else {
        first_error(errors.drop_first())
    }
}

impl MergedTail {
    /// Why the last row cannot be read, if it cannot.
    pub open spec fn error(self) -> Option<Seq<char>> {
        first_error(
            seq![
                cell_error("elapsed_us"@, self.elapsed_us),
                cell_error("cumulative_missing_samples"@, self.missing_samples),
                cell_error("cumulative_interpolated_duration_us"@, self.interpolated_duration_us),
                cell_error(
                    "cumulative_discarded_sequence_samples"@,
                    self.discarded_sequence_samples,
                ),
                cell_error("charge_uah"@, self.charge),
                cell_error("energy_uwh"@, self.energy),
                cell_error("charge_throughput_uah"@, self.charge_throughput),
                cell_error("energy_throughput_uwh"@, self.energy_throughput),
            ],
        )
    }
}

/// The value of a cell.
fn cell_value<T: Copy>(name: &str, cell: &Result<Option<T>, String>) -> (value: Result<T, String>)
    ensures
        match value {
            Ok(value) => *cell == Ok::<Option<T>, String>(Some(value)) && cell_error(
                name@,
                *cell,
            ) is None,
            Err(error) => cell_error(name@, *cell) == Some(error@),
        },
{
    match cell {
        Err(error) => Err(error.clone()),
        Ok(None) => {
            let mut error = "合并录制字段 ".to_owned();
            error.append(name);
            error.append(" 末行为空");
            Err(error)
        },
        Ok(Some(value)) => Ok(*value),
    }
}

/// What a merged recording of `height` rows amounts to, from its last row.
pub fn summarize_merged_recording(height: usize, tail: &MergedTail) -> (totals: Result<
    RecordingTotals,
    String,
>)
    ensures
        match totals {
            Err(error) => if height == 0 {
                error@ == "合并后的录制文件没有采样点"@
            } else {
                tail.error() == Some(error@)
            },
            Ok(totals) => {
                &&& height > 0
                &&& tail.error() is None
                &&& totals.rows == height
                &&& tail.elapsed_us == Ok::<Option<u64>, String>(Some(totals.elapsed_us))
                &&& tail.missing_samples == Ok::<Option<u64>, String>(Some(totals.missing_samples))
                &&& tail.interpolated_duration_us == Ok::<Option<u64>, String>(
                    Some(totals.interpolated_duration_us),
                )
                &&& tail.discarded_sequence_samples == Ok::<Option<u64>, String>(
                    Some(totals.discarded_sequence_samples),
                )
                &&& tail.charge == Ok::<Option<i128>, String>(Some(totals.charge))
                &&& tail.energy == Ok::<Option<i128>, String>(Some(totals.energy))
                &&& tail.charge_throughput == Ok::<Option<i128>, String>(
                    Some(totals.charge_throughput),
                )
                &&& tail.energy_throughput == Ok::<Option<i128>, String>(
                    Some(totals.energy_throughput),
                )
            },
        },
{
    if height == 0 {
        return Err("合并后的录制文件没有采样点".to_owned());
    }
    proof {
        reveal_with_fuel(first_error, 9);
    }
    let elapsed_us: u64 = match cell_value("elapsed_us", &tail.elapsed_us) {
        Ok(value) => value,
        Err(error) => {
            return Err(error);
        },
    };
    let missing_samples: u64 = match cell_value("cumulative_missing_samples", &tail.missing_samples) {
        Ok(value) => value,
        Err(error) => {
            return Err(error);
        },
    };
    let interpolated_duration_us: u64 = match cell_value(
        "cumulative_interpolated_duration_us",
        &tail.interpolated_duration_us,
    ) {
        Ok(value) => value,
        Err(error) => {
            return Err(error);
        },
    };
    let discarded_sequence_samples: u64 = match cell_value(
        "cumulative_discarded_sequence_samples",
        &tail.discarded_sequence_samples,
    ) {
        Ok(value) => value,
        Err(error) => {
            return Err(error);
        },
    };
    let charge: i128 = match cell_value("charge_uah", &tail.charge) {
        Ok(value) => value,
        Err(error) => {
            return Err(error);
        },
    };
    let energy: i128 = match cell_value("energy_uwh", &tail.energy) {
        Ok(value) => value,
        Err(error) => {
            return Err(error);
        },
    };
    let charge_throughput: i128 = match cell_value(
        "charge_throughput_uah",
        &tail.charge_throughput,
    ) {
        Ok(value) => value,
        Err(error) => {
            return Err(error);
        },
    };
    let energy_throughput: i128 = match cell_value(
        "energy_throughput_uwh",
        &tail.energy_throughput,
    ) {
        Ok(value) => value,
        Err(error) => {
            return Err(error);
        },
    };
    Ok(
        RecordingTotals {
            rows: height as u64,
            elapsed_us,
            missing_samples,
            interpolated_duration_us,
            discarded_sequence_samples,
            charge,
            energy,
            charge_throughput,
            energy_throughput,
        },
    )
}

/// Of the segments that a manifest names, those whose file exists are merged;
/// without one there is nothing to recover.
pub fn mergeable_segments(exists: &Vec<bool>) -> (segments: Result<Vec<usize>, String>)
    ensures
        match segments {
            Ok(segments) => segments.len() > 0 && is_selection(segments@, exists@),
            Err(error) => error@ == "恢复会话中没有可合并的数据段"@ && forall|i: int|
                0 <= i < exists.len() ==> !exists@[i],
        },
{
    let mut segments: Vec<usize> = Vec::new();
    let mut i: usize = 0;
    while i < exists.len()
        invariant
            i <= exists.len(),
            is_selection(segments@, exists@.take(i as int)),
        decreases exists.len() - i,
    {
        let ghost before = segments@;
        if exists[i] {
            segments.push(i);
        }
        i += 1;
        assert(is_selection(segments@, exists@.take(i as int))) by {
            assert forall|k: int| 0 <= k < i && exists@[k] implies segments@.contains(k as usize) by {
                if k == i - 1 {
                    assert(segments@[segments@.len() - 1] == k as usize);
                } else {
                    assert(exists@.take(i - 1)[k]);
                    let at = choose|at: int|
                        0 <= at < before.len() && before[at] == k as usize;
                    assert(segments@[at] == k as usize);
                }
            }
        }
    }
    assert(exists@.take(i as int) =~= exists@);
    if segments.len() == 0 {
        assert forall|k: int| 0 <= k < exists.len() implies !exists@[k] by {
            if exists@[k] {
                assert(segments@.contains(k as usize));
            }
        }
        return Err("恢复会话中没有可合并的数据段".to_owned());
    }
    Ok(segments)
}

/// Whether `chosen` holds the positions of `flags` that are set, in order.
pub open spec fn is_selection(chosen: Seq<usize>, flags: Seq<bool>) -> bool {
    &&& forall|i: int|
        0 <= i < chosen.len() ==> 0 <= #[trigger] chosen[i] < flags.len()
            && flags[chosen[i] as int]
    &&& forall|i: int, j: int| 0 <= i < j < chosen.len() ==> chosen[i] < chosen[j]
    &&& forall|k: int| 0 <= k < flags.len() && flags[k] ==> chosen.contains(k as usize)
}

/// Merging keeps every byte of every segment but the header lines behind the
/// first, in order: one more segment only adds its body.
pub proof fn law_merging_appends_bodies(segments: Seq<Seq<u8>>, next: Seq<u8>)
    requires
        segments.len() > 0,
    ensures
        merged_csv(segments.push(next)) == merged_csv(segments) + next.skip(body_start(next)),
        merged_csv(seq![next]) == next,
{
    assert(segments.push(next).drop_last() =~= segments);
}

/// However many files a session was written in, what is put together has one
/// header, that of the first file: of every further file follows what stands
/// behind its first line.
pub proof fn law_merged_files_have_one_header(
    segments: Seq<Seq<u8>>,
    header: Seq<u8>,
    body: Seq<u8>,
)
    requires
        segments.len() > 0,
        forall|i: int| 0 <= i < header.len() ==> #[trigger] header[i] != 10,
    ensures
        merged_csv(segments.push(header.push(10) + body)) == merged_csv(segments) + body,
        merged_csv(seq![header.push(10) + body]) == header.push(10) + body,
        merged_csv(segments.push(header)) == merged_csv(segments),
{
    let next = header.push(10) + body;
    lemma_body_follows_the_header(header, body);
    law_merging_appends_bodies(segments, next);
    assert(next.skip(header.len() as int + 1) =~= body);
    lemma_header_without_body(header);
    law_merging_appends_bodies(segments, header);
    assert(merged_csv(segments) + header.skip(header.len() as int) =~= merged_csv(segments));
}

/// The first line ends at the first line break.
proof fn lemma_body_follows_the_header(header: Seq<u8>, body: Seq<u8>)
    requires
        forall|i: int| 0 <= i < header.len() ==> #[trigger] header[i] != 10,
    ensures
        body_start(header.push(10) + body) == header.len() + 1,
    decreases header.len(),
{
    let whole = header.push(10) + body;
    if header.len() > 0 {
        assert(whole[0] == header[0]);
        assert forall|i: int| 0 <= i < header.drop_first().len() implies
            #[trigger] header.drop_first()[i] != 10 by {
            assert(header.drop_first()[i] == header[i + 1]);
        }
        lemma_body_follows_the_header(header.drop_first(), body);
        assert(whole.drop_first() =~= header.drop_first().push(10) + body);
    } else {
        assert(whole[0] == 10);
    }
}

/// A file without a line break has nothing behind its first line.
proof fn lemma_header_without_body(header: Seq<u8>)
    requires
        forall|i: int| 0 <= i < header.len() ==> #[trigger] header[i] != 10,
    ensures
        body_start(header) == header.len(),
    decreases header.len(),
{
    if header.len() > 0 {
        assert(header[0] != 10);
        assert forall|i: int| 0 <= i < header.drop_first().len() implies
            #[trigger] header.drop_first()[i] != 10 by {
            assert(header.drop_first()[i] == header[i + 1]);
        }
        lemma_header_without_body(header.drop_first());
    }
}

/// The intervals of a session count together, each by the time from its start
/// to its end, or to now while it goes on.
pub proof fn law_intervals_add_up(
    intervals: Seq<RecordingTimeInterval>,
    interval: RecordingTimeInterval,
    now: UtcInstant,
)
    requires
        total_millis(intervals, now) + interval.millis(now) <= u64::MAX,
    ensures
        total_millis(Seq::empty(), now) == 0,
        total_millis(intervals.push(interval), now) == total_millis(intervals, now)
            + interval.millis(now),
        interval.ended_at_utc matches Some(end) ==> interval.millis(now) == end.millis_since(
            interval.started_at_utc,
        ),
        interval.ended_at_utc is None ==> interval.millis(now) == now.millis_since(
            interval.started_at_utc,
        ),
{
    assert(intervals.push(interval).drop_last() =~= intervals);
}

/// A session that stops and goes on has one more interval, from the one instant
/// to the other, under its reason: among the disconnections where its device
/// went, among the pauses otherwise. The intervals before it stay as they were.
pub proof fn law_a_stop_and_a_start_make_one_interval(
    facts: SessionFacts,
    reason: IntervalReason,
    from: UtcInstant,
    to: UtcInstant,
)
    ensures
        ({
            let gone = reason == IntervalReason::UsbDisconnected;
            let stopped = facts.stopped(reason, from);
            let after = stopped.continued(gone, to);
            let open = RecordingTimeInterval {
                reason,
                started_at_utc: from,
                ended_at_utc: None,
            };
            let closed = RecordingTimeInterval {
                reason,
                started_at_utc: from,
                ended_at_utc: Some(to),
            };
            &&& gone ==> {
                &&& stopped.disconnects == facts.disconnects.push(open)
                &&& after.disconnects == facts.disconnects.push(closed)
                &&& after.pauses == facts.pauses
            }
            &&& !gone ==> {
                &&& stopped.pauses == facts.pauses.push(open)
                &&& after.pauses == facts.pauses.push(closed)
                &&& after.disconnects == facts.disconnects
            }
            &&& after.totals() == facts.totals()
            &&& after.times == facts.times
        }),
{
    let gone = reason == IntervalReason::UsbDisconnected;
    let stopped = facts.stopped(reason, from);
    let after = stopped.continued(gone, to);
    let closed = RecordingTimeInterval { reason, started_at_utc: from, ended_at_utc: Some(to) };
    if gone {
        assert(last_open(stopped.disconnects) == facts.disconnects.len());
        assert(after.disconnects =~= facts.disconnects.push(closed));
    } else {
        assert(last_open(stopped.pauses) == facts.pauses.len());
        assert(after.pauses =~= facts.pauses.push(closed));
    }
}

/// Going on ends no more than one interval, and only one that goes on; where
/// none does, nothing changes.
pub proof fn law_going_on_ends_the_last_open_interval(
    intervals: Seq<RecordingTimeInterval>,
    end: UtcInstant,
    at: int,
)
    requires
        -1 <= at < intervals.len(),
        at >= 0 ==> intervals[at].ended_at_utc is None,
        forall|i: int| at < i < intervals.len() ==> (#[trigger] intervals[i]).ended_at_utc is Some,
    ensures
        closed_last(intervals, end).len() == intervals.len(),
        forall|i: int|
            0 <= i < intervals.len() && i != at ==> #[trigger] closed_last(intervals, end)[i]
                == intervals[i],
        at >= 0 ==> {
            let closed = closed_last(intervals, end)[at];
            &&& closed.ended_at_utc == Some(end)
            &&& closed.started_at_utc == intervals[at].started_at_utc
            &&& closed.reason == intervals[at].reason
        },
{
    lemma_last_open_is(intervals, at);
}

/// The last interval that goes on is found.
proof fn lemma_last_open_is(intervals: Seq<RecordingTimeInterval>, at: int)
    requires
        -1 <= at < intervals.len(),
        at >= 0 ==> intervals[at].ended_at_utc is None,
        forall|i: int| at < i < intervals.len() ==> (#[trigger] intervals[i]).ended_at_utc is Some,
    ensures
        last_open(intervals) == at,
    decreases intervals.len(),
{
    if intervals.len() > 0 && at < intervals.len() - 1 {
        assert(intervals[intervals.len() - 1].ended_at_utc is Some);
        lemma_last_open_is(intervals.drop_last(), at);
    }
}

/// At the end of a session no interval goes on: one that did ends then, and
/// the others stay as they were.
pub proof fn law_an_ended_session_has_no_open_interval(facts: SessionFacts, at: UtcInstant, i: int)
    ensures
        facts.settled(at).pauses.len() == facts.pauses.len(),
        facts.settled(at).disconnects.len() == facts.disconnects.len(),
        0 <= i < facts.pauses.len() ==> {
            let before = facts.pauses[i];
            let after = facts.settled(at).pauses[i];
            &&& after.ended_at_utc == (if before.ended_at_utc is None {
                Some(at)
            } else {
                before.ended_at_utc
            })
            &&& after.started_at_utc == before.started_at_utc
            &&& after.reason == before.reason
        },
        0 <= i < facts.disconnects.len() ==> {
            let before = facts.disconnects[i];
            let after = facts.settled(at).disconnects[i];
            &&& after.ended_at_utc == (if before.ended_at_utc is None {
                Some(at)
            } else {
                before.ended_at_utc
            })
            &&& after.started_at_utc == before.started_at_utc
            &&& after.reason == before.reason
        },
{
}

/// The metadata hold what the recording came to, each amount under its own
/// name, and give it back.
pub proof fn law_metadata_hold_what_was_recorded(facts: SessionFacts, totals: RecordingTotals)
    ensures
        ({
            let after = facts.with_totals(totals);
            &&& after.totals() == totals
            &&& after.rows == totals.rows
            &&& after.effective_duration_us == totals.elapsed_us
            &&& after.missing_samples == totals.missing_samples
            &&& after.interpolated_duration_us == totals.interpolated_duration_us
            &&& after.discarded_sequence_samples == totals.discarded_sequence_samples
            &&& after.net_charge == totals.charge
            &&& after.net_energy == totals.energy
            &&& after.cumulative_capacity == totals.charge_throughput
            &&& after.cumulative_energy == totals.energy_throughput
            &&& after.session_id == facts.session_id
            &&& after.device == facts.device
            &&& after.times == facts.times
            &&& after.pauses == facts.pauses
            &&& after.disconnects == facts.disconnects
        }),
{
}

/// The wall clock of a session runs from its start to its end, or to now while
/// it runs; what was paused and what was disconnected are the sums of their
/// intervals.
pub proof fn law_wall_clock_runs_from_start_to_end(
    facts: SessionFacts,
    at: UtcInstant,
    now: UtcInstant,
)
    ensures
        facts.ended(at).with_durations(now).wall_clock_duration_ms == at.millis_since(
            facts.times.started,
        ),
        facts.times.ended is None ==> facts.with_durations(now).wall_clock_duration_ms
            == now.millis_since(facts.times.started),
        facts.with_durations(now).paused_duration_ms == total_millis(facts.pauses, now),
        facts.with_durations(now).disconnected_duration_ms == total_millis(facts.disconnects, now),
        facts.ended(at).times.ended == Some(at),
        facts.ended(at).times.started == facts.times.started,
        facts.saved(at).times.saved == Some(at),
        facts.saved(at).times.ended == facts.times.ended,
        facts.with_durations(now).totals() == facts.totals(),
        facts.ended(at).totals() == facts.totals(),
        facts.saved(at).totals() == facts.totals(),
{
}

/// Sessions are listed with the newest first.
pub proof fn law_newest_sessions_are_listed_first(
    order: Seq<usize>,
    starts: Seq<UtcInstant>,
    i: int,
    j: int,
)
    requires
        is_listing(order, starts),
        0 <= i < j < order.len(),
    ensures
        order[i] != order[j],
        ({
            let a = starts[order[i] as int];
            let b = starts[order[j] as int];
            a.seconds * 1_000_000_000 + a.nanos >= b.seconds * 1_000_000_000 + b.nanos
        }),
{
    assert(listed_before(starts, order[i] as int, order[j] as int));
}

/// A field of the last row that cannot be read, or is not there, is told before
/// any other: there is no error exactly where every field is there.
pub proof fn law_a_merged_recording_needs_every_field(tail: MergedTail)
    ensures
        tail.error() is None <==> {
            &&& tail.elapsed_us matches Ok(Some(_))
            &&& tail.missing_samples matches Ok(Some(_))
            &&& tail.interpolated_duration_us matches Ok(Some(_))
            &&& tail.discarded_sequence_samples matches Ok(Some(_))
            &&& tail.charge matches Ok(Some(_))
            &&& tail.energy matches Ok(Some(_))
            &&& tail.charge_throughput matches Ok(Some(_))
            &&& tail.energy_throughput matches Ok(Some(_))
        },
        tail.elapsed_us matches Err(error) ==> tail.error() == Some(error@),
        tail.elapsed_us matches Ok(None) ==> tail.error() == Some(
            "合并录制字段 "@ + "elapsed_us"@ + " 末行为空"@,
        ),
{
    reveal_with_fuel(first_error, 9);
}

} // verus!
