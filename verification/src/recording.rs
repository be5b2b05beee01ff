//! What a recording holds: rows relative to its start, carried on across
//! segments, batched for the writer without losing a row.
use vstd::prelude::*;
use vstd::string::*;

use crate::measurement::MeasurementSample;

verus! {

pub const RECORDING_SCHEMA_VERSION: &'static str = "1";

/// Rows in one group of a recording file.
pub const ROW_GROUP_SIZE: usize = 8_192;

/// A file format of a recording.
#[derive(Debug, Clone, Copy, PartialEq, Eq, Structural)]
pub enum RecordingFormat {
    Parquet,
    Csv,
}

impl RecordingFormat {
    /// The file extension.
    pub open spec fn suffix(self) -> Seq<char> {
        match self {
            RecordingFormat::Parquet => "parquet"@,
            RecordingFormat::Csv => "csv"@,
        }
    }

    /// Every format, in the order in which it is offered.
    pub fn all() -> (formats: [RecordingFormat; 2])
        ensures
            formats@ == seq![RecordingFormat::Parquet, RecordingFormat::Csv],
    {
        let formats = [RecordingFormat::Parquet, RecordingFormat::Csv];
        formats
    }

    /// The name.
    pub fn label(self) -> (label: &'static str)
        ensures
            label@ == (match self {
                RecordingFormat::Parquet => "Parquet"@,
                RecordingFormat::Csv => "CSV"@,
            }),
    {
        match self {
            RecordingFormat::Parquet => "Parquet",
            RecordingFormat::Csv => "CSV",
        }
    }

    /// The file extension.
    pub fn extension(self) -> (extension: &'static str)
        ensures
            extension@ == self.suffix(),
    {
        match self {
            RecordingFormat::Parquet => "parquet",
            RecordingFormat::Csv => "csv",
        }
    }
}

/// The device that was recorded.
#[derive(Debug, Clone)]
pub struct RecordingMetadata {
    pub model: String,
    pub firmware: String,
    pub serial: String,
}

/// What is known of a device.
#[verifier::ext_equal]
pub ghost struct DeviceFacts {
    pub model: Seq<char>,
    pub firmware: Seq<char>,
    pub serial: Seq<char>,
}

impl View for RecordingMetadata {
    type V = DeviceFacts;

    open spec fn view(&self) -> DeviceFacts {
        DeviceFacts { model: self.model@, firmware: self.firmware@, serial: self.serial@ }
    }
}

impl RecordingMetadata {
    /// The same device once more.
    pub fn copied(&self) -> (copy: RecordingMetadata)
        ensures
            copy@ == self@,
    {
        RecordingMetadata {
            model: self.model.clone(),
            firmware: self.firmware.clone(),
            serial: self.serial.clone(),
        }
    }
}

/// `a - b`, and zero where `b` is larger.
pub open spec fn excess(a: u64, b: u64) -> int {
    if a < b {
        0
    } else {
        a - b
    }
}

/// `value`, kept inside the range of a 64-bit counter.
pub open spec fn in_counter(value: int) -> u64 {
    if value > u64::MAX {
        u64::MAX
    } else {
        value as u64
    }
}

/// `value`, kept inside the range of an exact charge or energy.
pub open spec fn in_amount(value: int) -> i128 {
    if value > i128::MAX {
        i128::MAX
    } else if value < i128::MIN {
        i128::MIN
    } else {
        value as i128
    }
}

/// `base` and the excess of `a` over `b`.
pub open spec fn carried(base: u64, a: u64, b: u64) -> u64 {
    in_counter(base + excess(a, b))
}

/// `base` and the difference of `a` and `b`.
pub open spec fn carried_amount(base: i128, a: i128, b: i128) -> i128 {
    in_amount(base + in_amount(a - b))
}

/// `base` and the excess of `a` over `b`.
fn carry(base: u64, a: u64, b: u64) -> (result: u64)
    ensures
        result == carried(base, a, b),
{
    base.saturating_add(a.saturating_sub(b))
}

/// `a - b`, kept in range.
pub fn amount_difference(a: i128, b: i128) -> (result: i128)
    ensures
        result == in_amount(a - b),
{
    match a.checked_sub(b) {
        Some(value) => value,
        None => if b > 0 {
            i128::MIN
        } else {
            i128::MAX
        },
    }
}

/// `a + b`, kept in range.
pub fn amount_sum(a: i128, b: i128) -> (result: i128)
    ensures
        result == in_amount(a + b),
{
    match a.checked_add(b) {
        Some(value) => value,
        None => if b > 0 {
            i128::MAX
        } else {
            i128::MIN
        },
    }
}

/// `base` and the difference of `a` and `b`.
fn carry_amount(base: i128, a: i128, b: i128) -> (result: i128)
    ensures
        result == carried_amount(base, a, b),
{
    amount_sum(base, amount_difference(a, b))
}

/// What the counters showed when a recording started.
#[derive(Debug, Clone, Copy, PartialEq, Eq, Structural)]
pub struct RecordingOrigin {
    pub elapsed_us: u64,
    pub charge: i128,
    pub energy: i128,
    pub charge_throughput: i128,
    pub energy_throughput: i128,
    pub cumulative_missing_samples: u64,
    pub cumulative_interpolated_duration_us: u64,
    pub cumulative_discarded_sequence_samples: u64,
}

/// What the earlier segments of a recording amount to.
#[derive(Debug, Clone, Copy, PartialEq, Eq, Structural)]
pub struct RecordingOffsets {
    pub elapsed_us: u64,
    pub sample_index: u64,
    pub charge: i128,
    pub energy: i128,
    pub charge_throughput: i128,
    pub energy_throughput: i128,
    pub cumulative_missing_samples: u64,
    pub cumulative_interpolated_duration_us: u64,
    pub cumulative_discarded_sequence_samples: u64,
}

impl RecordingOffsets {
    /// There are no earlier segments.
    pub open spec fn none() -> RecordingOffsets {
        RecordingOffsets {
            elapsed_us: 0,
            sample_index: 0,
            charge: 0,
            energy: 0,
            charge_throughput: 0,
            energy_throughput: 0,
            cumulative_missing_samples: 0,
            cumulative_interpolated_duration_us: 0,
            cumulative_discarded_sequence_samples: 0,
        }
    }
}

impl Default for RecordingOffsets {
    fn default() -> (offsets: RecordingOffsets)
        ensures
            offsets == RecordingOffsets::none(),
    {
        RecordingOffsets {
            elapsed_us: 0,
            sample_index: 0,
            charge: 0,
            energy: 0,
            charge_throughput: 0,
            energy_throughput: 0,
            cumulative_missing_samples: 0,
            cumulative_interpolated_duration_us: 0,
            cumulative_discarded_sequence_samples: 0,
        }
    }
}

/// What the counters showed at `sample`; zero where there was none.
pub open spec fn origin_at(sample: Option<MeasurementSample>) -> RecordingOrigin {
    match sample {
        Some(sample) => RecordingOrigin {
            elapsed_us: sample.elapsed_us,
            charge: sample.charge,
            energy: sample.energy,
            charge_throughput: sample.charge_throughput,
            energy_throughput: sample.energy_throughput,
            cumulative_missing_samples: sample.cumulative_missing_samples,
            cumulative_interpolated_duration_us: sample.cumulative_interpolated_duration_us,
            cumulative_discarded_sequence_samples: sample.cumulative_discarded_sequence_samples,
        },
        None => RecordingOrigin {
            elapsed_us: 0,
            charge: 0,
            energy: 0,
            charge_throughput: 0,
            energy_throughput: 0,
            cumulative_missing_samples: 0,
            cumulative_interpolated_duration_us: 0,
            cumulative_discarded_sequence_samples: 0,
        },
    }
}

impl RecordingOrigin {
    /// The origin moved by what passed between `paused` and `resumed`.
    pub open spec fn rebased(
        self,
        paused: MeasurementSample,
        resumed: MeasurementSample,
    ) -> RecordingOrigin {
        RecordingOrigin {
            elapsed_us: carried(self.elapsed_us, resumed.elapsed_us, paused.elapsed_us),
            charge: carried_amount(self.charge, resumed.charge, paused.charge),
            energy: carried_amount(self.energy, resumed.energy, paused.energy),
            charge_throughput: carried_amount(
                self.charge_throughput,
                resumed.charge_throughput,
                paused.charge_throughput,
            ),
            energy_throughput: carried_amount(
                self.energy_throughput,
                resumed.energy_throughput,
                paused.energy_throughput,
            ),
            cumulative_missing_samples: carried(
                self.cumulative_missing_samples,
                resumed.cumulative_missing_samples,
                paused.cumulative_missing_samples,
            ),
            cumulative_interpolated_duration_us: carried(
                self.cumulative_interpolated_duration_us,
                resumed.cumulative_interpolated_duration_us,
                paused.cumulative_interpolated_duration_us,
            ),
            cumulative_discarded_sequence_samples: carried(
                self.cumulative_discarded_sequence_samples,
                resumed.cumulative_discarded_sequence_samples,
                paused.cumulative_discarded_sequence_samples,
            ),
        }
    }

    /// What the counters show at `sample`; zero where there is none.
    pub fn at(sample: Option<MeasurementSample>) -> (origin: RecordingOrigin)
        ensures
            origin == origin_at(sample),
    {
        match sample {
            Some(sample) => RecordingOrigin {
                elapsed_us: sample.elapsed_us,
                charge: sample.charge,
                energy: sample.energy,
                charge_throughput: sample.charge_throughput,
                energy_throughput: sample.energy_throughput,
                cumulative_missing_samples: sample.cumulative_missing_samples,
                cumulative_interpolated_duration_us: sample.cumulative_interpolated_duration_us,
                cumulative_discarded_sequence_samples: sample.cumulative_discarded_sequence_samples,
            },
            None => RecordingOrigin {
                elapsed_us: 0,
                charge: 0,
                energy: 0,
                charge_throughput: 0,
                energy_throughput: 0,
                cumulative_missing_samples: 0,
                cumulative_interpolated_duration_us: 0,
                cumulative_discarded_sequence_samples: 0,
            },
        }
    }

    /// Moves the origin by what passed between `paused` and `resumed`.
    pub fn rebase_after_pause(&mut self, paused: MeasurementSample, resumed: MeasurementSample)
        ensures
            *final(self) == old(self).rebased(paused, resumed),
    {
        self.elapsed_us = carry(self.elapsed_us, resumed.elapsed_us, paused.elapsed_us);
        self.charge = carry_amount(self.charge, resumed.charge, paused.charge);
        self.energy = carry_amount(self.energy, resumed.energy, paused.energy);
        self.charge_throughput = carry_amount(
            self.charge_throughput,
            resumed.charge_throughput,
            paused.charge_throughput,
        );
        self.energy_throughput = carry_amount(
            self.energy_throughput,
            resumed.energy_throughput,
            paused.energy_throughput,
        );
        self.cumulative_missing_samples = carry(
            self.cumulative_missing_samples,
            resumed.cumulative_missing_samples,
            paused.cumulative_missing_samples,
        );
        self.cumulative_interpolated_duration_us = carry(
            self.cumulative_interpolated_duration_us,
            resumed.cumulative_interpolated_duration_us,
            paused.cumulative_interpolated_duration_us,
        );
        self.cumulative_discarded_sequence_samples = carry(
            self.cumulative_discarded_sequence_samples,
            resumed.cumulative_discarded_sequence_samples,
            paused.cumulative_discarded_sequence_samples,
        );
    }
}

/// One row of a recording.
#[derive(Debug, Clone, Copy, PartialEq, Eq, Structural)]
pub struct RecordingRow {
    pub elapsed_us: u64,
    pub sample_index: u64,
    pub sequence: u32,
    pub marker: u32,
    pub sample_rate_hz: u32,
    pub missing_samples: u32,
    pub gap_duration_us: u64,
    pub interpolated: bool,
    pub cumulative_missing_samples: u64,
    pub cumulative_interpolated_duration_us: u64,
    pub discarded_sequence_samples: u32,
    pub cumulative_discarded_sequence_samples: u64,
    pub vbus_uv: i64,
    pub ibus_ua: i64,
    pub power_uw: i64,
    pub charge: i128,
    pub energy: i128,
    pub charge_throughput: i128,
    pub energy_throughput: i128,
    pub cc1_uv: i64,
    pub cc2_uv: i64,
    pub dp_uv: i64,
    pub dm_uv: i64,
}

/// The row that `sample` gives in a recording that started at `origin` and
/// carries on from `offsets`.
pub open spec fn row_of(
    sample: MeasurementSample,
    origin: RecordingOrigin,
    offsets: RecordingOffsets,
    sample_index: u64,
) -> RecordingRow {
    RecordingRow {
        elapsed_us: carried(offsets.elapsed_us, sample.elapsed_us, origin.elapsed_us),
        sample_index,
        sequence: sample.sequence as u32,
        marker: sample.marker as u32,
        sample_rate_hz: sample.sample_rate_hz as u32,
        missing_samples: sample.missing_samples as u32,
        gap_duration_us: sample.gap_duration_us,
        interpolated: sample.interpolated,
        cumulative_missing_samples: carried(
            offsets.cumulative_missing_samples,
            sample.cumulative_missing_samples,
            origin.cumulative_missing_samples,
        ),
        cumulative_interpolated_duration_us: carried(
            offsets.cumulative_interpolated_duration_us,
            sample.cumulative_interpolated_duration_us,
            origin.cumulative_interpolated_duration_us,
        ),
        discarded_sequence_samples: sample.discarded_sequence_samples,
        cumulative_discarded_sequence_samples: carried(
            offsets.cumulative_discarded_sequence_samples,
            sample.cumulative_discarded_sequence_samples,
            origin.cumulative_discarded_sequence_samples,
        ),
        vbus_uv: sample.vbus_uv,
        ibus_ua: sample.ibus_ua,
        power_uw: sample.power_uw,
        charge: carried_amount(offsets.charge, sample.charge, origin.charge),
        energy: carried_amount(offsets.energy, sample.energy, origin.energy),
        charge_throughput: carried_amount(
            offsets.charge_throughput,
            sample.charge_throughput,
            origin.charge_throughput,
        ),
        energy_throughput: carried_amount(
            offsets.energy_throughput,
            sample.energy_throughput,
            origin.energy_throughput,
        ),
        cc1_uv: sample.cc1_uv,
        cc2_uv: sample.cc2_uv,
        dp_uv: sample.dp_uv,
        dm_uv: sample.dm_uv,
    }
}

impl RecordingRow {
    /// The row that `sample` gives in a recording that started at `origin` and
    /// carries on from `offsets`.
    pub fn from_sample(
        sample: MeasurementSample,
        origin: RecordingOrigin,
        offsets: RecordingOffsets,
        sample_index: u64,
    ) -> (row: RecordingRow)
        ensures
            row == row_of(sample, origin, offsets, sample_index),
    {
        RecordingRow {
            elapsed_us: carry(offsets.elapsed_us, sample.elapsed_us, origin.elapsed_us),
            sample_index,
            sequence: sample.sequence as u32,
            marker: sample.marker as u32,
            sample_rate_hz: sample.sample_rate_hz as u32,
            missing_samples: sample.missing_samples as u32,
            gap_duration_us: sample.gap_duration_us,
            interpolated: sample.interpolated,
            cumulative_missing_samples: carry(
                offsets.cumulative_missing_samples,
                sample.cumulative_missing_samples,
                origin.cumulative_missing_samples,
            ),
            cumulative_interpolated_duration_us: carry(
                offsets.cumulative_interpolated_duration_us,
                sample.cumulative_interpolated_duration_us,
                origin.cumulative_interpolated_duration_us,
            ),
            discarded_sequence_samples: sample.discarded_sequence_samples,
            cumulative_discarded_sequence_samples: carry(
                offsets.cumulative_discarded_sequence_samples,
                sample.cumulative_discarded_sequence_samples,
                origin.cumulative_discarded_sequence_samples,
            ),
            vbus_uv: sample.vbus_uv,
            ibus_ua: sample.ibus_ua,
            power_uw: sample.power_uw,
            charge: carry_amount(offsets.charge, sample.charge, origin.charge),
            energy: carry_amount(offsets.energy, sample.energy, origin.energy),
            charge_throughput: carry_amount(
                offsets.charge_throughput,
                sample.charge_throughput,
                origin.charge_throughput,
            ),
            energy_throughput: carry_amount(
                offsets.energy_throughput,
                sample.energy_throughput,
                origin.energy_throughput,
            ),
            cc1_uv: sample.cc1_uv,
            cc2_uv: sample.cc2_uv,
            dp_uv: sample.dp_uv,
            dm_uv: sample.dm_uv,
        }
    }
}

/// What a recording amounts to.
#[derive(Debug, Clone, Copy, PartialEq, Eq, Structural)]
pub struct RecordingTotals {
    pub rows: u64,
    pub elapsed_us: u64,
    pub missing_samples: u64,
    pub interpolated_duration_us: u64,
    pub discarded_sequence_samples: u64,
    pub charge: i128,
    pub energy: i128,
    pub charge_throughput: i128,
    pub energy_throughput: i128,
}

/// The fraction of a recording's time that was measured rather than
/// interpolated: `measured_us` of `elapsed_us`.
#[derive(Debug, Clone, Copy, PartialEq, Eq, Structural)]
pub struct Completeness {
    pub measured_us: u64,
    pub elapsed_us: u64,
}

/// What the earlier segments amount to.
pub open spec fn totals_of_offsets(offsets: RecordingOffsets) -> RecordingTotals {
    RecordingTotals {
        rows: offsets.sample_index,
        elapsed_us: offsets.elapsed_us,
        missing_samples: offsets.cumulative_missing_samples,
        interpolated_duration_us: offsets.cumulative_interpolated_duration_us,
        discarded_sequence_samples: offsets.cumulative_discarded_sequence_samples,
        charge: offsets.charge,
        energy: offsets.energy,
        charge_throughput: offsets.charge_throughput,
        energy_throughput: offsets.energy_throughput,
    }
}

/// What a recording amounts to whose last row is `row`.
pub open spec fn totals_of_row(row: RecordingRow) -> RecordingTotals {
    RecordingTotals {
        rows: (row.sample_index + 1) as u64,
        elapsed_us: row.elapsed_us,
        missing_samples: row.cumulative_missing_samples,
        interpolated_duration_us: row.cumulative_interpolated_duration_us,
        discarded_sequence_samples: row.cumulative_discarded_sequence_samples,
        charge: row.charge,
        energy: row.energy,
        charge_throughput: row.charge_throughput,
        energy_throughput: row.energy_throughput,
    }
}

impl RecordingTotals {
    /// What a later segment carries on from.
    pub open spec fn as_offsets(self) -> RecordingOffsets {
        RecordingOffsets {
            elapsed_us: self.elapsed_us,
            sample_index: self.rows,
            charge: self.charge,
            energy: self.energy,
            charge_throughput: self.charge_throughput,
            energy_throughput: self.energy_throughput,
            cumulative_missing_samples: self.missing_samples,
            cumulative_interpolated_duration_us: self.interpolated_duration_us,
            cumulative_discarded_sequence_samples: self.discarded_sequence_samples,
        }
    }

    /// The fraction of time that was measured; all of it where no time passed.
    pub open spec fn measured(self) -> Completeness {
        if self.elapsed_us == 0 {
            Completeness { measured_us: 1, elapsed_us: 1 }
        } else {
            Completeness {
                measured_us: excess(self.elapsed_us, self.interpolated_duration_us) as u64,
                elapsed_us: self.elapsed_us,
            }
        }
    }

    /// What the earlier segments amount to.
    pub fn from_offsets(offsets: RecordingOffsets) -> (totals: RecordingTotals)
        ensures
            totals == totals_of_offsets(offsets),
    {
        RecordingTotals {
            rows: offsets.sample_index,
            elapsed_us: offsets.elapsed_us,
            missing_samples: offsets.cumulative_missing_samples,
            interpolated_duration_us: offsets.cumulative_interpolated_duration_us,
            discarded_sequence_samples: offsets.cumulative_discarded_sequence_samples,
            charge: offsets.charge,
            energy: offsets.energy,
            charge_throughput: offsets.charge_throughput,
            energy_throughput: offsets.energy_throughput,
        }
    }

    /// What a recording amounts to whose last row is `row`.
    pub fn from_row(row: RecordingRow) -> (totals: RecordingTotals)
        requires
            row.sample_index < u64::MAX,
        ensures
            totals == totals_of_row(row),
    {
        RecordingTotals {
            rows: row.sample_index + 1,
            elapsed_us: row.elapsed_us,
            missing_samples: row.cumulative_missing_samples,
            interpolated_duration_us: row.cumulative_interpolated_duration_us,
            discarded_sequence_samples: row.cumulative_discarded_sequence_samples,
            charge: row.charge,
            energy: row.energy,
            charge_throughput: row.charge_throughput,
            energy_throughput: row.energy_throughput,
        }
    }

    /// What a later segment carries on from.
    pub fn offsets(self) -> (offsets: RecordingOffsets)
        ensures
            offsets == self.as_offsets(),
    {
        RecordingOffsets {
            elapsed_us: self.elapsed_us,
            sample_index: self.rows,
            charge: self.charge,
            energy: self.energy,
            charge_throughput: self.charge_throughput,
            energy_throughput: self.energy_throughput,
            cumulative_missing_samples: self.missing_samples,
            cumulative_interpolated_duration_us: self.interpolated_duration_us,
            cumulative_discarded_sequence_samples: self.discarded_sequence_samples,
        }
    }

    /// The fraction of time that was measured; all of it where no time passed.
    pub fn completeness(self) -> (completeness: Completeness)
        ensures
            completeness == self.measured(),
            completeness.measured_us <= completeness.elapsed_us,
            0 < completeness.elapsed_us,
    {
        if self.elapsed_us == 0 {
            Completeness { measured_us: 1, elapsed_us: 1 }
        } else {
            Completeness {
                measured_us: self.elapsed_us.saturating_sub(self.interpolated_duration_us),
                elapsed_us: self.elapsed_us,
            }
        }
    }
}

/// A finished recording.
#[derive(Debug, Clone)]
pub struct RecordingSummary {
    pub path: String,
    pub totals: RecordingTotals,
}

/// How a recording writer ended.
#[derive(Debug)]
pub enum RecordingEvent {
    Finished(RecordingSummary),
    Interrupted(RecordingSummary, String),
    Failed(String),
}

/// What to do with samples that are to be recorded.
#[derive(Debug)]
pub enum PushPlan {
    /// There is nothing to do.
    Nothing,
    /// The writer takes no more rows.
    Refused(String),
    /// These rows go to the writer.
    Send(Vec<RecordingRow>),
}

/// The rows of `samples`, numbered from `first`.
pub open spec fn rows_of(
    samples: Seq<MeasurementSample>,
    origin: RecordingOrigin,
    offsets: RecordingOffsets,
    first: u64,
) -> Seq<RecordingRow> {
    Seq::new(
        samples.len(),
        |i: int| row_of(samples[i], origin, offsets, (first + i) as u64),
    )
}

/// What a recorder knows of its recording.
pub struct RecorderView {
    pub path: Seq<char>,
    pub origin: RecordingOrigin,
    pub offsets: RecordingOffsets,
    pub totals: RecordingTotals,
    pub finishing: bool,
    pub interrupted: Option<Seq<char>>,
}

impl RecorderView {
    /// A recorder that starts at `origin` and carries on from `offsets`.
    pub open spec fn started(
        path: Seq<char>,
        origin: Option<MeasurementSample>,
        offsets: RecordingOffsets,
    ) -> RecorderView {
        RecorderView {
            path,
            origin: origin_at(origin),
            offsets,
            totals: totals_of_offsets(offsets),
            finishing: false,
            interrupted: None,
        }
    }

    /// The rows that `samples` give.
    pub open spec fn rows(self, samples: Seq<MeasurementSample>) -> Seq<RecordingRow> {
        rows_of(samples, self.origin, self.offsets, self.totals.rows)
    }

    /// What is known once the writer has taken the rows of `samples`.
    pub open spec fn after_rows(self, samples: Seq<MeasurementSample>) -> RecorderView {
        if samples.len() == 0 {
            self
        } else {
            RecorderView { totals: totals_of_row(self.rows(samples).last()), ..self }
        }
    }
}

/// The bookkeeping of a recording in progress. Its writer runs elsewhere: the
/// recorder says what to hand to it, and is told whether it took it.
#[derive(Debug)]
pub struct Recorder {
    origin: RecordingOrigin,
    offsets: RecordingOffsets,
    totals: RecordingTotals,
    finishing: bool,
    interrupted: Option<String>,
    path: String,
}

impl View for Recorder {
    type V = RecorderView;

    closed spec fn view(&self) -> RecorderView {
        RecorderView {
            path: self.path@,
            origin: self.origin,
            offsets: self.offsets,
            totals: self.totals,
            finishing: self.finishing,
            interrupted: match self.interrupted {
                Some(reason) => Some(reason@),
                None => None,
            },
        }
    }
}

impl Recorder {
    /// A recorder of a new recording.
    pub fn start(path: String, origin: Option<MeasurementSample>) -> (recorder: Recorder)
        ensures
            recorder@ == RecorderView::started(path@, origin, RecordingOffsets::none()),
    {
        Recorder::start_with_offsets(path, origin, RecordingOffsets::default())
    }

    /// A recorder of a segment that carries on from `offsets`.
    pub fn start_with_offsets(
        path: String,
        origin: Option<MeasurementSample>,
        offsets: RecordingOffsets,
    ) -> (recorder: Recorder)
        ensures
            recorder@ == RecorderView::started(path@, origin, offsets),
    {
        Recorder {
            origin: RecordingOrigin::at(origin),
            offsets,
            totals: RecordingTotals::from_offsets(offsets),
            finishing: false,
            interrupted: None,
            path,
        }
    }

    /// What to do with `samples`.
    pub fn push(&self, samples: &Vec<MeasurementSample>) -> (plan: PushPlan)
        requires
            self@.totals.rows + samples.len() <= u64::MAX,
        ensures
            match plan {
                PushPlan::Nothing => samples.len() == 0,
                PushPlan::Refused(reason) => samples.len() > 0 && self@.finishing && reason@
                    == "recording writer is already finishing"@,
                PushPlan::Send(rows) => samples.len() > 0 && !self@.finishing && rows@
                    == self@.rows(samples@),
            },
    {
        if samples.len() == 0 {
            return PushPlan::Nothing;
        }
        if self.finishing {
            return PushPlan::Refused("recording writer is already finishing".to_owned());
        }
        let mut rows: Vec<RecordingRow> = Vec::new();
        let mut i: usize = 0;
        while i < samples.len()
            invariant
                self@.totals.rows + samples.len() <= u64::MAX,
                self.totals == self@.totals,
                self.origin == self@.origin,
                self.offsets == self@.offsets,
                i <= samples.len(),
                rows@ == self@.rows(samples@).take(i as int),
            decreases samples.len() - i,
        {
            rows.push(
                RecordingRow::from_sample(
                    samples[i],
                    self.origin,
                    self.offsets,
                    self.totals.rows + i as u64,
                ),
            );
            i += 1;
            assert(rows@ =~= self@.rows(samples@).take(i as int));
        }
        assert(rows@ =~= self@.rows(samples@));
        PushPlan::Send(rows)
    }

    /// Notes that the writer took the rows of `samples`.
    pub fn rows_taken(&mut self, samples: &Vec<MeasurementSample>)
        requires
            old(self)@.totals.rows + samples.len() <= u64::MAX,
        ensures
            final(self)@ == old(self)@.after_rows(samples@),
    {
        if samples.len() > 0 {
            let last: usize = samples.len() - 1;
            let row = RecordingRow::from_sample(
                samples[last],
                self.origin,
                self.offsets,
                self.totals.rows + last as u64,
            );
            assert(row == self@.rows(samples@).last());
            self.totals = RecordingTotals::from_row(row);
        }
    }

    /// Notes that the writer is gone, and says so.
    pub fn writer_lost(&mut self) -> (error: String)
        ensures
            error@ == "recording writer stopped unexpectedly"@,
            final(self)@ == (RecorderView {
                interrupted: Some("recording writer stopped unexpectedly"@),
                ..old(self)@
            }),
    {
        self.interrupted = Some("recording writer stopped unexpectedly".to_owned());
        "recording writer stopped unexpectedly".to_owned()
    }

    /// Asks the writer to finish; `told` says whether it could be told, which
    /// matters only where it was not told before.
    pub fn request_finish(&mut self, told: bool) -> (result: Result<(), String>)
        ensures
            old(self)@.finishing || told ==> result is Ok && final(self)@ == (RecorderView {
                finishing: true,
                ..old(self)@
            }),
            !old(self)@.finishing && !told ==> final(self)@ == old(self)@ && (result matches Err(
                error,
            ) && error@ == "recording writer stopped unexpectedly"@),
    {
        if !self.finishing {
            if !told {
                return Err("recording writer stopped unexpectedly".to_owned());
            }
            self.finishing = true;
        }
        Ok(())
    }

    /// Whether the writer was asked to finish.
    pub fn is_finishing(&self) -> (finishing: bool)
        ensures
            finishing == self@.finishing,
    {
        self.finishing
    }

    /// What a later segment carries on from.
    pub fn continuation_offsets(&self) -> (offsets: RecordingOffsets)
        ensures
            offsets == self@.totals.as_offsets(),
    {
        self.totals.offsets()
    }

    /// What the recording amounts to so far.
    pub fn totals(&self) -> (totals: RecordingTotals)
        ensures
            totals == self@.totals,
    {
        self.totals
    }

    /// The recording so far.
    pub fn summary_snapshot(&self) -> (summary: RecordingSummary)
        ensures
            summary.path@ == self@.path,
            summary.totals == self@.totals,
    {
        RecordingSummary { path: self.path.clone(), totals: self.totals }
    }

    /// The event to report where the writer ended with `event`: a writer that
    /// finished after it was lost was interrupted.
    pub fn settle_event(&mut self, event: RecordingEvent) -> (reported: RecordingEvent)
        ensures
            match event {
                RecordingEvent::Finished(summary) => match old(self)@.interrupted {
                    Some(reason) => reported matches RecordingEvent::Interrupted(same, text)
                        && same == summary && text@ == reason && final(self)@ == (RecorderView {
                        interrupted: None,
                        ..old(self)@
                    }),
                    None => reported == event && final(self)@ == old(self)@,
                },
                _ => reported == event && final(self)@ == (RecorderView {
                    interrupted: None,
                    ..old(self)@
                }),
            },
    {
        let interrupted = self.interrupted.take();
        match event {
            RecordingEvent::Finished(summary) => match interrupted {
                Some(reason) => RecordingEvent::Interrupted(summary, reason),
                None => RecordingEvent::Finished(summary),
            },
            other => other,
        }
    }
}

/// What a writer was handed and has not written yet.
pub struct PendingRows {
    pub buffered: Seq<RecordingRow>,
    pub totals: RecordingTotals,
}

/// The writer's buffer: rows come in, groups of at least `ROW_GROUP_SIZE` rows
/// go out, and the rest when the recording finishes.
#[derive(Debug)]
pub struct RowBuffer {
    buffered: Vec<RecordingRow>,
    totals: RecordingTotals,
}

impl View for RowBuffer {
    type V = PendingRows;

    closed spec fn view(&self) -> PendingRows {
        PendingRows { buffered: self.buffered@, totals: self.totals }
    }
}

impl PendingRows {
    /// The rows to write once `rows` came in: none, or everything.
    pub open spec fn due(self, rows: Seq<RecordingRow>) -> Seq<RecordingRow> {
        if self.buffered.len() + rows.len() >= ROW_GROUP_SIZE {
            self.buffered + rows
        } else {
            Seq::empty()
        }
    }

    /// What is pending once `rows` came in.
    pub open spec fn after(self, rows: Seq<RecordingRow>) -> PendingRows {
        PendingRows {
            buffered: if self.buffered.len() + rows.len() >= ROW_GROUP_SIZE {
                Seq::empty()
            } else {
                self.buffered + rows
            },
            totals: if rows.len() == 0 {
                self.totals
            } else {
                totals_of_row(rows.last())
            },
        }
    }

    /// What is pending after every one of `batches` came in.
    pub open spec fn after_all(self, batches: Seq<Seq<RecordingRow>>) -> PendingRows
        decreases batches.len(),
    {
        if batches.len() == 0 {
            self
        } else {
            self.after_all(batches.drop_last()).after(batches.last())
        }
    }

    /// The rows written while `batches` came in.
    pub open spec fn written(self, batches: Seq<Seq<RecordingRow>>) -> Seq<RecordingRow>
        decreases batches.len(),
    {
        if batches.len() == 0 {
            Seq::empty()
        } else {
            self.written(batches.drop_last()) + self.after_all(batches.drop_last()).due(
                batches.last(),
            )
        }
    }
}

/// All rows of `batches`, in order.
pub open spec fn all_rows(batches: Seq<Seq<RecordingRow>>) -> Seq<RecordingRow>
    decreases batches.len(),
{
    if batches.len() == 0 {
        Seq::empty()
    } else {
        all_rows(batches.drop_last()) + batches.last()
    }
}

impl RowBuffer {
    /// The buffer of a recording that carries on from `offsets`.
    pub fn new(offsets: RecordingOffsets) -> (buffer: RowBuffer)
        ensures
            buffer@ == (PendingRows {
                buffered: Seq::empty(),
                totals: totals_of_offsets(offsets),
            }),
    {
        let buffered: Vec<RecordingRow> = Vec::new();
        RowBuffer { buffered, totals: RecordingTotals::from_offsets(offsets) }
    }

    /// Takes `rows`; returns the rows to write now, if any.
    pub fn accept(&mut self, rows: Vec<RecordingRow>) -> (due: Vec<RecordingRow>)
        requires
            rows.len() > 0 ==> rows@.last().sample_index < u64::MAX,
        ensures
            due@ == old(self)@.due(rows@),
            final(self)@ == old(self)@.after(rows@),
    {
        let mut rows = rows;
        if rows.len() > 0 {
            self.totals = RecordingTotals::from_row(rows[rows.len() - 1]);
        }
        self.buffered.append(&mut rows);
        if self.buffered.len() >= ROW_GROUP_SIZE {
            let mut due: Vec<RecordingRow> = Vec::new();
            due.append(&mut self.buffered);
            due
        } else {
            Vec::new()
        }
    }

    /// Finishes the recording: the rows that are still to be written, and what
    /// the recording amounts to.
    pub fn finish(self) -> (end: (Vec<RecordingRow>, RecordingTotals))
        ensures
            end.0@ == self@.buffered,
            end.1 == self@.totals,
    {
        (self.buffered, self.totals)
    }
}

/// No row is lost and none changes its place: what was written while `batches`
/// came in, followed by what is still buffered, is everything that came in.
pub proof fn law_writer_keeps_every_row_in_order(
    start: PendingRows,
    batches: Seq<Seq<RecordingRow>>,
)
    ensures
        start.written(batches) + start.after_all(batches).buffered == start.buffered + all_rows(
            batches,
        ),
    decreases batches.len(),
{
    if batches.len() > 0 {
        let earlier = batches.drop_last();
        law_writer_keeps_every_row_in_order(start, earlier);
        let rows = batches.last();
        let before = start.after_all(earlier);
        assert(before.due(rows) + before.after(rows).buffered =~= before.buffered + rows);
        assert(start.written(batches) + start.after_all(batches).buffered =~= (start.written(
            earlier,
        ) + before.buffered) + rows);
        assert(start.buffered + all_rows(batches) =~= (start.buffered + all_rows(earlier)) + rows);
    } else {
        assert(start.written(batches) + start.after_all(batches).buffered =~= start.buffered
            + all_rows(batches));
    }
}

/// The buffer never grows past one group while it waits.
pub proof fn law_buffer_stays_below_one_group(
    start: PendingRows,
    batches: Seq<Seq<RecordingRow>>,
)
    requires
        start.buffered.len() < ROW_GROUP_SIZE,
    ensures
        start.after_all(batches).buffered.len() < ROW_GROUP_SIZE,
    decreases batches.len(),
{
    if batches.len() > 0 {
        law_buffer_stays_below_one_group(start, batches.drop_last());
    }
}

/// The rows of a new recording are relative to its start: time, counts and
/// amounts are what passed since the sample it started at.
pub proof fn law_rows_are_relative_to_the_start(
    start: MeasurementSample,
    sample: MeasurementSample,
    index: u64,
)
    requires
        start.elapsed_us <= sample.elapsed_us,
        start.cumulative_missing_samples <= sample.cumulative_missing_samples,
        i128::MIN <= sample.charge - start.charge <= i128::MAX,
        i128::MIN <= sample.energy - start.energy <= i128::MAX,
    ensures
        row_of(sample, origin_at(Some(start)), RecordingOffsets::none(), index).elapsed_us
            == sample.elapsed_us - start.elapsed_us,
        row_of(
            sample,
            origin_at(Some(start)),
            RecordingOffsets::none(),
            index,
        ).cumulative_missing_samples == sample.cumulative_missing_samples
            - start.cumulative_missing_samples,
        row_of(sample, origin_at(Some(start)), RecordingOffsets::none(), index).charge
            == sample.charge - start.charge,
        row_of(sample, origin_at(Some(start)), RecordingOffsets::none(), index).energy
            == sample.energy - start.energy,
{
}

/// What passed while a recording was paused is left out: after the origin is
/// rebased, the sample at which it resumed gives the same time, counts and
/// amounts as the one at which it paused.
pub proof fn law_pause_is_left_out(
    origin: RecordingOrigin,
    offsets: RecordingOffsets,
    paused: MeasurementSample,
    resumed: MeasurementSample,
    index: u64,
)
    requires
        origin.elapsed_us <= paused.elapsed_us <= resumed.elapsed_us,
        origin.cumulative_missing_samples <= paused.cumulative_missing_samples
            <= resumed.cumulative_missing_samples,
        origin.cumulative_interpolated_duration_us <= paused.cumulative_interpolated_duration_us
            <= resumed.cumulative_interpolated_duration_us,
        i128::MIN <= resumed.charge - paused.charge <= i128::MAX,
        i128::MIN <= origin.charge + resumed.charge - paused.charge <= i128::MAX,
        i128::MIN <= resumed.energy_throughput - paused.energy_throughput <= i128::MAX,
        i128::MIN <= origin.energy_throughput + resumed.energy_throughput
            - paused.energy_throughput <= i128::MAX,
    ensures
        ({
            let before = row_of(paused, origin, offsets, index);
            let after = row_of(resumed, origin.rebased(paused, resumed), offsets, index);
            &&& after.elapsed_us == before.elapsed_us
            &&& after.cumulative_missing_samples == before.cumulative_missing_samples
            &&& after.cumulative_interpolated_duration_us
                == before.cumulative_interpolated_duration_us
            &&& after.charge == before.charge
            &&& after.energy_throughput == before.energy_throughput
        }),
{
}

/// A segment carries on where the one before it stopped: its first row has the
/// next index, and time, counts and amounts go on from the last row without a
/// gap or an overlap.
pub proof fn law_next_segment_carries_on(
    recorder: RecorderView,
    samples: Seq<MeasurementSample>,
    resumed: MeasurementSample,
    path: Seq<char>,
)
    requires
        samples.len() > 0,
        recorder.totals.rows + samples.len() <= u64::MAX,
    ensures
        ({
            let last = recorder.rows(samples).last();
            let next = RecorderView::started(
                path,
                Some(resumed),
                recorder.after_rows(samples).totals.as_offsets(),
            );
            let first = next.rows(seq![resumed])[0];
            &&& first.sample_index == last.sample_index + 1
            &&& first.elapsed_us == last.elapsed_us
            &&& first.cumulative_missing_samples == last.cumulative_missing_samples
            &&& first.cumulative_interpolated_duration_us
                == last.cumulative_interpolated_duration_us
            &&& first.cumulative_discarded_sequence_samples
                == last.cumulative_discarded_sequence_samples
            &&& first.charge == last.charge
            &&& first.energy == last.energy
            &&& first.charge_throughput == last.charge_throughput
            &&& first.energy_throughput == last.energy_throughput
        }),
{
}

/// Rows are numbered one after another, across any number of batches.
pub proof fn law_rows_are_numbered_consecutively(
    recorder: RecorderView,
    first: Seq<MeasurementSample>,
    second: Seq<MeasurementSample>,
)
    requires
        recorder.totals.rows + first.len() + second.len() <= u64::MAX,
    ensures
        forall|i: int|
            0 <= i < first.len() ==> #[trigger] recorder.rows(first)[i].sample_index
                == recorder.totals.rows + i,
        forall|i: int|
            0 <= i < second.len() ==> #[trigger] recorder.after_rows(first).rows(
                second,
            )[i].sample_index == recorder.totals.rows + first.len() + i,
{
}

/// A row holds its sample's readings as they are; its times, counts and amounts
/// are those of the earlier segments and what was added since the sample the
/// segment started at.
pub proof fn law_rows_add_to_the_earlier_segments(
    start: MeasurementSample,
    sample: MeasurementSample,
    offsets: RecordingOffsets,
    index: u64,
)
    requires
        start.elapsed_us <= sample.elapsed_us,
        start.cumulative_missing_samples <= sample.cumulative_missing_samples,
        start.cumulative_interpolated_duration_us <= sample.cumulative_interpolated_duration_us,
        start.cumulative_discarded_sequence_samples <= sample.cumulative_discarded_sequence_samples,
        offsets.elapsed_us + sample.elapsed_us <= u64::MAX,
        offsets.cumulative_missing_samples + sample.cumulative_missing_samples <= u64::MAX,
        offsets.cumulative_interpolated_duration_us + sample.cumulative_interpolated_duration_us
            <= u64::MAX,
        offsets.cumulative_discarded_sequence_samples + sample.cumulative_discarded_sequence_samples
            <= u64::MAX,
        i128::MIN <= sample.charge - start.charge <= i128::MAX,
        i128::MIN <= sample.energy - start.energy <= i128::MAX,
        i128::MIN <= sample.charge_throughput - start.charge_throughput <= i128::MAX,
        i128::MIN <= sample.energy_throughput - start.energy_throughput <= i128::MAX,
        i128::MIN <= offsets.charge + sample.charge - start.charge <= i128::MAX,
        i128::MIN <= offsets.energy + sample.energy - start.energy <= i128::MAX,
        i128::MIN <= offsets.charge_throughput + sample.charge_throughput - start.charge_throughput
            <= i128::MAX,
        i128::MIN <= offsets.energy_throughput + sample.energy_throughput - start.energy_throughput
            <= i128::MAX,
    ensures
        ({
            let row = row_of(sample, origin_at(Some(start)), offsets, index);
            &&& row.sample_index == index
            &&& row.elapsed_us == offsets.elapsed_us + (sample.elapsed_us - start.elapsed_us)
            &&& row.cumulative_missing_samples == offsets.cumulative_missing_samples + (
            sample.cumulative_missing_samples - start.cumulative_missing_samples)
            &&& row.cumulative_interpolated_duration_us
                == offsets.cumulative_interpolated_duration_us + (
            sample.cumulative_interpolated_duration_us - start.cumulative_interpolated_duration_us)
            &&& row.cumulative_discarded_sequence_samples
                == offsets.cumulative_discarded_sequence_samples + (
            sample.cumulative_discarded_sequence_samples
                - start.cumulative_discarded_sequence_samples)
            &&& row.charge == offsets.charge + (sample.charge - start.charge)
            &&& row.energy == offsets.energy + (sample.energy - start.energy)
            &&& row.charge_throughput == offsets.charge_throughput + (sample.charge_throughput
                - start.charge_throughput)
            &&& row.energy_throughput == offsets.energy_throughput + (sample.energy_throughput
                - start.energy_throughput)
            &&& row.sequence == sample.sequence
            &&& row.marker == sample.marker
            &&& row.sample_rate_hz == sample.sample_rate_hz
            &&& row.missing_samples == sample.missing_samples
            &&& row.gap_duration_us == sample.gap_duration_us
            &&& row.interpolated == sample.interpolated
            &&& row.discarded_sequence_samples == sample.discarded_sequence_samples
            &&& row.vbus_uv == sample.vbus_uv
            &&& row.ibus_ua == sample.ibus_ua
            &&& row.power_uw == sample.power_uw
            &&& row.cc1_uv == sample.cc1_uv
            &&& row.cc2_uv == sample.cc2_uv
            &&& row.dp_uv == sample.dp_uv
            &&& row.dm_uv == sample.dm_uv
        }),
{
}

/// Between two rows of one segment passes what passes between their samples,
/// whatever the segment started at.
pub proof fn law_rows_differ_as_their_samples_do(
    recorder: RecorderView,
    earlier: MeasurementSample,
    later: MeasurementSample,
    index: u64,
)
    requires
        recorder.origin.elapsed_us <= earlier.elapsed_us <= later.elapsed_us,
        recorder.offsets.elapsed_us + later.elapsed_us <= u64::MAX,
        -0x1_0000_0000_0000_0000_0000_0000 <= recorder.origin.energy
            <= 0x1_0000_0000_0000_0000_0000_0000,
        -0x1_0000_0000_0000_0000_0000_0000 <= recorder.offsets.energy
            <= 0x1_0000_0000_0000_0000_0000_0000,
        -0x1_0000_0000_0000_0000_0000_0000 <= earlier.energy <= 0x1_0000_0000_0000_0000_0000_0000,
        -0x1_0000_0000_0000_0000_0000_0000 <= later.energy <= 0x1_0000_0000_0000_0000_0000_0000,
    ensures
        ({
            let first = row_of(earlier, recorder.origin, recorder.offsets, index);
            let second = row_of(later, recorder.origin, recorder.offsets, index);
            &&& second.elapsed_us - first.elapsed_us == later.elapsed_us - earlier.elapsed_us
            &&& second.energy - first.energy == later.energy - earlier.energy
        }),
{
}

/// A counter that stands below where the recording started adds nothing, and
/// one that would run over stays at its largest value.
pub proof fn law_counters_of_a_row_stay_in_range(base: u64, now: u64, start: u64)
    ensures
        now <= start ==> carried(base, now, start) == base,
        now >= start && base + (now - start) <= u64::MAX ==> carried(base, now, start) == base + (
        now - start),
        now >= start && base + (now - start) > u64::MAX ==> carried(base, now, start) == u64::MAX,
{
}

/// Nothing that passed while a recording was paused shows up in it: not a
/// single amount, count or time differs between the row at which it paused and
/// the row at which it went on.
pub proof fn law_a_pause_adds_no_amount(
    origin: RecordingOrigin,
    offsets: RecordingOffsets,
    paused: MeasurementSample,
    resumed: MeasurementSample,
    index: u64,
)
    requires
        i128::MIN <= resumed.energy - paused.energy <= i128::MAX,
        i128::MIN <= origin.energy + resumed.energy - paused.energy <= i128::MAX,
        i128::MIN <= resumed.charge_throughput - paused.charge_throughput <= i128::MAX,
        i128::MIN <= origin.charge_throughput + resumed.charge_throughput
            - paused.charge_throughput <= i128::MAX,
        origin.cumulative_discarded_sequence_samples <= paused.cumulative_discarded_sequence_samples
            <= resumed.cumulative_discarded_sequence_samples,
    ensures
        ({
            let before = row_of(paused, origin, offsets, index);
            let after = row_of(resumed, origin.rebased(paused, resumed), offsets, index);
            &&& after.energy == before.energy
            &&& after.charge_throughput == before.charge_throughput
            &&& after.cumulative_discarded_sequence_samples
                == before.cumulative_discarded_sequence_samples
        }),
{
}

/// What a recording comes to is what its last row says, and it counts as many
/// rows as it took samples.
pub proof fn law_totals_are_those_of_the_last_row(
    recorder: RecorderView,
    samples: Seq<MeasurementSample>,
)
    requires
        samples.len() > 0,
        recorder.totals.rows + samples.len() <= u64::MAX,
    ensures
        ({
            let last = recorder.rows(samples).last();
            let totals = recorder.after_rows(samples).totals;
            &&& recorder.rows(samples).len() == samples.len()
            &&& totals.rows == recorder.totals.rows + samples.len()
            &&& totals.rows == last.sample_index + 1
            &&& totals.elapsed_us == last.elapsed_us
            &&& totals.missing_samples == last.cumulative_missing_samples
            &&& totals.interpolated_duration_us == last.cumulative_interpolated_duration_us
            &&& totals.discarded_sequence_samples == last.cumulative_discarded_sequence_samples
            &&& totals.charge == last.charge
            &&& totals.energy == last.energy
            &&& totals.charge_throughput == last.charge_throughput
            &&& totals.energy_throughput == last.energy_throughput
        }),
{
}

/// The totals of a recording do not depend on how its samples were batched.
pub proof fn law_totals_do_not_depend_on_the_batches(
    recorder: RecorderView,
    first: Seq<MeasurementSample>,
    second: Seq<MeasurementSample>,
)
    requires
        recorder.totals.rows + first.len() + second.len() <= u64::MAX,
    ensures
        recorder.after_rows(first).after_rows(second) == recorder.after_rows(first + second),
        recorder.rows(first) + recorder.after_rows(first).rows(second) == recorder.rows(
            first + second,
        ),
{
    assert(recorder.rows(first) + recorder.after_rows(first).rows(second) =~= recorder.rows(
        first + second,
    ));
    if first.len() == 0 {
        assert(first + second =~= second);
    } else if second.len() == 0 {
        assert(first + second =~= first);
    } else {
        assert(recorder.rows(first + second).last() == recorder.after_rows(first).rows(
            second,
        ).last());
    }
}

/// A segment that carries on from what a recording came to comes to the same
/// before its first row, and both count from nothing where there was nothing.
pub proof fn law_a_fresh_segment_comes_to_what_came_before(
    totals: RecordingTotals,
    origin: Option<MeasurementSample>,
    path: Seq<char>,
)
    ensures
        RecorderView::started(path, origin, totals.as_offsets()).totals == totals,
        ({
            let fresh = RecorderView::started(path, origin, RecordingOffsets::none()).totals;
            &&& fresh.rows == 0
            &&& fresh.elapsed_us == 0
            &&& fresh.missing_samples == 0
            &&& fresh.interpolated_duration_us == 0
            &&& fresh.discarded_sequence_samples == 0
            &&& fresh.charge == 0
            &&& fresh.energy == 0
            &&& fresh.charge_throughput == 0
            &&& fresh.energy_throughput == 0
        }),
{
}

/// What was measured and what was filled in are together the whole time; a
/// recording without a gap is complete, and so is an empty one.
pub proof fn law_measured_and_interpolated_time_make_up_the_whole(totals: RecordingTotals)
    requires
        totals.interpolated_duration_us <= totals.elapsed_us,
    ensures
        totals.elapsed_us > 0 ==> {
            &&& totals.measured().elapsed_us == totals.elapsed_us
            &&& totals.measured().measured_us + totals.interpolated_duration_us
                == totals.elapsed_us
        },
        totals.interpolated_duration_us == 0 ==> totals.measured().measured_us
            == totals.measured().elapsed_us,
{
}

/// The file that a recording is written to until it is complete.
pub fn partial_path(path: &str) -> (partial: String)
    ensures
        partial@ == path@ + ".partial"@,
{
    append_suffix(path, ".partial")
}

/// `path` with `suffix` behind it.
pub fn append_suffix(path: &str, suffix: &str) -> (result: String)
    ensures
        result@ == path@ + suffix@,
{
    let mut result = path.to_owned();
    result.append(suffix);
    result
}

} // verus!
