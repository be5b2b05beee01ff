//! From raw graph samples to a measurement on the device's own time line:
//! elapsed time, gaps, and the charge and energy integrals.
//!
//! Charge and energy are carried exactly, in halves of a microampere- or
//! microwatt-microsecond: `MICRO_HOUR_UNITS` of them are one microampere-hour
//! or microwatt-hour.
use vstd::prelude::*;

use crate::i18n::Language;

verus! {

/// Microseconds in one tick of the device's sequence counter.
pub const MICROSECONDS_PER_TICK: u64 = 1_000;

/// The largest step of the sequence counter that counts as forward.
pub const MAX_FORWARD_SEQUENCE_TICKS: u16 = 32_767;

/// Units of an exact charge or energy in one microampere- or microwatt-hour.
pub const MICRO_HOUR_UNITS: i128 = 7_200_000_000;

/// How many samples an accumulator takes before its counters could run over:
/// more than eight years at the highest rate.
pub const MAX_SAMPLES: u64 = 0x40_0000_0000;

/// How far one sample moves the elapsed time at most, in microseconds.
pub const MAX_SAMPLE_US: u64 = 32_767_000;

/// How far one sample moves a charge or energy at most.
pub const MAX_SAMPLE_UNITS: i128 = 0x1_0000_0000_0000_0000 * 32_767_000;

/// A rate at which the device streams graph samples.
#[derive(Debug, Clone, Copy, PartialEq, Eq, Structural)]
pub enum GraphSampleRate {
    Sps2,
    Sps10,
    Sps50,
    Sps1000,
}

impl GraphSampleRate {
    /// Samples per second.
    pub open spec fn per_second(self) -> nat {
        match self {
            GraphSampleRate::Sps2 => 2,
            GraphSampleRate::Sps10 => 10,
            GraphSampleRate::Sps50 => 50,
            GraphSampleRate::Sps1000 => 1000,
        }
    }

    /// Ticks of the 1000 Hz sequence counter from one sample to the next.
    pub open spec fn step(self) -> nat {
        1000nat / self.per_second()
    }

    /// Samples per second.
    pub fn hertz(self) -> (hertz: u16)
        ensures
            hertz == self.per_second(),
    {
        match self {
            GraphSampleRate::Sps2 => 2,
            GraphSampleRate::Sps10 => 10,
            GraphSampleRate::Sps50 => 50,
            GraphSampleRate::Sps1000 => 1000,
        }
    }

    /// Ticks of the 1000 Hz sequence counter from one sample to the next.
    pub fn sequence_step(self) -> (step: u16)
        ensures
            step == self.step(),
            0 < step <= 500,
    {
        1000 / self.hertz()
    }

    /// Samples that are missing between two values of the sequence counter.
    pub fn missing_samples(self, previous: u16, current: u16) -> (missing: u16)
        ensures
            missing == missing_between(previous, current, self),
    {
        let elapsed: u16 = elapsed_ticks(previous, current);
        let step: u16 = self.sequence_step();
        if elapsed < step {
            assert(0nat / self.step() == 0) by (nonlinear_arith)
                requires
                    self.step() > 0,
            ;
            0
        } else {
            (elapsed - step) / step
        }
    }
}

/// Ticks from one value of the wrapping sequence counter to another.
pub open spec fn ticks_between(previous: u16, current: u16) -> nat {
    ((current - previous) % 65536) as nat
}

/// Samples that are missing between two values of the sequence counter.
pub open spec fn missing_between(previous: u16, current: u16, rate: GraphSampleRate) -> nat {
    let ticks = ticks_between(previous, current);
    if ticks < rate.step() {
        0
    } else {
        ((ticks - rate.step()) as nat / rate.step()) as nat
    }
}

/// Ticks from one value of the wrapping sequence counter to another.
pub fn elapsed_ticks(previous: u16, current: u16) -> (ticks: u16)
    ensures
        ticks == ticks_between(previous, current),
{
    if current >= previous {
        current - previous
    } else {
        (current as u32 + 65536 - previous as u32) as u16
    }
}

/// A graph sample in integer units.
#[derive(Debug, Clone, Copy, PartialEq, Eq, Structural)]
pub struct RawSample {
    pub sequence: u16,
    pub marker: u16,
    pub vbus_uv: i64,
    pub ibus_ua: i64,
    pub power_uw: i64,
    pub cc1_uv: i64,
    pub cc2_uv: i64,
    pub dp_uv: i64,
    pub dm_uv: i64,
}

/// A sample on the device's time line, with what was integrated up to it.
#[derive(Debug, Clone, Copy, PartialEq, Eq, Structural)]
pub struct MeasurementSample {
    pub elapsed_us: u64,
    pub sample_index: u64,
    pub sequence: u16,
    pub marker: u16,
    pub sample_rate_hz: u16,
    pub missing_samples: u16,
    pub gap_duration_us: u64,
    pub interpolated: bool,
    pub cumulative_missing_samples: u64,
    pub cumulative_interpolated_duration_us: u64,
    pub discarded_sequence_samples: u32,
    pub cumulative_discarded_sequence_samples: u64,
    pub vbus_uv: i64,
    pub ibus_ua: i64,
    pub power_uw: i64,
    pub charge: i128,
    pub energy: i128,
    pub charge_throughput: i128,
    pub energy_throughput: i128,
    pub cc1_uv: i64,
    pub cc2_uv: i64,
    pub dp_uv: i64,
    pub dm_uv: i64,
}

/// The sample that the next one is integrated against.
#[derive(Debug, Clone, Copy, PartialEq, Eq, Structural)]
pub struct PreviousSample {
    pub sequence: u16,
    pub current_ua: i64,
    pub power_uw: i64,
}

/// Everything that was accumulated.
pub struct Progress {
    pub elapsed_us: nat,
    pub samples: nat,
    pub missing: nat,
    pub interpolated_us: nat,
    pub discarded: nat,
    pub pending_discarded: nat,
    pub charge: int,
    pub energy: int,
    pub charge_throughput: int,
    pub energy_throughput: int,
    pub previous: Option<PreviousSample>,
}

/// The magnitude of `value`.
pub open spec fn magnitude(value: int) -> int {
    if value < 0 {
        -value
    } else {
        value
    }
}

/// The smaller of two numbers.
pub open spec fn at_most(value: nat, limit: nat) -> nat {
    if value < limit {
        value
    } else {
        limit
    }
}

impl Progress {
    /// Nothing was accumulated.
    pub open spec fn initial() -> Progress {
        Progress {
            elapsed_us: 0,
            samples: 0,
            missing: 0,
            interpolated_us: 0,
            discarded: 0,
            pending_discarded: 0,
            charge: 0,
            energy: 0,
            charge_throughput: 0,
            energy_throughput: 0,
            previous: None,
        }
    }

    /// The counters are as large as the number of samples lets them be.
    pub open spec fn well_formed(self) -> bool {
        &&& self.samples <= MAX_SAMPLES
        &&& self.elapsed_us <= self.samples * MAX_SAMPLE_US
        &&& self.missing <= self.samples * 32_767
        &&& self.interpolated_us <= self.elapsed_us
        &&& self.discarded <= u64::MAX
        &&& self.pending_discarded <= u32::MAX
        &&& magnitude(self.charge) <= self.charge_throughput
        &&& magnitude(self.energy) <= self.energy_throughput
        &&& self.charge_throughput <= self.samples * MAX_SAMPLE_UNITS
        &&& self.energy_throughput <= self.samples * MAX_SAMPLE_UNITS
        &&& self.samples == 0 ==> self.previous is None
    }

    /// Ticks since the previous sample.
    pub open spec fn ticks(self, raw: RawSample) -> nat {
        match self.previous {
            Some(previous) => ticks_between(previous.sequence, raw.sequence),
            None => 0,
        }
    }

    /// Whether the sequence counter went forward by whole samples.
    pub open spec fn accepts(self, raw: RawSample, rate: GraphSampleRate) -> bool {
        self.previous is Some ==> {
            &&& 0 < self.ticks(raw) <= MAX_FORWARD_SEQUENCE_TICKS
            &&& self.ticks(raw) % rate.step() == 0
        }
    }

    /// Samples that are missing before an accepted one.
    pub open spec fn gap(self, raw: RawSample, rate: GraphSampleRate) -> nat {
        match self.previous {
            Some(previous) => missing_between(previous.sequence, raw.sequence, rate),
            None => 0,
        }
    }

    /// Twice the area of the trapezoid between two values, `ticks` apart.
    pub open spec fn trapezoid(first: int, second: int, ticks: nat) -> int {
        (first + second) * (ticks * 1000)
    }

    /// What is accumulated after `raw`: an accepted sample is integrated with
    /// the trapezoid rule, any other one is only counted.
    pub open spec fn after(self, raw: RawSample, rate: GraphSampleRate) -> Progress {
        if !self.accepts(raw, rate) {
            Progress {
                discarded: at_most(self.discarded + 1, u64::MAX as nat),
                pending_discarded: at_most(self.pending_discarded + 1, u32::MAX as nat),
                ..self
            }
        } else {
            let ticks = self.ticks(raw);
            let last = self.previous->0;
            let (charge, energy, charge_throughput, energy_throughput) = if self.previous is Some {
                (
                    Self::trapezoid(last.current_ua as int, raw.ibus_ua as int, ticks),
                    Self::trapezoid(last.power_uw as int, raw.power_uw as int, ticks),
                    Self::trapezoid(
                        magnitude(last.current_ua as int),
                        magnitude(raw.ibus_ua as int),
                        ticks,
                    ),
                    Self::trapezoid(
                        magnitude(last.power_uw as int),
                        magnitude(raw.power_uw as int),
                        ticks,
                    ),
                )
            } else {
                (0, 0, 0, 0)
            };
            Progress {
                elapsed_us: self.elapsed_us + ticks * 1000,
                samples: self.samples + 1,
                missing: self.missing + self.gap(raw, rate),
                interpolated_us: self.interpolated_us + self.gap(raw, rate) * rate.step() * 1000,
                discarded: self.discarded,
                pending_discarded: 0,
                charge: self.charge + charge,
                energy: self.energy + energy,
                charge_throughput: self.charge_throughput + charge_throughput,
                energy_throughput: self.energy_throughput + energy_throughput,
                previous: Some(
                    PreviousSample {
                        sequence: raw.sequence,
                        current_ua: raw.ibus_ua,
                        power_uw: raw.power_uw,
                    },
                ),
            }
        }
    }

    /// The measurement that an accepted sample gives.
    pub open spec fn measurement(self, raw: RawSample, rate: GraphSampleRate) -> MeasurementSample {
        let next = self.after(raw, rate);
        MeasurementSample {
            elapsed_us: next.elapsed_us as u64,
            sample_index: self.samples as u64,
            sequence: raw.sequence,
            marker: raw.marker,
            sample_rate_hz: rate.per_second() as u16,
            missing_samples: self.gap(raw, rate) as u16,
            gap_duration_us: (self.gap(raw, rate) * rate.step() * 1000) as u64,
            interpolated: self.gap(raw, rate) > 0,
            cumulative_missing_samples: next.missing as u64,
            cumulative_interpolated_duration_us: next.interpolated_us as u64,
            discarded_sequence_samples: self.pending_discarded as u32,
            cumulative_discarded_sequence_samples: self.discarded as u64,
            vbus_uv: raw.vbus_uv,
            ibus_ua: raw.ibus_ua,
            power_uw: raw.power_uw,
            charge: next.charge as i128,
            energy: next.energy as i128,
            charge_throughput: next.charge_throughput as i128,
            energy_throughput: next.energy_throughput as i128,
            cc1_uv: raw.cc1_uv,
            cc2_uv: raw.cc2_uv,
            dp_uv: raw.dp_uv,
            dm_uv: raw.dm_uv,
        }
    }
}

/// Accumulates samples into measurements.
#[derive(Debug)]
pub struct MeasurementAccumulator {
    elapsed_us: u64,
    sample_index: u64,
    cumulative_missing_samples: u64,
    cumulative_interpolated_duration_us: u64,
    cumulative_discarded_sequence_samples: u64,
    pending_discarded_sequence_samples: u32,
    charge_twice_ua_us: i128,
    energy_twice_uw_us: i128,
    charge_throughput_twice_ua_us: i128,
    energy_throughput_twice_uw_us: i128,
    previous: Option<PreviousSample>,
}

impl View for MeasurementAccumulator {
    type V = Progress;

    closed spec fn view(&self) -> Progress {
        Progress {
            elapsed_us: self.elapsed_us as nat,
            samples: self.sample_index as nat,
            missing: self.cumulative_missing_samples as nat,
            interpolated_us: self.cumulative_interpolated_duration_us as nat,
            discarded: self.cumulative_discarded_sequence_samples as nat,
            pending_discarded: self.pending_discarded_sequence_samples as nat,
            charge: self.charge_twice_ua_us as int,
            energy: self.energy_twice_uw_us as int,
            charge_throughput: self.charge_throughput_twice_ua_us as int,
            energy_throughput: self.energy_throughput_twice_uw_us as int,
            previous: self.previous,
        }
    }
}

impl Default for MeasurementAccumulator {
    fn default() -> (accumulator: MeasurementAccumulator)
        ensures
            accumulator@ == Progress::initial(),
    {
        MeasurementAccumulator {
            elapsed_us: 0,
            sample_index: 0,
            cumulative_missing_samples: 0,
            cumulative_interpolated_duration_us: 0,
            cumulative_discarded_sequence_samples: 0,
            pending_discarded_sequence_samples: 0,
            charge_twice_ua_us: 0,
            energy_twice_uw_us: 0,
            charge_throughput_twice_ua_us: 0,
            energy_throughput_twice_uw_us: 0,
            previous: None,
        }
    }
}

/// The magnitude of a 64-bit number.
fn wide_abs(value: i64) -> (result: i128)
    ensures
        result == magnitude(value as int),
{
    if value < 0 {
        -(value as i128)
    } else {
        value as i128
    }
}

/// Twice the area of the trapezoid between two values, `delta_us` apart.
fn trapezoid_area(first: i128, second: i128, delta_us: u64) -> (area: i128)
    requires
        -0x8000_0000_0000_0000 <= first <= 0x8000_0000_0000_0000,
        -0x8000_0000_0000_0000 <= second <= 0x8000_0000_0000_0000,
        delta_us <= MAX_SAMPLE_US,
    ensures
        area == (first + second) * delta_us,
{
    assert(-MAX_SAMPLE_UNITS <= (first + second) * delta_us <= MAX_SAMPLE_UNITS)
        by (nonlinear_arith)
        requires
            -0x1_0000_0000_0000_0000 <= first + second <= 0x1_0000_0000_0000_0000,
            0 <= delta_us <= 32_767_000,
            MAX_SAMPLE_UNITS == 0x1_0000_0000_0000_0000 * 32_767_000,
    ;
    (first + second) * delta_us as i128
}

impl MeasurementAccumulator {
    /// Takes a sample; returns its measurement, or nothing where the sequence
    /// counter did not go forward by whole samples.
    pub fn push(&mut self, sample: RawSample, rate: GraphSampleRate) -> (measurement: Option<
        MeasurementSample,
    >)
        requires
            old(self)@.well_formed(),
            old(self)@.samples < MAX_SAMPLES,
        ensures
            final(self)@ == old(self)@.after(sample, rate),
            final(self)@.well_formed(),
            measurement == (if old(self)@.accepts(sample, rate) {
                Some(old(self)@.measurement(sample, rate))
            } else {
                None
            }),
    {
        let step: u16 = rate.sequence_step();
        let ghost before = self@;
        proof {
            lemma_after_stays_well_formed(before, sample, rate);
        }
        let mut missing_samples: u16 = 0;
        let mut delta_us: u64 = 0;
        if let Some(previous) = self.previous {
            let ticks: u16 = elapsed_ticks(previous.sequence, sample.sequence);
            if ticks == 0 || ticks > MAX_FORWARD_SEQUENCE_TICKS || ticks % step != 0 {
                if self.cumulative_discarded_sequence_samples < u64::MAX {
                    self.cumulative_discarded_sequence_samples =
                    self.cumulative_discarded_sequence_samples + 1;
                }
                if self.pending_discarded_sequence_samples < u32::MAX {
                    self.pending_discarded_sequence_samples =
                    self.pending_discarded_sequence_samples + 1;
                }
                return None;
            }
            missing_samples = rate.missing_samples(previous.sequence, sample.sequence);
            delta_us = ticks as u64 * MICROSECONDS_PER_TICK;
        }
        proof {
            lemma_gap_fits(before, sample, rate);
        }
        let gap_duration_us: u64 = missing_samples as u64 * step as u64 * MICROSECONDS_PER_TICK;
        if let Some(previous) = self.previous {
            self.charge_twice_ua_us = self.charge_twice_ua_us + trapezoid_area(
                previous.current_ua as i128,
                sample.ibus_ua as i128,
                delta_us,
            );
            self.energy_twice_uw_us = self.energy_twice_uw_us + trapezoid_area(
                previous.power_uw as i128,
                sample.power_uw as i128,
                delta_us,
            );
            self.charge_throughput_twice_ua_us = self.charge_throughput_twice_ua_us
                + trapezoid_area(
                wide_abs(previous.current_ua),
                wide_abs(sample.ibus_ua),
                delta_us,
            );
            self.energy_throughput_twice_uw_us = self.energy_throughput_twice_uw_us
                + trapezoid_area(
                wide_abs(previous.power_uw),
                wide_abs(sample.power_uw),
                delta_us,
            );
        }
        self.elapsed_us = self.elapsed_us + delta_us;
        self.cumulative_missing_samples = self.cumulative_missing_samples + missing_samples as u64;
        self.cumulative_interpolated_duration_us = self.cumulative_interpolated_duration_us
            + gap_duration_us;
        let measurement = MeasurementSample {
            elapsed_us: self.elapsed_us,
            sample_index: self.sample_index,
            sequence: sample.sequence,
            marker: sample.marker,
            sample_rate_hz: rate.hertz(),
            missing_samples,
            gap_duration_us,
            interpolated: missing_samples > 0,
            cumulative_missing_samples: self.cumulative_missing_samples,
            cumulative_interpolated_duration_us: self.cumulative_interpolated_duration_us,
            discarded_sequence_samples: self.pending_discarded_sequence_samples,
            cumulative_discarded_sequence_samples: self.cumulative_discarded_sequence_samples,
            vbus_uv: sample.vbus_uv,
            ibus_ua: sample.ibus_ua,
            power_uw: sample.power_uw,
            charge: self.charge_twice_ua_us,
            energy: self.energy_twice_uw_us,
            charge_throughput: self.charge_throughput_twice_ua_us,
            energy_throughput: self.energy_throughput_twice_uw_us,
            cc1_uv: sample.cc1_uv,
            cc2_uv: sample.cc2_uv,
            dp_uv: sample.dp_uv,
            dm_uv: sample.dm_uv,
        };
        self.previous = Some(
            PreviousSample {
                sequence: sample.sequence,
                current_ua: sample.ibus_ua,
                power_uw: sample.power_uw,
            },
        );
        self.sample_index = self.sample_index + 1;
        self.pending_discarded_sequence_samples = 0;
        Some(measurement)
    }

    /// Starts a new stretch: the next sample is not integrated against the last.
    pub fn reset_continuity(&mut self)
        ensures
            final(self)@ == (Progress { previous: None, ..old(self)@ }),
            old(self)@.well_formed() ==> final(self)@.well_formed(),
    {
        self.previous = None;
    }

    /// Forgets everything.
    pub fn reset(&mut self)
        ensures
            final(self)@ == Progress::initial(),
            final(self)@.well_formed(),
    {
        *self = MeasurementAccumulator::default();
    }

    /// How many samples were discarded.
    pub fn cumulative_discarded_sequence_samples(&self) -> (discarded: u64)
        ensures
            discarded == self@.discarded,
    {
        self.cumulative_discarded_sequence_samples
    }

    /// How many samples were accepted.
    pub fn samples(&self) -> (samples: u64)
        ensures
            samples == self@.samples,
    {
        self.sample_index
    }
}

/// The gap before an accepted sample and the sample itself fill the time since
/// the previous one.
proof fn lemma_gap_fits(progress: Progress, raw: RawSample, rate: GraphSampleRate)
    requires
        progress.accepts(raw, rate),
    ensures
        progress.gap(raw, rate) * rate.step() <= progress.ticks(raw),
        progress.gap(raw, rate) <= 32_767,
        progress.previous is Some ==> progress.gap(raw, rate) * rate.step() + rate.step()
            == progress.ticks(raw),
        progress.previous is None ==> progress.gap(raw, rate) == 0,
{
    let step = rate.step();
    let ticks = progress.ticks(raw);
    if progress.previous is Some {
        assert(ticks >= step) by (nonlinear_arith)
            requires
                step > 0,
                ticks > 0,
                ticks % step == 0,
        ;
        assert(((ticks - step) as nat / step) * step + step == ticks) by (nonlinear_arith)
            requires
                step > 0,
                ticks >= step,
                ticks % step == 0,
        ;
        assert(((ticks - step) as nat / step) <= ticks) by (nonlinear_arith)
            requires
                step > 0,
                ticks >= step,
        ;
    }
}

/// One sample moves a throughput by the trapezoid's area, which bounds that of
/// the signed values.
proof fn lemma_trapezoid_bounds(first: int, second: int, ticks: nat)
    requires
        magnitude(first) <= 0x8000_0000_0000_0000,
        magnitude(second) <= 0x8000_0000_0000_0000,
        ticks <= MAX_FORWARD_SEQUENCE_TICKS,
    ensures
        magnitude(Progress::trapezoid(first, second, ticks)) <= Progress::trapezoid(
            magnitude(first),
            magnitude(second),
            ticks,
        ),
        0 <= Progress::trapezoid(magnitude(first), magnitude(second), ticks) <= MAX_SAMPLE_UNITS,
{
    let sum = magnitude(first) + magnitude(second);
    let delta = ticks * 1000;
    assert(-(sum * delta) <= (first + second) * delta <= sum * delta) by (nonlinear_arith)
        requires
            -sum <= first + second <= sum,
            delta >= 0,
    ;
    assert(0 <= sum * delta <= 0x1_0000_0000_0000_0000 * 32_767_000) by (nonlinear_arith)
        requires
            0 <= sum <= 0x1_0000_0000_0000_0000,
            0 <= delta <= 32_767_000,
    ;
}

/// The bounds hold after every sample.
proof fn lemma_after_stays_well_formed(progress: Progress, raw: RawSample, rate: GraphSampleRate)
    requires
        progress.well_formed(),
        progress.samples < MAX_SAMPLES,
    ensures
        progress.after(raw, rate).well_formed(),
{
    if progress.accepts(raw, rate) {
        lemma_gap_fits(progress, raw, rate);
        if progress.previous is Some {
            let last = progress.previous->0;
            let ticks = progress.ticks(raw);
            lemma_trapezoid_bounds(last.current_ua as int, raw.ibus_ua as int, ticks);
            lemma_trapezoid_bounds(last.power_uw as int, raw.power_uw as int, ticks);
        }
    }
}

/// A sample that arrives, at its rate.
pub ghost struct Arrival {
    pub raw: RawSample,
    pub rate: GraphSampleRate,
}

impl Progress {
    /// What is accumulated after all of `arrivals`.
    pub open spec fn run(self, arrivals: Seq<Arrival>) -> Progress
        decreases arrivals.len(),
    {
        if arrivals.len() == 0 {
            self
        } else {
            self.run(arrivals.drop_last()).after(arrivals.last().raw, arrivals.last().rate)
        }
    }

    /// What a sample gives: its measurement, where it is accepted.
    pub open spec fn result(self, arrival: Arrival) -> Option<MeasurementSample> {
        if self.accepts(arrival.raw, arrival.rate) {
            Some(self.measurement(arrival.raw, arrival.rate))
        } else {
            None
        }
    }

    /// Whether one of `arrivals` is accepted.
    pub open spec fn accepts_some(self, arrivals: Seq<Arrival>) -> bool
        decreases arrivals.len(),
    {
        arrivals.len() > 0 && (self.accepts_some(arrivals.drop_last()) || self.run(
            arrivals.drop_last(),
        ).result(arrivals.last()) is Some)
    }

    /// The same with one more discarded sample; `waiting` is whether no sample
    /// was accepted since.
    pub open spec fn with_discarded(self, waiting: bool) -> Progress {
        Progress {
            discarded: at_most(self.discarded + 1, u64::MAX as nat),
            pending_discarded: if waiting {
                at_most(self.pending_discarded + 1, u32::MAX as nat)
            } else {
                self.pending_discarded
            },
            ..self
        }
    }
}

/// A sample that is not accepted leaves the measurement alone. Of two runs that
/// differ by one such sample, `extra` between `first` and `later`, every later
/// sample is accepted in both or in neither, and is measured alike: only the
/// count of all discarded samples is one higher, and on the first sample
/// accepted after `extra` the count of those discarded before it. (The counts
/// stop at their largest values.)
pub proof fn law_discarded_samples_leave_the_measurement(
    progress: Progress,
    first: Seq<Arrival>,
    extra: Arrival,
    later: Seq<Arrival>,
    next: Arrival,
)
    requires
        progress.well_formed(),
        progress.run(first).result(extra) is None,
    ensures
        ({
            let without = progress.run(first + later);
            let with = progress.run(first.push(extra) + later);
            let waiting = !progress.run(first).accepts_some(later);
            &&& with == without.with_discarded(waiting)
            &&& with.result(next) == (match without.result(next) {
                None => None,
                Some(measured) => Some(
                    MeasurementSample {
                        cumulative_discarded_sequence_samples: at_most(
                            measured.cumulative_discarded_sequence_samples as nat + 1,
                            u64::MAX as nat,
                        ) as u64,
                        discarded_sequence_samples: if waiting {
                            at_most(
                                measured.discarded_sequence_samples as nat + 1,
                                u32::MAX as nat,
                            ) as u32
                        } else {
                            measured.discarded_sequence_samples
                        },
                        ..measured
                    },
                ),
            })
        }),
{
    lemma_runs_join(progress, first, later);
    lemma_runs_join(progress, first.push(extra), later);
    assert(first.push(extra).drop_last() =~= first);
    lemma_runs_stay_alike(progress.run(first), later);
    lemma_counts_stay_bounded(progress, first + later);
}

/// A run over two lists is a run over the first and then over the second.
proof fn lemma_runs_join(progress: Progress, first: Seq<Arrival>, later: Seq<Arrival>)
    ensures
        progress.run(first + later) == progress.run(first).run(later),
    decreases later.len(),
{
    if later.len() == 0 {
        assert(first + later =~= first);
    } else {
        assert((first + later).drop_last() =~= first + later.drop_last());
        lemma_runs_join(progress, first, later.drop_last());
    }
}

/// One more discarded sample makes no other difference.
proof fn lemma_runs_stay_alike(progress: Progress, later: Seq<Arrival>)
    ensures
        progress.with_discarded(true).run(later) == progress.run(later).with_discarded(
            !progress.accepts_some(later),
        ),
    decreases later.len(),
{
    if later.len() > 0 {
        lemma_runs_stay_alike(progress, later.drop_last());
    }
}

/// The counts of discarded samples never pass their largest values.
proof fn lemma_counts_stay_bounded(progress: Progress, arrivals: Seq<Arrival>)
    requires
        progress.discarded <= u64::MAX,
        progress.pending_discarded <= u32::MAX,
    ensures
        progress.run(arrivals).discarded <= u64::MAX,
        progress.run(arrivals).pending_discarded <= u32::MAX,
    decreases arrivals.len(),
{
    if arrivals.len() > 0 {
        lemma_counts_stay_bounded(progress, arrivals.drop_last());
    }
}

/// The elapsed time never goes back, and goes forward with every accepted
/// sample that has a predecessor: by whole ticks, and by as much time as the
/// missing samples and the sample itself take.
pub proof fn law_time_goes_forward(progress: Progress, raw: RawSample, rate: GraphSampleRate)
    ensures
        progress.after(raw, rate).elapsed_us >= progress.elapsed_us,
        progress.accepts(raw, rate) && progress.previous is Some ==> progress.after(
            raw,
            rate,
        ).elapsed_us == progress.elapsed_us + (progress.gap(raw, rate) + 1) * (rate.step() * 1000),
{
    if progress.accepts(raw, rate) && progress.previous is Some {
        lemma_gap_fits(progress, raw, rate);
        let gap = progress.gap(raw, rate) as int;
        let step = rate.step() as int;
        assert((gap + 1) * (step * 1000) == (gap * step + step) * 1000) by (nonlinear_arith);
    }
}

/// A throughput never falls, and is never below the net amount.
pub proof fn law_throughput_grows_and_bounds_the_net_amount(
    progress: Progress,
    raw: RawSample,
    rate: GraphSampleRate,
)
    requires
        progress.well_formed(),
        progress.samples < MAX_SAMPLES,
    ensures
        progress.after(raw, rate).charge_throughput >= progress.charge_throughput,
        progress.after(raw, rate).energy_throughput >= progress.energy_throughput,
        magnitude(progress.after(raw, rate).charge) <= progress.after(raw, rate).charge_throughput,
        magnitude(progress.after(raw, rate).energy) <= progress.after(raw, rate).energy_throughput,
{
    lemma_after_stays_well_formed(progress, raw, rate);
    if progress.accepts(raw, rate) && progress.previous is Some {
        let last = progress.previous->0;
        let ticks = progress.ticks(raw);
        lemma_trapezoid_bounds(last.current_ua as int, raw.ibus_ua as int, ticks);
        lemma_trapezoid_bounds(last.power_uw as int, raw.power_uw as int, ticks);
    }
}

/// The sequence counter may run over between two samples: only the distance
/// counts.
pub proof fn law_sequence_rollover_is_accepted(
    progress: Progress,
    raw: RawSample,
    rate: GraphSampleRate,
    count: nat,
)
    requires
        progress.previous is Some,
        0 < count * rate.step() <= MAX_FORWARD_SEQUENCE_TICKS,
        raw.sequence as int == ((progress.previous->0).sequence + count * rate.step()) % 65536,
    ensures
        progress.accepts(raw, rate),
        progress.gap(raw, rate) == count - 1,
        progress.after(raw, rate).elapsed_us == progress.elapsed_us + count * rate.step() * 1000,
        progress.after(raw, rate).discarded == progress.discarded,
{
    let step = rate.step() as int;
    let n = count as int;
    assert(progress.ticks(raw) == n * step);
    assert((n * step) % step == 0) by (nonlinear_arith)
        requires
            step > 0,
    ;
    assert(n >= 1) by (nonlinear_arith)
        requires
            n * step > 0,
            step > 0,
    ;
    assert(n * step >= step && (n * step - step) / step == n - 1) by (nonlinear_arith)
        requires
            step > 0,
            n >= 1,
    ;
}

/// After a break in continuity the next sample is accepted whatever its
/// sequence, and adds neither time nor charge nor energy.
pub proof fn law_break_in_continuity_is_not_integrated(
    progress: Progress,
    raw: RawSample,
    rate: GraphSampleRate,
)
    requires
        progress.previous is None,
    ensures
        progress.accepts(raw, rate),
        progress.after(raw, rate).elapsed_us == progress.elapsed_us,
        progress.after(raw, rate).charge == progress.charge,
        progress.after(raw, rate).energy == progress.energy,
        progress.after(raw, rate).charge_throughput == progress.charge_throughput,
        progress.after(raw, rate).energy_throughput == progress.energy_throughput,
        progress.after(raw, rate).missing == progress.missing,
        progress.after(raw, rate).samples == progress.samples + 1,
{
}

impl Progress {
    /// The measurements that `arrivals` give, in order.
    pub open spec fn measured(self, arrivals: Seq<Arrival>) -> Seq<MeasurementSample>
        decreases arrivals.len(),
    {
        if arrivals.len() == 0 {
            Seq::empty()
        } else {
            let before = self.measured(arrivals.drop_last());
            match self.run(arrivals.drop_last()).result(arrivals.last()) {
                Some(measurement) => before.push(measurement),
                None => before,
            }
        }
    }
}

/// Twice the area under a line through the points `(times[i], values[i])`: the
/// sum of both ends of every piece, times its width.
pub open spec fn doubled_area(times: Seq<int>, values: Seq<int>) -> int
    decreases times.len(),
{
    if times.len() <= 1 {
        0
    } else {
        let last = times.len() - 1;
        doubled_area(times.drop_last(), values.drop_last()) + (values[last - 1] + values[last]) * (
        times[last] - times[last - 1])
    }
}

/// The times of `samples`.
pub open spec fn sample_times(samples: Seq<MeasurementSample>) -> Seq<int> {
    samples.map_values(|sample: MeasurementSample| sample.elapsed_us as int)
}

/// The currents of `samples`.
pub open spec fn sample_currents(samples: Seq<MeasurementSample>) -> Seq<int> {
    samples.map_values(|sample: MeasurementSample| sample.ibus_ua as int)
}

/// The powers of `samples`.
pub open spec fn sample_powers(samples: Seq<MeasurementSample>) -> Seq<int> {
    samples.map_values(|sample: MeasurementSample| sample.power_uw as int)
}

/// The sizes of `values`.
pub open spec fn sizes(values: Seq<int>) -> Seq<int> {
    values.map_values(
        |value: int|
            if value >= 0 {
                value
            } else {
                -value
            },
    )
}

/// A run that the counters can hold stays well formed.
proof fn lemma_run_stays_well_formed(progress: Progress, arrivals: Seq<Arrival>)
    requires
        progress.well_formed(),
        progress.samples + arrivals.len() <= MAX_SAMPLES,
    ensures
        progress.run(arrivals).well_formed(),
        progress.run(arrivals).samples <= progress.samples + arrivals.len(),
    decreases arrivals.len(),
{
    if arrivals.len() > 0 {
        let front = arrivals.drop_last();
        lemma_run_stays_well_formed(progress, front);
        lemma_after_stays_well_formed(
            progress.run(front),
            arrivals.last().raw,
            arrivals.last().rate,
        );
    }
}

/// A run stands where its newest measurement stands.
proof fn lemma_run_ends_at_its_measurement(progress: Progress, arrivals: Seq<Arrival>)
    requires
        progress.well_formed(),
        progress.samples + arrivals.len() <= MAX_SAMPLES,
    ensures
        ({
            let end = progress.run(arrivals);
            let measured = progress.measured(arrivals);
            &&& end.samples == progress.samples + measured.len()
            &&& measured.len() == 0 ==> end.elapsed_us == progress.elapsed_us && end.previous
                == progress.previous && end.charge == progress.charge && end.energy
                == progress.energy && end.charge_throughput == progress.charge_throughput
                && end.energy_throughput == progress.energy_throughput && end.missing
                == progress.missing && end.interpolated_us == progress.interpolated_us
            &&& measured.len() > 0 ==> {
                let last = measured.last();
                &&& end.elapsed_us == last.elapsed_us
                &&& end.charge == last.charge && end.energy == last.energy
                &&& end.charge_throughput == last.charge_throughput
                &&& end.energy_throughput == last.energy_throughput
                &&& end.missing == last.cumulative_missing_samples
                &&& end.interpolated_us == last.cumulative_interpolated_duration_us
                &&& end.samples == last.sample_index + 1
                &&& end.previous == Some(
                    PreviousSample {
                        sequence: last.sequence,
                        current_ua: last.ibus_ua,
                        power_uw: last.power_uw,
                    },
                )
            }
        }),
    decreases arrivals.len(),
{
    if arrivals.len() > 0 {
        let front = arrivals.drop_last();
        let arrival = arrivals.last();
        lemma_run_ends_at_its_measurement(progress, front);
        lemma_run_stays_well_formed(progress, front);
        lemma_run_stays_well_formed(progress, arrivals);
        if progress.run(front).accepts(arrival.raw, arrival.rate) {
            lemma_gap_fits(progress.run(front), arrival.raw, arrival.rate);
        }
    }
}

/// Charge and energy are integrals: over any run of samples the net amounts grow
/// by the area under the measured current and power, and the throughputs by the
/// area under their sizes. Nothing that was accumulated before is lost, and a
/// sample that is not accepted makes no difference.
pub proof fn law_amounts_are_areas_under_the_measurements(
    progress: Progress,
    arrivals: Seq<Arrival>,
)
    requires
        progress.well_formed(),
        progress.samples + arrivals.len() <= MAX_SAMPLES,
        progress.measured(arrivals).len() > 0,
    ensures
        ({
            let measured = progress.measured(arrivals);
            let end = progress.run(arrivals);
            let first = measured.first();
            let last = measured.last();
            let times = sample_times(measured);
            let currents = sample_currents(measured);
            let powers = sample_powers(measured);
            &&& last.charge == first.charge + doubled_area(times, currents)
            &&& last.energy == first.energy + doubled_area(times, powers)
            &&& last.charge_throughput == first.charge_throughput + doubled_area(
                times,
                sizes(currents),
            )
            &&& last.energy_throughput == first.energy_throughput + doubled_area(
                times,
                sizes(powers),
            )
            &&& end.charge == last.charge && end.energy == last.energy
            &&& end.charge_throughput == last.charge_throughput
            &&& end.energy_throughput == last.energy_throughput
            &&& end.elapsed_us == last.elapsed_us
            &&& match progress.previous {
                None => {
                    &&& first.charge == progress.charge && first.energy == progress.energy
                    &&& first.charge_throughput == progress.charge_throughput
                    &&& first.energy_throughput == progress.energy_throughput
                    &&& first.elapsed_us == progress.elapsed_us
                },
                Some(previous) => {
                    let width = first.elapsed_us - progress.elapsed_us;
                    &&& first.charge == progress.charge + (previous.current_ua + first.ibus_ua)
                        * width
                    &&& first.energy == progress.energy + (previous.power_uw + first.power_uw)
                        * width
                    &&& first.charge_throughput == progress.charge_throughput + (magnitude(
                        previous.current_ua as int,
                    ) + magnitude(first.ibus_ua as int)) * width
                    &&& first.energy_throughput == progress.energy_throughput + (magnitude(
                        previous.power_uw as int,
                    ) + magnitude(first.power_uw as int)) * width
                },
            }
        }),
    decreases arrivals.len(),
{
    let front = arrivals.drop_last();
    let arrival = arrivals.last();
    let before = progress.run(front);
    let measured = progress.measured(arrivals);
    let earlier = progress.measured(front);
    lemma_run_ends_at_its_measurement(progress, front);
    lemma_run_ends_at_its_measurement(progress, arrivals);
    lemma_run_stays_well_formed(progress, front);
    lemma_run_stays_well_formed(progress, arrivals);
    if before.result(arrival) is None {
        law_amounts_are_areas_under_the_measurements(progress, front);
    } else {
        let n = earlier.len() as int;
        assert(measured.drop_last() =~= earlier);
        assert(sample_times(measured).drop_last() =~= sample_times(earlier));
        assert(sample_currents(measured).drop_last() =~= sample_currents(earlier));
        assert(sample_powers(measured).drop_last() =~= sample_powers(earlier));
        assert(sizes(sample_currents(measured)).drop_last() =~= sizes(sample_currents(earlier)));
        assert(sizes(sample_powers(measured)).drop_last() =~= sizes(sample_powers(earlier)));
        if n > 0 {
            law_amounts_are_areas_under_the_measurements(progress, front);
            assert(measured[n - 1] == earlier.last());
            assert(measured[n] == measured.last());
        }
    }
}

/// Measurements follow the counter of the device: each is one more than the one
/// before, later by as many milliseconds as the wrapping counter went on, and
/// reports the samples that are missing between the two and the time that they
/// would have filled.
pub proof fn law_measurements_follow_the_counter(
    progress: Progress,
    arrivals: Seq<Arrival>,
    i: int,
)
    requires
        progress.well_formed(),
        progress.samples + arrivals.len() <= MAX_SAMPLES,
        0 < i < progress.measured(arrivals).len(),
    ensures
        ({
            let before = progress.measured(arrivals)[i - 1];
            let sample = progress.measured(arrivals)[i];
            let ticks = (sample.sequence - before.sequence) % 65536;
            &&& sample.sample_index == before.sample_index + 1
            &&& 0 < ticks <= 32_767
            &&& sample.elapsed_us == before.elapsed_us + ticks * 1_000
            &&& sample.sample_rate_hz * ticks == 1_000 * (sample.missing_samples + 1)
            &&& sample.gap_duration_us * sample.sample_rate_hz == 1_000_000
                * sample.missing_samples
            &&& sample.interpolated <==> sample.missing_samples > 0
            &&& sample.cumulative_missing_samples == before.cumulative_missing_samples
                + sample.missing_samples
            &&& sample.cumulative_interpolated_duration_us
                == before.cumulative_interpolated_duration_us + sample.gap_duration_us
        }),
    decreases arrivals.len(),
{
    let front = arrivals.drop_last();
    let arrival = arrivals.last();
    let before = progress.run(front);
    let measured = progress.measured(arrivals);
    let earlier = progress.measured(front);
    lemma_run_ends_at_its_measurement(progress, front);
    lemma_run_ends_at_its_measurement(progress, arrivals);
    lemma_run_stays_well_formed(progress, front);
    lemma_run_stays_well_formed(progress, arrivals);
    if before.result(arrival) is None || i < earlier.len() {
        assert(earlier[i - 1] == measured[i - 1] && earlier[i] == measured[i]);
        law_measurements_follow_the_counter(progress, front, i);
    } else {
        assert(measured[i - 1] == earlier.last());
        assert(measured[i] == measured.last());
        lemma_gap_fits(before, arrival.raw, arrival.rate);
        let gap = before.gap(arrival.raw, arrival.rate) as int;
        let step = arrival.rate.step() as int;
        let rate = arrival.rate.per_second() as int;
        assert(rate * step == 1_000);
        assert(rate * (gap * step + step) == 1_000 * (gap + 1)) by (nonlinear_arith)
            requires
                rate * step == 1_000,
        ;
        assert((gap * step * 1_000) * rate == 1_000_000 * gap) by (nonlinear_arith)
            requires
                rate * step == 1_000,
        ;
    }
}

/// A sample is accepted where it has no predecessor, and where the wrapping
/// counter went on from its predecessor by less than half its range and by whole
/// sample periods; it is then passed on as it was read. Every other sample is
/// counted as discarded, and the next accepted one tells how many there were.
pub proof fn law_samples_are_accepted_or_counted(progress: Progress, arrival: Arrival)
    requires
        progress.well_formed(),
        progress.samples < MAX_SAMPLES,
    ensures
        progress.result(arrival) is Some <==> (match progress.previous {
            None => true,
            Some(previous) => {
                let ticks = (arrival.raw.sequence - previous.sequence) % 65536;
                0 < ticks < 32_768 && (ticks * arrival.rate.per_second()) % 1_000 == 0
            },
        }),
        progress.result(arrival) matches Some(sample) ==> {
            &&& sample.sequence == arrival.raw.sequence && sample.marker == arrival.raw.marker
            &&& sample.vbus_uv == arrival.raw.vbus_uv && sample.ibus_ua == arrival.raw.ibus_ua
            &&& sample.power_uw == arrival.raw.power_uw
            &&& sample.cc1_uv == arrival.raw.cc1_uv && sample.cc2_uv == arrival.raw.cc2_uv
            &&& sample.dp_uv == arrival.raw.dp_uv && sample.dm_uv == arrival.raw.dm_uv
            &&& sample.sample_rate_hz == arrival.rate.per_second()
            &&& sample.sample_index == progress.samples
            &&& sample.discarded_sequence_samples == progress.pending_discarded
            &&& sample.cumulative_discarded_sequence_samples == progress.discarded
            &&& progress.after(arrival.raw, arrival.rate).pending_discarded == 0
            &&& progress.after(arrival.raw, arrival.rate).discarded == progress.discarded
        },
        progress.result(arrival) is None ==> {
            let after = progress.after(arrival.raw, arrival.rate);
            &&& progress.discarded < u64::MAX ==> after.discarded == progress.discarded + 1
            &&& progress.pending_discarded < u32::MAX ==> after.pending_discarded
                == progress.pending_discarded + 1
            &&& after.samples == progress.samples && after.previous == progress.previous
            &&& after.elapsed_us == progress.elapsed_us
        },
{
    let rate = arrival.rate.per_second() as int;
    let step = arrival.rate.step() as int;
    assert(rate * step == 1_000);
    if progress.previous is Some {
        let ticks = (arrival.raw.sequence - (progress.previous->0).sequence) % 65536;
        if ticks % step == 0 {
            let periods = ticks / step;
            assert(ticks == step * periods) by (nonlinear_arith)
                requires
                    ticks % step == 0,
                    periods == ticks / step,
                    step > 0,
            ;
            assert(ticks * rate == 1_000 * periods) by (nonlinear_arith)
                requires
                    ticks == step * periods,
                    rate * step == 1_000,
            ;
        }
        if (ticks * rate) % 1_000 == 0 {
            let periods = ticks * rate / 1_000;
            assert(ticks * rate == 1_000 * periods);
            assert(ticks == step * periods) by (nonlinear_arith)
                requires
                    ticks * rate == 1_000 * periods,
                    rate * step == 1_000,
                    rate > 0,
            ;
            assert((step * periods) % step == 0) by (nonlinear_arith)
                requires
                    step > 0,
            ;
        }
    }
}

/// What flows one way only is what flowed: while the current never changes its
/// direction the size of the net charge is the throughput, and while the power
/// never does, that of the net energy.
pub proof fn law_one_way_flow_is_the_throughput(
    progress: Progress,
    arrivals: Seq<Arrival>,
    sign: int,
)
    requires
        sign == 1 || sign == -1,
        progress.charge == 0 && progress.charge_throughput == 0,
        progress.energy == 0 && progress.energy_throughput == 0,
        progress.previous matches Some(previous) ==> sign * previous.current_ua >= 0 && sign
            * previous.power_uw >= 0,
        forall|i: int|
            0 <= i < arrivals.len() ==> sign * (#[trigger] arrivals[i]).raw.ibus_ua >= 0 && sign
                * arrivals[i].raw.power_uw >= 0,
    ensures
        progress.run(arrivals).charge_throughput == sign * progress.run(arrivals).charge,
        progress.run(arrivals).energy_throughput == sign * progress.run(arrivals).energy,
        progress.run(arrivals).previous matches Some(previous) ==> sign * previous.current_ua >= 0
            && sign * previous.power_uw >= 0,
    decreases arrivals.len(),
{
    if arrivals.len() > 0 {
        let front = arrivals.drop_last();
        let raw = arrivals.last().raw;
        assert forall|i: int| 0 <= i < front.len() implies sign
            * (#[trigger] front[i]).raw.ibus_ua >= 0 && sign * front[i].raw.power_uw >= 0 by {
            assert(front[i] == arrivals[i]);
        }
        law_one_way_flow_is_the_throughput(progress, front, sign);
        let before = progress.run(front);
        if before.accepts(raw, arrivals.last().rate) && before.previous is Some {
            let last = before.previous->0;
            let delta = before.ticks(raw) * 1000;
            let (a, b) = (last.current_ua as int, raw.ibus_ua as int);
            let (c, d) = (last.power_uw as int, raw.power_uw as int);
            assert((sign * a + sign * b) * delta == sign * ((a + b) * delta)) by (nonlinear_arith);
            assert((sign * c + sign * d) * delta == sign * ((c + d) * delta)) by (nonlinear_arith);
        }
    }
}

/// A quantity that a chart can show.
#[derive(Debug, Clone, Copy, PartialEq, Eq, Structural)]
pub enum PlotMetric {
    Voltage,
    Current,
    SignedCurrent,
    Power,
    SignedPower,
    Charge,
    SignedCharge,
    Energy,
    SignedEnergy,
    Cc1,
    Cc2,
    DPlus,
    DMinus,
}

impl PlotMetric {
    /// The name in `language`.
    pub open spec fn name(self, language: Language) -> Seq<char> {
        match self {
            PlotMetric::Voltage => language.chosen("电压"@, "Voltage"@),
            PlotMetric::Current => language.chosen("电流（绝对值）"@, "Current (absolute)"@),
            PlotMetric::SignedCurrent => language.chosen("电流（带方向）"@, "Current (signed)"@),
            PlotMetric::Power => language.chosen("功率（绝对值）"@, "Power (absolute)"@),
            PlotMetric::SignedPower => language.chosen("功率（带方向）"@, "Power (signed)"@),
            PlotMetric::Charge => language.chosen("累计容量"@, "Charge throughput"@),
            PlotMetric::SignedCharge => language.chosen("净电荷"@, "Net charge"@),
            PlotMetric::Energy => language.chosen("累计能量"@, "Energy throughput"@),
            PlotMetric::SignedEnergy => language.chosen("净能量"@, "Net energy"@),
            PlotMetric::Cc1 => "CC1"@,
            PlotMetric::Cc2 => "CC2"@,
            PlotMetric::DPlus => "D+"@,
            PlotMetric::DMinus => "D−"@,
        }
    }

    /// Whether the quantity is one of the data lines.
    pub open spec fn is_line(self) -> bool {
        self == PlotMetric::Cc1 || self == PlotMetric::Cc2 || self == PlotMetric::DPlus || self
            == PlotMetric::DMinus
    }

    /// Whether the quantity is a charge or an energy.
    pub open spec fn is_integral(self) -> bool {
        self == PlotMetric::Charge || self == PlotMetric::SignedCharge || self
            == PlotMetric::Energy || self == PlotMetric::SignedEnergy
    }

    /// The exact value in `sample`: millionths of `unit`, or units of an exact
    /// charge or energy.
    pub open spec fn reading(self, sample: MeasurementSample) -> int {
        match self {
            PlotMetric::Voltage => sample.vbus_uv as int,
            PlotMetric::Current => magnitude(sample.ibus_ua as int),
            PlotMetric::SignedCurrent => sample.ibus_ua as int,
            PlotMetric::Power => magnitude(sample.power_uw as int),
            PlotMetric::SignedPower => sample.power_uw as int,
            PlotMetric::Charge => sample.charge_throughput as int,
            PlotMetric::SignedCharge => sample.charge as int,
            PlotMetric::Energy => sample.energy_throughput as int,
            PlotMetric::SignedEnergy => sample.energy as int,
            PlotMetric::Cc1 => sample.cc1_uv as int,
            PlotMetric::Cc2 => sample.cc2_uv as int,
            PlotMetric::DPlus => sample.dp_uv as int,
            PlotMetric::DMinus => sample.dm_uv as int,
        }
    }

    /// Every quantity, in the order in which it is offered.
    pub fn all() -> (metrics: [PlotMetric; 13])
        ensures
            metrics@ == seq![
                PlotMetric::Voltage,
                PlotMetric::Current,
                PlotMetric::SignedCurrent,
                PlotMetric::Power,
                PlotMetric::SignedPower,
                PlotMetric::Charge,
                PlotMetric::SignedCharge,
                PlotMetric::Energy,
                PlotMetric::SignedEnergy,
                PlotMetric::Cc1,
                PlotMetric::Cc2,
                PlotMetric::DPlus,
                PlotMetric::DMinus,
            ],
    {
        let metrics = [
            PlotMetric::Voltage,
            PlotMetric::Current,
            PlotMetric::SignedCurrent,
            PlotMetric::Power,
            PlotMetric::SignedPower,
            PlotMetric::Charge,
            PlotMetric::SignedCharge,
            PlotMetric::Energy,
            PlotMetric::SignedEnergy,
            PlotMetric::Cc1,
            PlotMetric::Cc2,
            PlotMetric::DPlus,
            PlotMetric::DMinus,
        ];
        metrics
    }

    /// The name in `language`.
    pub fn localized_label(self, language: Language) -> (label: &'static str)
        ensures
            label@ == self.name(language),
    {
        match self {
            PlotMetric::Voltage => language.pick("电压", "Voltage"),
            PlotMetric::Current => language.pick("电流（绝对值）", "Current (absolute)"),
            PlotMetric::SignedCurrent => language.pick("电流（带方向）", "Current (signed)"),
            PlotMetric::Power => language.pick("功率（绝对值）", "Power (absolute)"),
            PlotMetric::SignedPower => language.pick("功率（带方向）", "Power (signed)"),
            PlotMetric::Charge => language.pick("累计容量", "Charge throughput"),
            PlotMetric::SignedCharge => language.pick("净电荷", "Net charge"),
            PlotMetric::Energy => language.pick("累计能量", "Energy throughput"),
            PlotMetric::SignedEnergy => language.pick("净能量", "Net energy"),
            PlotMetric::Cc1 => "CC1",
            PlotMetric::Cc2 => "CC2",
            PlotMetric::DPlus => "D+",
            PlotMetric::DMinus => "D−",
        }
    }

    /// Whether an offline log holds the quantity.
    pub fn supports_offline(self) -> (supported: bool)
        ensures
            supported == !self.is_line(),
    {
        !matches!(
            self,
            PlotMetric::Cc1 | PlotMetric::Cc2 | PlotMetric::DPlus | PlotMetric::DMinus
        )
    }

    /// The unit's symbol.
    pub fn unit(self) -> (unit: &'static str)
        ensures
            unit@ == (match self {
                PlotMetric::Current | PlotMetric::SignedCurrent => "A"@,
                PlotMetric::Power | PlotMetric::SignedPower => "W"@,
                PlotMetric::Charge | PlotMetric::SignedCharge => "mAh"@,
                PlotMetric::Energy | PlotMetric::SignedEnergy => "mWh"@,
                _ => "V"@,
            }),
    {
        match self {
            PlotMetric::Voltage
            | PlotMetric::Cc1
            | PlotMetric::Cc2
            | PlotMetric::DPlus
            | PlotMetric::DMinus => "V",
            PlotMetric::Current | PlotMetric::SignedCurrent => "A",
            PlotMetric::Power | PlotMetric::SignedPower => "W",
            PlotMetric::Charge | PlotMetric::SignedCharge => "mAh",
            PlotMetric::Energy | PlotMetric::SignedEnergy => "mWh",
        }
    }

    /// How many of the value's units make one `unit`.
    pub fn units_per_symbol(self) -> (units: u64)
        ensures
            units == (if self.is_integral() { 7_200_000_000_000int } else { 1_000_000int }),
    {
        match self {
            PlotMetric::Charge
            | PlotMetric::SignedCharge
            | PlotMetric::Energy
            | PlotMetric::SignedEnergy => 7_200_000_000_000,
            _ => 1_000_000,
        }
    }

    /// The exact value in `sample`, `units_per_symbol` of which are one `unit`.
    pub fn value(self, sample: &MeasurementSample) -> (value: i128)
        ensures
            value == self.reading(*sample),
    {
        match self {
            PlotMetric::Voltage => sample.vbus_uv as i128,
            PlotMetric::Current => wide_abs(sample.ibus_ua),
            PlotMetric::SignedCurrent => sample.ibus_ua as i128,
            PlotMetric::Power => wide_abs(sample.power_uw),
            PlotMetric::SignedPower => sample.power_uw as i128,
            PlotMetric::Charge => sample.charge_throughput,
            PlotMetric::SignedCharge => sample.charge,
            PlotMetric::Energy => sample.energy_throughput,
            PlotMetric::SignedEnergy => sample.energy,
            PlotMetric::Cc1 => sample.cc1_uv as i128,
            PlotMetric::Cc2 => sample.cc2_uv as i128,
            PlotMetric::DPlus => sample.dp_uv as i128,
            PlotMetric::DMinus => sample.dm_uv as i128,
        }
    }

    /// The line's color, as red, green and blue.
    pub fn color(self) -> (rgb: (u8, u8, u8))
        ensures
            rgb == (match self {
                PlotMetric::Voltage => (0x62u8, 0xB6u8, 0xF5u8),
                PlotMetric::Current | PlotMetric::SignedCurrent => (0x39u8, 0xD9u8, 0x8Au8),
                PlotMetric::Power | PlotMetric::SignedPower => (0xFFu8, 0x8Au8, 0x3Du8),
                PlotMetric::Charge | PlotMetric::SignedCharge => (180u8, 120u8, 255u8),
                PlotMetric::Energy | PlotMetric::SignedEnergy => (255u8, 100u8, 180u8),
                PlotMetric::Cc1 => (100u8, 200u8, 255u8),
                PlotMetric::Cc2 => (80u8, 220u8, 180u8),
                PlotMetric::DPlus => (255u8, 120u8, 120u8),
                PlotMetric::DMinus => (120u8, 160u8, 255u8),
            }),
    {
        match self {
            PlotMetric::Voltage => (0x62, 0xB6, 0xF5),
            PlotMetric::Current | PlotMetric::SignedCurrent => (0x39, 0xD9, 0x8A),
            PlotMetric::Power | PlotMetric::SignedPower => (0xFF, 0x8A, 0x3D),
            PlotMetric::Charge | PlotMetric::SignedCharge => (180, 120, 255),
            PlotMetric::Energy | PlotMetric::SignedEnergy => (255, 100, 180),
            PlotMetric::Cc1 => (100, 200, 255),
            PlotMetric::Cc2 => (80, 220, 180),
            PlotMetric::DPlus => (255, 120, 120),
            PlotMetric::DMinus => (120, 160, 255),
        }
    }
}

} // verus!
