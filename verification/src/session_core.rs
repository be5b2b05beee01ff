//! The clock, the counters and the automatic pause of a recording session.
use vstd::prelude::*;

use crate::chart::{chart_time, charted, display_time, larger, since, smaller};
use crate::i18n::Language;
use crate::measurement::{magnitude, MeasurementSample};
use crate::options::{
    AutoCaptureMetric, AutoCaptureRule, PauseReason, RecordingPhase, SampleRateOption,
};
use crate::presentation::unsigned;
use crate::recording::{
    amount_difference, amount_sum, excess, in_amount, in_counter, RecordingOffsets,
};
use crate::statistics::RecordingSessionStatistics;
use crate::utc::UtcInstant;

verus! {

/// What a session is handled with at one moment.
#[derive(Debug, Clone, Copy, PartialEq, Eq, Structural)]
pub struct Context {
    pub language: Language,
    /// The reading of a clock that never goes back.
    pub now_us: u64,
    pub utc: UtcInstant,
    pub rate: SampleRateOption,
    /// The newest live sample.
    pub latest: Option<MeasurementSample>,
}

impl Context {
    /// The wall clock shows a date.
    pub open spec fn valid(self) -> bool {
        self.utc.valid()
    }
}

/// An amount that a recording adds up, without what passes while it is paused.
#[derive(Debug, Clone, Copy, PartialEq, Eq, Structural)]
pub struct Tally {
    /// The reading of the device at which the current stretch began.
    pub origin: i128,
    /// What the earlier stretches amount to.
    pub completed: i128,
    /// What the recording amounts to.
    pub total: i128,
}

impl Tally {
    /// Nothing was added up, from `origin` on.
    pub open spec fn from(origin: i128) -> Tally {
        Tally { origin, completed: 0, total: 0 }
    }

    /// Everything up to `reading` was added up.
    pub open spec fn at(reading: i128) -> Tally {
        Tally { origin: reading, completed: reading, total: reading }
    }

    /// The tally, with the next stretch beginning at `reading`.
    pub open spec fn moved(self, reading: i128) -> Tally {
        Tally { origin: reading, ..self }
    }

    /// The tally, with the current stretch ended.
    pub open spec fn completed(self) -> Tally {
        Tally { completed: self.total, ..self }
    }

    /// The tally of an amount that only grows, at `reading`.
    pub open spec fn grown(self, reading: i128) -> Tally {
        Tally {
            total: in_amount(
                self.completed + larger(in_amount(reading - self.origin) as int, 0),
            ),
            ..self
        }
    }

    /// The tally of an amount that goes both ways, at `reading`.
    pub open spec fn changed(self, reading: i128) -> Tally {
        Tally { total: in_amount(self.completed + in_amount(reading - self.origin)), ..self }
    }

    fn begin(origin: i128) -> (tally: Tally)
        ensures
            tally == Tally::from(origin),
    {
        Tally { origin, completed: 0, total: 0 }
    }

    fn grow(self, reading: i128) -> (tally: Tally)
        ensures
            tally == self.grown(reading),
    {
        let step: i128 = amount_difference(reading, self.origin);
        Tally {
            origin: self.origin,
            completed: self.completed,
            total: amount_sum(
                self.completed,
                if step > 0 {
                    step
                } else {
                    0
                },
            ),
        }
    }

    fn change(self, reading: i128) -> (tally: Tally)
        ensures
            tally == self.changed(reading),
    {
        Tally {
            origin: self.origin,
            completed: self.completed,
            total: amount_sum(self.completed, amount_difference(reading, self.origin)),
        }
    }
}

/// What a recording adds up.
#[derive(Debug, Clone, Copy, PartialEq, Eq, Structural)]
pub struct Tallies {
    pub energy: Tally,
    pub capacity: Tally,
    pub net_energy: Tally,
}

impl Tallies {
    /// Nothing was added up, from the newest sample on.
    pub open spec fn fresh(latest: Option<MeasurementSample>) -> Tallies {
        match latest {
            Some(sample) => Tallies {
                energy: Tally::from(sample.energy_throughput),
                capacity: Tally::from(sample.charge_throughput),
                net_energy: Tally::from(sample.energy),
            },
            None => Tallies {
                energy: Tally::from(0),
                capacity: Tally::from(0),
                net_energy: Tally::from(0),
            },
        }
    }

    /// The tallies, with the next stretch beginning at the newest sample.
    pub open spec fn moved(self, latest: Option<MeasurementSample>) -> Tallies {
        match latest {
            Some(sample) => Tallies {
                energy: self.energy.moved(sample.energy_throughput),
                capacity: self.capacity.moved(sample.charge_throughput),
                net_energy: self.net_energy.moved(sample.energy),
            },
            None => self,
        }
    }

    /// The tallies, with the current stretch ended.
    pub open spec fn completed(self) -> Tallies {
        Tallies {
            energy: self.energy.completed(),
            capacity: self.capacity.completed(),
            net_energy: self.net_energy.completed(),
        }
    }

    /// The tallies at `sample`.
    pub open spec fn counted(self, sample: MeasurementSample) -> Tallies {
        Tallies {
            energy: self.energy.grown(sample.energy_throughput),
            capacity: self.capacity.grown(sample.charge_throughput),
            net_energy: self.net_energy.changed(sample.energy),
        }
    }

    /// Nothing was added up, from the newest sample on.
    pub fn begin(latest: Option<MeasurementSample>) -> (tallies: Tallies)
        ensures
            tallies == Tallies::fresh(latest),
    {
        match latest {
            Some(sample) => Tallies {
                energy: Tally::begin(sample.energy_throughput),
                capacity: Tally::begin(sample.charge_throughput),
                net_energy: Tally::begin(sample.energy),
            },
            None => Tallies {
                energy: Tally::begin(0),
                capacity: Tally::begin(0),
                net_energy: Tally::begin(0),
            },
        }
    }

    /// The next stretch begins at the newest sample.
    pub fn rebase(self, latest: Option<MeasurementSample>) -> (tallies: Tallies)
        ensures
            tallies == self.moved(latest),
    {
        match latest {
            Some(sample) => Tallies {
                energy: Tally {
                    origin: sample.energy_throughput,
                    completed: self.energy.completed,
                    total: self.energy.total,
                },
                capacity: Tally {
                    origin: sample.charge_throughput,
                    completed: self.capacity.completed,
                    total: self.capacity.total,
                },
                net_energy: Tally {
                    origin: sample.energy,
                    completed: self.net_energy.completed,
                    total: self.net_energy.total,
                },
            },
            None => self,
        }
    }

    /// The current stretch ends.
    pub fn complete(self) -> (tallies: Tallies)
        ensures
            tallies == self.completed(),
    {
        Tallies {
            energy: Tally {
                origin: self.energy.origin,
                completed: self.energy.total,
                total: self.energy.total,
            },
            capacity: Tally {
                origin: self.capacity.origin,
                completed: self.capacity.total,
                total: self.capacity.total,
            },
            net_energy: Tally {
                origin: self.net_energy.origin,
                completed: self.net_energy.total,
                total: self.net_energy.total,
            },
        }
    }

    /// The tallies at `sample`.
    pub fn count(self, sample: &MeasurementSample) -> (tallies: Tallies)
        ensures
            tallies == self.counted(*sample),
    {
        Tallies {
            energy: self.energy.grow(sample.energy_throughput),
            capacity: self.capacity.grow(sample.charge_throughput),
            net_energy: self.net_energy.change(sample.energy),
        }
    }
}

/// What a finished recording came to, for display after it.
#[derive(Debug, Clone, Copy, PartialEq, Eq, Structural)]
pub struct FrozenTotals {
    pub duration_us: Option<u64>,
    pub energy: Option<i128>,
    pub capacity: Option<i128>,
    pub net_energy: Option<i128>,
}

impl FrozenTotals {
    /// No recording was finished.
    pub open spec fn none() -> FrozenTotals {
        FrozenTotals { duration_us: None, energy: None, capacity: None, net_energy: None }
    }

    /// No recording was finished.
    pub fn nothing() -> (totals: FrozenTotals)
        ensures
            totals == FrozenTotals::none(),
    {
        FrozenTotals { duration_us: None, energy: None, capacity: None, net_energy: None }
    }
}

/// The part of a session's state that counts and decides.
#[derive(Debug, Clone, Copy, PartialEq, Eq, Structural)]
pub struct SessionCore {
    pub phase: RecordingPhase,
    /// Whether there is a recording session.
    pub session: bool,
    /// Whether samples are kept from the recording.
    pub paused: bool,
    pub pause_reason: Option<PauseReason>,
    /// When the clock was last set going.
    pub anchor_us: Option<u64>,
    /// What the clock showed then.
    pub elapsed_before_us: u64,
    pub tallies: Tallies,
    pub last: FrozenTotals,
    pub below_since_us: Option<u64>,
    pub above_since_us: Option<u64>,
    pub segment_start: RecordingOffsets,
    pub continuation: RecordingOffsets,
    pub next_segment_index: u32,
    /// Where on the plot the current pause began.
    pub active_pause_us: Option<i64>,
    pub statistics: RecordingSessionStatistics,
    /// What is added to live samples that carry on an earlier session.
    pub resume_offsets: Option<RecordingOffsets>,
    /// The time of the device at which the plot begins.
    pub plot_origin_us: i64,
    /// The sample at which the plot begins, which is no row of the recording.
    pub plot_origin_index: Option<u64>,
    /// Whether idle sleep is held off.
    pub sleep_held: bool,
}

impl SessionCore {
    /// There is no session yet.
    pub open spec fn idle() -> SessionCore {
        SessionCore {
            phase: RecordingPhase::Idle,
            session: false,
            paused: false,
            pause_reason: None,
            anchor_us: None,
            elapsed_before_us: 0,
            tallies: Tallies::fresh(None),
            last: FrozenTotals::none(),
            below_since_us: None,
            above_since_us: None,
            segment_start: RecordingOffsets::none(),
            continuation: RecordingOffsets::none(),
            next_segment_index: 0,
            active_pause_us: None,
            statistics: RecordingSessionStatistics::none(),
            resume_offsets: None,
            plot_origin_us: 0,
            plot_origin_index: None,
            sleep_held: false,
        }
    }

    /// The plot begins at a time.
    pub open spec fn well_formed(self) -> bool {
        0 <= self.plot_origin_us
    }

    /// How long the clock has been going at `now_us`. Once samples are being
    /// written the device's own time is what counts: the clock then runs ahead
    /// by one sample period at most, so that a sleeping display or a stalled
    /// link cannot invent time that was never recorded.
    pub open spec fn running(self, now_us: u64, rate: SampleRateOption, writing: bool) -> int {
        match self.anchor_us {
            Some(anchor) => if writing {
                smaller(
                    excess(now_us, anchor),
                    1_000_000int / rate.samples_per_second() as int,
                )
            } else {
                excess(now_us, anchor)
            },
            None => 0,
        }
    }

    /// What the clock of the recording shows.
    pub open spec fn elapsed(self, now_us: u64, rate: SampleRateOption, writing: bool) -> u64 {
        in_counter(self.elapsed_before_us + self.running(now_us, rate, writing))
    }

    /// The session with its clock stopped.
    pub open spec fn frozen(self, ctx: Context, writing: bool) -> SessionCore {
        SessionCore {
            elapsed_before_us: larger(
                self.elapsed_before_us as int,
                self.elapsed(ctx.now_us, ctx.rate, writing) as int,
            ) as u64,
            anchor_us: None,
            paused: true,
            ..self
        }
    }

    /// The session with its clock set to the time of the recorded samples.
    pub open spec fn synced(self, elapsed_us: u64, now_us: u64) -> SessionCore {
        SessionCore {
            elapsed_before_us: larger(self.elapsed_before_us as int, elapsed_us as int) as u64,
            anchor_us: if self.session && !self.paused {
                Some(now_us)
            } else {
                self.anchor_us
            },
            ..self
        }
    }

    /// Where the newest sample is on the plot.
    pub open spec fn plotted(self, latest: Option<MeasurementSample>) -> Option<i64> {
        match latest {
            Some(sample) => Some(since(charted(sample.elapsed_us), self.plot_origin_us)),
            None => None,
        }
    }

    /// The session, kept from recording from the newest sample on.
    pub open spec fn held(self, ctx: Context, writing: bool) -> SessionCore {
        SessionCore {
            active_pause_us: self.plotted(ctx.latest),
            tallies: self.tallies.moved(ctx.latest).completed(),
            ..self.frozen(ctx, writing)
        }
    }

    /// The session, paused for `reason`.
    pub open spec fn paused_for(
        self,
        reason: PauseReason,
        ctx: Context,
        writing: bool,
    ) -> SessionCore {
        SessionCore {
            phase: RecordingPhase::Paused,
            pause_reason: Some(reason),
            below_since_us: None,
            above_since_us: None,
            ..self.held(ctx, writing)
        }
    }

    /// The session, going on from the newest sample.
    pub open spec fn resumed(self, ctx: Context) -> SessionCore {
        SessionCore {
            phase: RecordingPhase::Recording,
            paused: false,
            pause_reason: None,
            anchor_us: Some(ctx.now_us),
            tallies: self.tallies.moved(ctx.latest),
            active_pause_us: None,
            ..self
        }
    }

    /// The session that begins at the newest sample.
    pub open spec fn begun(self, ctx: Context) -> SessionCore {
        SessionCore {
            phase: RecordingPhase::Recording,
            session: true,
            paused: false,
            pause_reason: None,
            anchor_us: Some(ctx.now_us),
            elapsed_before_us: 0,
            tallies: Tallies::fresh(ctx.latest),
            last: FrozenTotals::none(),
            below_since_us: None,
            above_since_us: None,
            active_pause_us: None,
            statistics: RecordingSessionStatistics::none(),
            resume_offsets: None,
            plot_origin_us: match ctx.latest {
                Some(sample) => charted(sample.elapsed_us),
                None => 0,
            },
            plot_origin_index: match ctx.latest {
                Some(sample) => Some(sample.sample_index),
                None => None,
            },
            ..self
        }
    }

    /// The session is over; what it came to stays on display.
    pub open spec fn over(self, ctx: Context, writing: bool) -> SessionCore {
        SessionCore {
            session: false,
            paused: false,
            pause_reason: None,
            anchor_us: None,
            elapsed_before_us: 0,
            tallies: Tallies::fresh(None),
            last: if self.session {
                FrozenTotals {
                    duration_us: Some(self.elapsed(ctx.now_us, ctx.rate, writing)),
                    energy: Some(larger(self.tallies.energy.total as int, 0) as i128),
                    capacity: Some(larger(self.tallies.capacity.total as int, 0) as i128),
                    net_energy: Some(self.tallies.net_energy.total),
                }
            } else {
                self.last
            },
            below_since_us: None,
            above_since_us: None,
            active_pause_us: None,
            resume_offsets: None,
            sleep_held: false,
            ..self
        }
    }

    /// The session that carries on an earlier one, which ended with `last`.
    pub open spec fn taken_up(
        self,
        last: MeasurementSample,
        offsets: RecordingOffsets,
        samples: Seq<MeasurementSample>,
        next_segment_index: u32,
    ) -> SessionCore {
        SessionCore {
            phase: RecordingPhase::Paused,
            session: true,
            paused: true,
            pause_reason: Some(PauseReason::Manual),
            anchor_us: None,
            elapsed_before_us: last.elapsed_us,
            tallies: Tallies {
                energy: Tally::at(last.energy_throughput),
                capacity: Tally::at(last.charge_throughput),
                net_energy: Tally::at(last.energy),
            },
            segment_start: offsets,
            continuation: offsets,
            next_segment_index,
            active_pause_us: Some(charted(last.elapsed_us)),
            statistics: RecordingSessionStatistics::none().with_all(samples),
            resume_offsets: Some(offsets),
            plot_origin_us: 0,
            plot_origin_index: None,
            ..self
        }
    }

    /// There is no session yet.
    pub fn new() -> (core: SessionCore)
        ensures
            core == SessionCore::idle(),
            core.well_formed(),
    {
        SessionCore {
            phase: RecordingPhase::Idle,
            session: false,
            paused: false,
            pause_reason: None,
            anchor_us: None,
            elapsed_before_us: 0,
            tallies: Tallies::begin(None),
            last: FrozenTotals::nothing(),
            below_since_us: None,
            above_since_us: None,
            segment_start: RecordingOffsets::default(),
            continuation: RecordingOffsets::default(),
            next_segment_index: 0,
            active_pause_us: None,
            statistics: RecordingSessionStatistics::default(),
            resume_offsets: None,
            plot_origin_us: 0,
            plot_origin_index: None,
            sleep_held: false,
        }
    }

    /// What the clock of the recording shows; `writing` says whether samples
    /// are being written.
    pub fn recording_elapsed(
        &self,
        now_us: u64,
        rate: SampleRateOption,
        writing: bool,
    ) -> (elapsed_us: u64)
        ensures
            elapsed_us == self.elapsed(now_us, rate, writing),
    {
        let running: u64 = match self.anchor_us {
            Some(anchor) => {
                let passed: u64 = now_us.saturating_sub(anchor);
                let period: u64 = 1_000_000 / rate.hertz() as u64;
                if writing && passed > period {
                    period
                } else {
                    passed
                }
            },
            None => 0,
        };
        self.elapsed_before_us.saturating_add(running)
    }

    /// Stops the clock.
    pub fn freeze_recording_clock(&mut self, ctx: Context, writing: bool)
        ensures
            *final(self) == old(self).frozen(ctx, writing),
    {
        let elapsed: u64 = self.recording_elapsed(ctx.now_us, ctx.rate, writing);
        if elapsed > self.elapsed_before_us {
            self.elapsed_before_us = elapsed;
        }
        self.anchor_us = None;
        self.paused = true;
    }

    /// Sets the clock to the time of the recorded samples.
    pub fn sync_recording_clock_to_samples(&mut self, elapsed_us: u64, now_us: u64)
        ensures
            *final(self) == old(self).synced(elapsed_us, now_us),
    {
        if elapsed_us > self.elapsed_before_us {
            self.elapsed_before_us = elapsed_us;
        }
        if self.session && !self.paused {
            self.anchor_us = Some(now_us);
        }
    }

    /// Where the newest sample is on the plot.
    pub fn plotted_latest(&self, latest: Option<MeasurementSample>) -> (time_us: Option<i64>)
        requires
            self.well_formed(),
        ensures
            time_us == self.plotted(latest),
    {
        match latest {
            Some(sample) => Some(display_time(chart_time(sample.elapsed_us), self.plot_origin_us)),
            None => None,
        }
    }

    /// Keeps the session from recording from the newest sample on.
    pub fn hold(&mut self, ctx: Context, writing: bool)
        requires
            old(self).well_formed(),
        ensures
            *final(self) == old(self).held(ctx, writing),
            final(self).well_formed(),
    {
        self.freeze_recording_clock(ctx, writing);
        self.active_pause_us = self.plotted_latest(ctx.latest);
        self.tallies = self.tallies.rebase(ctx.latest).complete();
    }

    /// Pauses the session.
    pub fn pause(&mut self, reason: PauseReason, ctx: Context, writing: bool)
        requires
            old(self).well_formed(),
        ensures
            *final(self) == old(self).paused_for(reason, ctx, writing),
            final(self).well_formed(),
    {
        self.hold(ctx, writing);
        self.phase = RecordingPhase::Paused;
        self.pause_reason = Some(reason);
        self.below_since_us = None;
        self.above_since_us = None;
    }

    /// Goes on from the newest sample.
    pub fn resume(&mut self, ctx: Context)
        ensures
            *final(self) == old(self).resumed(ctx),
    {
        self.tallies = self.tallies.rebase(ctx.latest);
        self.active_pause_us = None;
        self.anchor_us = Some(ctx.now_us);
        self.paused = false;
        self.pause_reason = None;
        self.phase = RecordingPhase::Recording;
    }

    /// Begins a session at the newest sample.
    pub fn begin(&mut self, ctx: Context)
        ensures
            *final(self) == old(self).begun(ctx),
            final(self).well_formed(),
    {
        self.phase = RecordingPhase::Recording;
        self.session = true;
        self.paused = false;
        self.pause_reason = None;
        self.anchor_us = Some(ctx.now_us);
        self.elapsed_before_us = 0;
        self.tallies = Tallies::begin(ctx.latest);
        self.last = FrozenTotals::nothing();
        self.below_since_us = None;
        self.above_since_us = None;
        self.active_pause_us = None;
        self.statistics = RecordingSessionStatistics::default();
        self.resume_offsets = None;
        match ctx.latest {
            Some(sample) => {
                self.plot_origin_us = chart_time(sample.elapsed_us);
                self.plot_origin_index = Some(sample.sample_index);
            },
            None => {
                self.plot_origin_us = 0;
                self.plot_origin_index = None;
            },
        }
    }

    /// Takes up an earlier session where it ended.
    pub fn take_up(
        &mut self,
        samples: &Vec<MeasurementSample>,
        offsets: RecordingOffsets,
        next_segment_index: u32,
    )
        requires
            samples@.len() > 0,
        ensures
            *final(self) == old(self).taken_up(
                samples@.last(),
                offsets,
                samples@,
                next_segment_index,
            ),
            final(self).well_formed(),
    {
        let last = samples[samples.len() - 1];
        self.phase = RecordingPhase::Paused;
        self.session = true;
        self.paused = true;
        self.pause_reason = Some(PauseReason::Manual);
        self.anchor_us = None;
        self.elapsed_before_us = last.elapsed_us;
        self.tallies = Tallies {
            energy: Tally {
                origin: last.energy_throughput,
                completed: last.energy_throughput,
                total: last.energy_throughput,
            },
            capacity: Tally {
                origin: last.charge_throughput,
                completed: last.charge_throughput,
                total: last.charge_throughput,
            },
            net_energy: Tally { origin: last.energy, completed: last.energy, total: last.energy },
        };
        self.segment_start = offsets;
        self.continuation = offsets;
        self.next_segment_index = next_segment_index;
        self.active_pause_us = Some(chart_time(last.elapsed_us));
        self.statistics = RecordingSessionStatistics::from_measurements(samples);
        self.resume_offsets = Some(offsets);
        self.plot_origin_us = 0;
        self.plot_origin_index = None;
    }

    /// Ends the session and keeps what it came to on display.
    pub fn finish_recording_session(&mut self, ctx: Context, writing: bool)
        ensures
            *final(self) == old(self).over(ctx, writing),
    {
        if self.session {
            let energy: i128 = self.tallies.energy.total;
            let capacity: i128 = self.tallies.capacity.total;
            self.last = FrozenTotals {
                duration_us: Some(self.recording_elapsed(ctx.now_us, ctx.rate, writing)),
                energy: Some(
                    if energy > 0 {
                        energy
                    } else {
                        0
                    },
                ),
                capacity: Some(
                    if capacity > 0 {
                        capacity
                    } else {
                        0
                    },
                ),
                net_energy: Some(self.tallies.net_energy.total),
            };
        }
        self.session = false;
        self.paused = false;
        self.pause_reason = None;
        self.anchor_us = None;
        self.elapsed_before_us = 0;
        self.tallies = Tallies::begin(None);
        self.below_since_us = None;
        self.above_since_us = None;
        self.active_pause_us = None;
        self.resume_offsets = None;
        self.sleep_held = false;
    }

    /// What the toolbar shows as the duration of the recording.
    pub open spec fn shown_duration(
        self,
        now_us: u64,
        rate: SampleRateOption,
        writing: bool,
    ) -> u64 {
        if self.session {
            self.elapsed(now_us, rate, writing)
        } else {
            match self.last.duration_us {
                Some(duration) => duration,
                None => 0,
            }
        }
    }

    /// What is shown of an amount that the recording adds up.
    pub open spec fn shown_amount(self, tally: Tally, last: Option<i128>) -> i128 {
        if self.session {
            tally.total
        } else {
            match last {
                Some(amount) => amount,
                None => 0,
            }
        }
    }

    /// What is shown as the energy of the recording.
    pub open spec fn shown_energy(self) -> i128 {
        self.shown_amount(self.tallies.energy, self.last.energy)
    }

    /// What is shown as the capacity of the recording.
    pub open spec fn shown_capacity(self) -> i128 {
        self.shown_amount(self.tallies.capacity, self.last.capacity)
    }

    /// What is shown as the net energy of the recording.
    pub open spec fn shown_net_energy(self) -> i128 {
        self.shown_amount(self.tallies.net_energy, self.last.net_energy)
    }

    /// What the toolbar shows as the duration of the recording.
    pub fn displayed_recording_duration(
        &self,
        now_us: u64,
        rate: SampleRateOption,
        writing: bool,
    ) -> (duration_us: u64)
        ensures
            duration_us == self.shown_duration(now_us, rate, writing),
    {
        if self.session {
            self.recording_elapsed(now_us, rate, writing)
        } else {
            match self.last.duration_us {
                Some(duration) => duration,
                None => 0,
            }
        }
    }

    /// What is shown as the energy of the recording.
    pub fn displayed_cumulative_energy(&self) -> (energy: i128)
        ensures
            energy == self.shown_energy(),
    {
        if self.session {
            self.tallies.energy.total
        } else {
            match self.last.energy {
                Some(energy) => energy,
                None => 0,
            }
        }
    }

    /// What is shown as the capacity of the recording.
    pub fn displayed_recording_capacity(&self) -> (capacity: i128)
        ensures
            capacity == self.shown_capacity(),
    {
        if self.session {
            self.tallies.capacity.total
        } else {
            match self.last.capacity {
                Some(capacity) => capacity,
                None => 0,
            }
        }
    }

    /// What is shown as the net energy of the recording.
    pub fn displayed_recording_net_energy(&self) -> (energy: i128)
        ensures
            energy == self.shown_net_energy(),
    {
        if self.session {
            self.tallies.net_energy.total
        } else {
            match self.last.net_energy {
                Some(energy) => energy,
                None => 0,
            }
        }
    }
}

/// The clock never shows less than before it was stopped or set, it never
/// shows less than the recorded samples, and it runs ahead of them by one
/// sample period at most while they are being written.
pub proof fn law_clock_follows_the_samples(
    core: SessionCore,
    ctx: Context,
    writing: bool,
    elapsed_us: u64,
    later_us: u64,
)
    ensures
        core.frozen(ctx, writing).elapsed(later_us, ctx.rate, writing) == core.elapsed(
            ctx.now_us,
            ctx.rate,
            writing,
        ),
        core.session && !core.paused ==> {
            let synced = core.synced(elapsed_us, ctx.now_us);
            let shown = synced.elapsed(later_us, ctx.rate, true);
            &&& shown >= elapsed_us
            &&& shown >= core.elapsed_before_us
            &&& shown <= larger(core.elapsed_before_us as int, elapsed_us as int)
                + 1_000_000int / ctx.rate.samples_per_second() as int
        },
{
}

/// A sample that arrives while a session is paused changes nothing that the
/// recording adds up: the session goes on from the newest sample, and the
/// first sample after that adds only what passed since.
pub proof fn law_pause_adds_nothing(
    tallies: Tallies,
    paused: MeasurementSample,
    resumed: MeasurementSample,
    next: MeasurementSample,
)
    ensures
        ({
            let before = tallies.moved(Some(paused)).completed();
            let after = before.moved(Some(resumed));
            &&& before.energy.total == tallies.energy.total
            &&& before.capacity.total == tallies.capacity.total
            &&& before.net_energy.total == tallies.net_energy.total
            &&& after.counted(resumed).energy.total == tallies.energy.total
            &&& after.counted(resumed).capacity.total == tallies.capacity.total
            &&& after.counted(resumed).net_energy.total == tallies.net_energy.total
            &&& after.counted(next).energy.total == in_amount(
                tallies.energy.total + larger(
                    in_amount(next.energy_throughput - resumed.energy_throughput) as int,
                    0,
                ),
            )
            &&& after.counted(next).capacity.total == in_amount(
                tallies.capacity.total + larger(
                    in_amount(next.charge_throughput - resumed.charge_throughput) as int,
                    0,
                ),
            )
            &&& after.counted(next).net_energy.total == in_amount(
                tallies.net_energy.total + in_amount(next.energy - resumed.energy),
            )
        }),
{
}

/// The reading that a rule compares, in millionths.
pub open spec fn watched(metric: AutoCaptureMetric, sample: MeasurementSample) -> nat {
    match metric {
        AutoCaptureMetric::Power => magnitude(sample.power_uw as int) as nat,
        AutoCaptureMetric::Current => magnitude(sample.ibus_ua as int) as nat,
        AutoCaptureMetric::Voltage => magnitude(sample.vbus_uv as int) as nat,
    }
}

/// The reading that a rule compares, in millionths.
pub fn auto_capture_value_micro(metric: AutoCaptureMetric, sample: &MeasurementSample) -> (value:
    u64)
    ensures
        value == watched(metric, *sample),
{
    let value: i64 = match metric {
        AutoCaptureMetric::Power => sample.power_uw,
        AutoCaptureMetric::Current => sample.ibus_ua,
        AutoCaptureMetric::Voltage => sample.vbus_uv,
    };
    unsigned(value as i128) as u64
}

impl AutoCaptureRule {
    /// The threshold in millionths.
    pub open spec fn threshold(self) -> nat {
        self.threshold_milli as nat * 1_000
    }

    /// How far above the threshold a reading must come back.
    pub open spec fn hysteresis(self) -> nat {
        match self.metric {
            AutoCaptureMetric::Power => larger(self.threshold() as int / 20, 50_000) as nat,
            AutoCaptureMetric::Current => larger(self.threshold() as int / 20, 20_000) as nat,
            AutoCaptureMetric::Voltage => larger(self.threshold() as int / 50, 100_000) as nat,
        }
    }

    /// The reading from which on a session goes on.
    pub open spec fn recovery(self) -> nat {
        self.threshold() + self.hysteresis()
    }

    /// How long a reading must stay, in microseconds.
    pub open spec fn sustained(self) -> nat {
        self.sustain_ms as nat * 1_000
    }
}

/// How far above the threshold a reading must come back, in millionths.
pub fn auto_capture_hysteresis_micro(rule: AutoCaptureRule) -> (hysteresis: u64)
    ensures
        hysteresis == rule.hysteresis(),
{
    let threshold: u64 = rule.threshold_milli as u64 * 1_000;
    let (part, least): (u64, u64) = match rule.metric {
        AutoCaptureMetric::Power => (threshold / 20, 50_000),
        AutoCaptureMetric::Current => (threshold / 20, 20_000),
        AutoCaptureMetric::Voltage => (threshold / 50, 100_000),
    };
    if part >= least {
        part
    } else {
        least
    }
}

/// The reading from which on a session goes on, in millionths.
pub fn recovery_threshold_micro(rule: AutoCaptureRule) -> (threshold: u64)
    ensures
        threshold == rule.recovery(),
{
    rule.threshold_milli as u64 * 1_000 + auto_capture_hysteresis_micro(rule)
}

/// A session that paused by itself goes on only well above the reading at
/// which it paused, so that it does not flicker.
pub proof fn law_recovery_lies_above_the_threshold(rule: AutoCaptureRule)
    ensures
        rule.recovery() >= rule.threshold() + 20_000,
        rule.recovery() <= u64::MAX,
{
}

/// Since when a condition has held, given that it holds at `elapsed_us` or
/// does not.
pub open spec fn held_since(since_us: Option<u64>, holds: bool, elapsed_us: u64) -> Option<u64> {
    if !holds {
        None
    } else {
        match since_us {
            Some(start) => Some(start),
            None => Some(elapsed_us),
        }
    }
}

/// Whether a condition that has held since `since_us` has held long enough.
pub open spec fn held_long(since_us: Option<u64>, elapsed_us: u64, long_us: nat) -> bool {
    match since_us {
        Some(start) => excess(elapsed_us, start) >= long_us,
        None => false,
    }
}

/// What the automatic rule made of some samples.
#[derive(Debug, Clone, Copy, PartialEq, Eq, Structural)]
pub struct AutoWatch {
    pub below_since_us: Option<u64>,
    pub above_since_us: Option<u64>,
    pub pause: bool,
    pub resume: bool,
}

impl AutoWatch {
    /// Nothing was seen since the session was as it is.
    pub open spec fn at(core: SessionCore) -> AutoWatch {
        AutoWatch {
            below_since_us: core.below_since_us,
            above_since_us: core.above_since_us,
            pause: false,
            resume: false,
        }
    }

    /// What the rule makes of one more sample. A session that is recorded is
    /// watched for a low reading; one that paused by itself for this metric is
    /// watched for a high one; any other session is not watched.
    pub open spec fn seen(
        self,
        core: SessionCore,
        rule: AutoCaptureRule,
        sample: MeasurementSample,
    ) -> AutoWatch {
        let elapsed = sample.elapsed_us;
        if core.session && !core.paused && rule.enabled {
            let since = held_since(
                self.below_since_us,
                watched(rule.metric, sample) <= rule.threshold(),
                elapsed,
            );
            AutoWatch {
                below_since_us: since,
                pause: self.pause || held_long(since, elapsed, rule.sustained()),
                ..self
            }
        } else if core.session && core.paused && core.pause_reason == Some(
            PauseReason::Automatic(rule.metric),
        ) && rule.enabled {
            let since = held_since(
                self.above_since_us,
                watched(rule.metric, sample) >= rule.recovery(),
                elapsed,
            );
            AutoWatch {
                above_since_us: since,
                resume: self.resume || held_long(since, elapsed, rule.sustained()),
                ..self
            }
        } else {
            self
        }
    }

    /// What the rule makes of all of `samples`.
    pub open spec fn seen_all(
        self,
        core: SessionCore,
        rule: AutoCaptureRule,
        samples: Seq<MeasurementSample>,
    ) -> AutoWatch
        decreases samples.len(),
    {
        if samples.len() == 0 {
            self
        } else {
            self.seen_all(core, rule, samples.drop_last()).seen(core, rule, samples.last())
        }
    }

    /// Takes one more sample into account.
    fn see(&mut self, core: &SessionCore, rule: AutoCaptureRule, sample: &MeasurementSample)
        ensures
            *final(self) == old(self).seen(*core, rule, *sample),
    {
        let sustained: u64 = rule.sustain_ms as u64 * 1_000;
        if !rule.enabled || !core.session {
            return;
        }
        let value: u64 = auto_capture_value_micro(rule.metric, sample);
        if !core.paused {
            if value <= rule.threshold_milli as u64 * 1_000 {
                let start: u64 = match self.below_since_us {
                    Some(start) => start,
                    None => sample.elapsed_us,
                };
                self.below_since_us = Some(start);
                if sample.elapsed_us.saturating_sub(start) >= sustained {
                    self.pause = true;
                }
            } else {
                self.below_since_us = None;
            }
        } else {
            let watching: bool = match core.pause_reason {
                Some(PauseReason::Automatic(metric)) => metric == rule.metric,
                _ => false,
            };
            if watching {
                if value >= recovery_threshold_micro(rule) {
                    let start: u64 = match self.above_since_us {
                        Some(start) => start,
                        None => sample.elapsed_us,
                    };
                    self.above_since_us = Some(start);
                    if sample.elapsed_us.saturating_sub(start) >= sustained {
                        self.resume = true;
                    }
                } else {
                    self.above_since_us = None;
                }
            }
        }
    }

    /// What the rule makes of `samples`.
    pub fn watch(
        core: &SessionCore,
        rule: AutoCaptureRule,
        samples: &Vec<MeasurementSample>,
    ) -> (watch: AutoWatch)
        ensures
            watch == AutoWatch::at(*core).seen_all(*core, rule, samples@),
    {
        let mut watch = AutoWatch {
            below_since_us: core.below_since_us,
            above_since_us: core.above_since_us,
            pause: false,
            resume: false,
        };
        let mut index: usize = 0;
        assert(samples@.take(0) =~= Seq::<MeasurementSample>::empty());
        while index < samples.len()
            invariant
                index <= samples@.len(),
                watch == AutoWatch::at(*core).seen_all(*core, rule, samples@.take(index as int)),
            decreases samples.len() - index,
        {
            watch.see(core, rule, &samples[index]);
            assert(samples@.take(index + 1).drop_last() =~= samples@.take(index as int));
            index += 1;
        }
        assert(samples@.take(index as int) =~= samples@);
        watch
    }
}

/// A session that the user paused, or that lost its device, never goes on by
/// itself; neither does one that paused by itself for another metric, and
/// none does while the rule is off. A session pauses by itself only while it
/// is recorded.
pub proof fn law_only_an_automatic_pause_ends_by_itself(
    core: SessionCore,
    rule: AutoCaptureRule,
    samples: Seq<MeasurementSample>,
)
    ensures
        ({
            let watch = AutoWatch::at(core).seen_all(core, rule, samples);
            &&& watch.resume ==> core.session && core.paused && rule.enabled && core.pause_reason
                == Some(PauseReason::Automatic(rule.metric))
            &&& watch.pause ==> core.session && !core.paused && rule.enabled
        }),
    decreases samples.len(),
{
    if samples.len() > 0 {
        law_only_an_automatic_pause_ends_by_itself(core, rule, samples.drop_last());
    }
}

/// The first reading that is not low starts the count anew: a session pauses
/// by itself only after the reading stayed low for as long as the rule says.
pub proof fn law_automatic_pause_needs_a_sustained_low_reading(
    core: SessionCore,
    rule: AutoCaptureRule,
    samples: Seq<MeasurementSample>,
)
    requires
        core.session && !core.paused && rule.enabled,
        core.below_since_us is None,
        AutoWatch::at(core).seen_all(core, rule, samples).pause,
    ensures
        exists|first: int, last: int| #[trigger]
            low_stretch(rule, samples, first, last) && excess(
                samples[last].elapsed_us,
                samples[first].elapsed_us,
            ) >= rule.sustained(),
    decreases samples.len(),
{
    lemma_low_stretch(core, rule, samples);
    let watch = AutoWatch::at(core).seen_all(core, rule, samples);
    if samples.len() > 0 {
        let front = samples.drop_last();
        let before = AutoWatch::at(core).seen_all(core, rule, front);
        if before.pause {
            law_automatic_pause_needs_a_sustained_low_reading(core, rule, front);
            let (first, last) = choose|first: int, last: int| #[trigger]
                low_stretch(rule, front, first, last) && excess(
                    front[last].elapsed_us,
                    front[first].elapsed_us,
                ) >= rule.sustained();
            assert(front[first] == samples[first] && front[last] == samples[last]);
            assert forall|i: int| first <= i <= last implies watched(
                rule.metric,
                #[trigger] samples[i],
            ) <= rule.threshold() by {
                assert(front[i] == samples[i]);
            }
            assert(low_stretch(rule, samples, first, last));
        } else {
            let first = choose|first: int| #[trigger]
                low_stretch(rule, samples, first, samples.len() - 1)
                    && samples[first].elapsed_us == watch.below_since_us->0;
            assert(low_stretch(rule, samples, first, samples.len() - 1));
        }
    }
}

/// The readings from `first` to `last` are all low.
pub open spec fn low_stretch(
    rule: AutoCaptureRule,
    samples: Seq<MeasurementSample>,
    first: int,
    last: int,
) -> bool {
    &&& 0 <= first <= last < samples.len()
    &&& forall|i: int|
        first <= i <= last ==> watched(rule.metric, #[trigger] samples[i]) <= rule.threshold()
}

proof fn lemma_low_stretch(
    core: SessionCore,
    rule: AutoCaptureRule,
    samples: Seq<MeasurementSample>,
)
    requires
        core.session && !core.paused && rule.enabled,
        core.below_since_us is None,
    ensures
        AutoWatch::at(core).seen_all(core, rule, samples).below_since_us matches Some(start)
            ==> exists|first: int| #[trigger]
            low_stretch(rule, samples, first, samples.len() - 1) && samples[first].elapsed_us
                == start,
    decreases samples.len(),
{
    if samples.len() > 0 {
        let front = samples.drop_last();
        lemma_low_stretch(core, rule, front);
        let before = AutoWatch::at(core).seen_all(core, rule, front);
        let after = AutoWatch::at(core).seen_all(core, rule, samples);
        if after.below_since_us is Some {
            let last = samples.len() - 1;
            if before.below_since_us is Some {
                let first = choose|first: int| #[trigger]
                    low_stretch(rule, front, first, front.len() - 1) && front[first].elapsed_us
                        == before.below_since_us->0;
                assert forall|i: int| first <= i <= last implies watched(
                    rule.metric,
                    #[trigger] samples[i],
                ) <= rule.threshold() by {
                    if i < last {
                        assert(front[i] == samples[i]);
                    }
                }
                assert(front[first] == samples[first]);
                assert(low_stretch(rule, samples, first, last));
            } else {
                assert(low_stretch(rule, samples, last, last));
            }
        }
    }
}

/// Whether the reading that `rule` compares is at or below its threshold, in
/// either direction of flow.
pub open spec fn is_low(rule: AutoCaptureRule, sample: MeasurementSample) -> bool {
    let level = rule.threshold_milli * 1_000;
    match rule.metric {
        AutoCaptureMetric::Power => -level <= sample.power_uw <= level,
        AutoCaptureMetric::Current => -level <= sample.ibus_ua <= level,
        AutoCaptureMetric::Voltage => -level <= sample.vbus_uv <= level,
    }
}

/// Whether the reading that `rule` compares is above its threshold by a
/// twentieth of it and 50 mW or 20 mA, or by a fiftieth and 100 mV, whichever
/// is more.
pub open spec fn is_high(rule: AutoCaptureRule, sample: MeasurementSample) -> bool {
    let level = rule.threshold_milli * 1_000;
    match rule.metric {
        AutoCaptureMetric::Power => {
            let size = if sample.power_uw < 0 {
                -sample.power_uw
            } else {
                sample.power_uw as int
            };
            size >= level + 50_000 && size >= level + level / 20
        },
        AutoCaptureMetric::Current => {
            let size = if sample.ibus_ua < 0 {
                -sample.ibus_ua
            } else {
                sample.ibus_ua as int
            };
            size >= level + 20_000 && size >= level + level / 20
        },
        AutoCaptureMetric::Voltage => {
            let size = if sample.vbus_uv < 0 {
                -sample.vbus_uv
            } else {
                sample.vbus_uv as int
            };
            size >= level + 100_000 && size >= level + level / 50
        },
    }
}

/// Being low, as a property of samples.
pub open spec fn lows(rule: AutoCaptureRule) -> spec_fn(MeasurementSample) -> bool {
    |sample: MeasurementSample| is_low(rule, sample)
}

/// Being high, as a property of samples.
pub open spec fn highs(rule: AutoCaptureRule) -> spec_fn(MeasurementSample) -> bool {
    |sample: MeasurementSample| is_high(rule, sample)
}

/// Whether every sample from `first` to `last` has a property.
pub open spec fn all_through(
    samples: Seq<MeasurementSample>,
    holds: spec_fn(MeasurementSample) -> bool,
    first: int,
    last: int,
) -> bool {
    &&& 0 <= first <= last < samples.len()
    &&& forall|i: int| first <= i <= last ==> #[trigger] holds(samples[i])
}

/// Whether a property held from sample `first` to sample `last` for `long_us`;
/// one that held since `since_us` when the first sample came held from then on.
pub open spec fn lasted(
    samples: Seq<MeasurementSample>,
    holds: spec_fn(MeasurementSample) -> bool,
    since_us: Option<u64>,
    long_us: int,
    first: int,
    last: int,
) -> bool {
    &&& all_through(samples, holds, first, last)
    &&& {
        ||| samples[last].elapsed_us - samples[first].elapsed_us >= long_us
        ||| first == 0 && (since_us matches Some(start) && samples[last].elapsed_us - start
            >= long_us)
    }
}

/// Whether the samples are in order of time, and none is older than `since_us`.
pub open spec fn in_time_order(samples: Seq<MeasurementSample>, since_us: Option<u64>) -> bool {
    &&& forall|i: int, j: int|
        0 <= i <= j < samples.len() ==> (#[trigger] samples[i]).elapsed_us <= (
        #[trigger] samples[j]).elapsed_us
    &&& since_us matches Some(start) ==> forall|i: int|
        0 <= i < samples.len() ==> start <= (#[trigger] samples[i]).elapsed_us
}

/// Since when a property has held at the end of `samples`, and whether it ever
/// lasted for `long_us`.
spec fn followed_up(
    samples: Seq<MeasurementSample>,
    holds: spec_fn(MeasurementSample) -> bool,
    since_us: Option<u64>,
    long_us: nat,
) -> (Option<u64>, bool)
    decreases samples.len(),
{
    if samples.len() == 0 {
        (since_us, false)
    } else {
        let (before, done) = followed_up(samples.drop_last(), holds, since_us, long_us);
        let sample = samples.last();
        let since = held_since(before, holds(sample), sample.elapsed_us);
        (since, done || held_long(since, sample.elapsed_us, long_us))
    }
}

/// What is followed up is the oldest start of what still holds.
proof fn lemma_tracked_start(
    samples: Seq<MeasurementSample>,
    holds: spec_fn(MeasurementSample) -> bool,
    since_us: Option<u64>,
    long_us: nat,
)
    requires
        in_time_order(samples, since_us),
        samples.len() > 0,
    ensures
        ({
            let end = samples.len() - 1;
            match followed_up(samples, holds, since_us, long_us).0 {
                None => !holds(samples[end]),
                Some(start) => {
                    &&& holds(samples[end])
                    &&& start <= samples[end].elapsed_us
                    &&& exists|first: int| #[trigger]
                        all_through(samples, holds, first, end) && (start
                            == samples[first].elapsed_us || first == 0 && since_us == Some(start))
                    &&& forall|first: int| #[trigger]
                        all_through(samples, holds, first, end) ==> start
                            <= samples[first].elapsed_us
                    &&& all_through(samples, holds, 0, end) && since_us is Some ==> Some(start)
                        == since_us
                },
            }
        }),
    decreases samples.len(),
{
    let end = samples.len() - 1;
    let front = samples.drop_last();
    let sample = samples.last();
    let before = followed_up(front, holds, since_us, long_us).0;
    assert(samples[end] == sample);
    assert forall|i: int, j: int| 0 <= i <= j < front.len() implies (
    #[trigger] front[i]).elapsed_us <= (#[trigger] front[j]).elapsed_us by {
        assert(front[i] == samples[i] && front[j] == samples[j]);
    }
    assert forall|i: int| since_us is Some && 0 <= i < front.len() implies since_us->0 <= (
    #[trigger] front[i]).elapsed_us by {
        assert(front[i] == samples[i]);
    }
    if holds(sample) {
        if front.len() > 0 {
            lemma_tracked_start(front, holds, since_us, long_us);
            let last = front.len() - 1;
            assert(front[last] == samples[last]);
            match before {
                Some(start) => {
                    let first = choose|first: int| #[trigger]
                        all_through(front, holds, first, last) && (start
                            == front[first].elapsed_us || first == 0 && since_us == Some(start));
                    assert forall|i: int| first <= i <= end implies #[trigger] holds(samples[i]) by {
                        if i <= last {
                            assert(holds(front[i]));
                        }
                    }
                    assert(all_through(samples, holds, first, end));
                    assert(samples[first] == front[first]);
                    assert forall|other: int| #[trigger]
                        all_through(samples, holds, other, end) implies start
                        <= samples[other].elapsed_us by {
                        if other <= last {
                            assert forall|i: int| other <= i <= last implies #[trigger] holds(
                                front[i],
                            ) by {
                                assert(holds(samples[i]));
                            }
                            assert(all_through(front, holds, other, last));
                            assert(front[other] == samples[other]);
                        } else {
                            assert(samples[last].elapsed_us <= samples[end].elapsed_us);
                        }
                    }
                    if all_through(samples, holds, 0, end) {
                        assert forall|i: int| 0 <= i <= last implies #[trigger] holds(
                            front[i],
                        ) by {
                            assert(holds(samples[i]));
                        }
                        assert(all_through(front, holds, 0, last));
                    }
                },
                None => {
                    assert(all_through(samples, holds, end, end));
                    assert forall|other: int| #[trigger]
                        all_through(samples, holds, other, end) implies sample.elapsed_us
                        <= samples[other].elapsed_us by {
                        if other < end {
                            assert(holds(samples[last]));
                        }
                    }
                    if all_through(samples, holds, 0, end) {
                        assert(holds(samples[last]));
                    }
                },
            }
        } else {
            assert(all_through(samples, holds, 0, 0));
            assert forall|other: int| #[trigger]
                all_through(samples, holds, other, end) implies other == 0 by {}
        }
    }
}

/// What is followed up lasted exactly where some stretch of samples lasted.
proof fn lemma_tracked(
    samples: Seq<MeasurementSample>,
    holds: spec_fn(MeasurementSample) -> bool,
    since_us: Option<u64>,
    long_us: nat,
)
    requires
        in_time_order(samples, since_us),
    ensures
        followed_up(samples, holds, since_us, long_us).1 <==> exists|first: int, last: int| #[trigger]
            lasted(samples, holds, since_us, long_us as int, first, last),
    decreases samples.len(),
{
    if samples.len() == 0 {
        assert forall|first: int, last: int| !(#[trigger] lasted(
            samples,
            holds,
            since_us,
            long_us as int,
            first,
            last,
        )) by {}
    } else {
        let end = samples.len() - 1;
        let front = samples.drop_last();
        assert forall|i: int, j: int| 0 <= i <= j < front.len() implies (
        #[trigger] front[i]).elapsed_us <= (#[trigger] front[j]).elapsed_us by {
            assert(front[i] == samples[i] && front[j] == samples[j]);
        }
        assert forall|i: int| since_us is Some && 0 <= i < front.len() implies since_us->0 <= (
        #[trigger] front[i]).elapsed_us by {
            assert(front[i] == samples[i]);
        }
        lemma_tracked(front, holds, since_us, long_us);
        lemma_tracked_start(samples, holds, since_us, long_us);
        let since = followed_up(samples, holds, since_us, long_us).0;
        if followed_up(samples, holds, since_us, long_us).1 {
            if followed_up(front, holds, since_us, long_us).1 {
                let (first, last) = choose|first: int, last: int| #[trigger]
                    lasted(front, holds, since_us, long_us as int, first, last);
                assert forall|i: int| first <= i <= last implies #[trigger] holds(samples[i]) by {
                    assert(holds(front[i]));
                }
                assert(samples[first] == front[first] && samples[last] == front[last]);
                assert(all_through(samples, holds, first, last));
                assert(lasted(samples, holds, since_us, long_us as int, first, last));
            } else {
                let start = since->0;
                let first = choose|first: int| #[trigger]
                    all_through(samples, holds, first, end) && (start == samples[first].elapsed_us
                        || first == 0 && since_us == Some(start));
                assert(lasted(samples, holds, since_us, long_us as int, first, end));
            }
        }
        if exists|first: int, last: int| #[trigger]
            lasted(samples, holds, since_us, long_us as int, first, last) {
            let (first, last) = choose|first: int, last: int| #[trigger]
                lasted(samples, holds, since_us, long_us as int, first, last);
            if last < end {
                assert forall|i: int| first <= i <= last implies #[trigger] holds(front[i]) by {
                    assert(holds(samples[i]));
                }
                assert(samples[first] == front[first] && samples[last] == front[last]);
                assert(all_through(front, holds, first, last));
                assert(lasted(front, holds, since_us, long_us as int, first, last));
            } else {
                assert(holds(samples[end]));
                assert(all_through(samples, holds, first, end));
                if first == 0 {
                    assert(all_through(samples, holds, 0, end));
                }
            }
        }
    }
}

/// The automatic rule watches a low reading while a session is recorded, and a
/// high one while it is paused by the rule.
proof fn lemma_watch_tracks(
    core: SessionCore,
    rule: AutoCaptureRule,
    samples: Seq<MeasurementSample>,
)
    requires
        core.session && rule.enabled,
    ensures
        ({
            let watch = AutoWatch::at(core).seen_all(core, rule, samples);
            let low = followed_up(
                samples,
                lows(rule),
                core.below_since_us,
                rule.sustained(),
            );
            let high = followed_up(
                samples,
                highs(rule),
                core.above_since_us,
                rule.sustained(),
            );
            &&& !core.paused ==> (watch.below_since_us, watch.pause) == low
            &&& core.paused && core.pause_reason == Some(PauseReason::Automatic(rule.metric)) ==> (
                watch.above_since_us,
                watch.resume,
            ) == high
        }),
    decreases samples.len(),
{
    if samples.len() > 0 {
        lemma_watch_tracks(core, rule, samples.drop_last());
    }
}

/// A session that is recorded pauses by itself exactly where the reading that
/// the rule compares stayed at or below the threshold for as long as the rule
/// says: some stretch of samples is low throughout and lasts that long, counted
/// from when the reading became low.
pub proof fn law_automatic_pause_follows_a_sustained_low_reading(
    core: SessionCore,
    rule: AutoCaptureRule,
    samples: Seq<MeasurementSample>,
)
    requires
        core.session && !core.paused && rule.enabled,
        in_time_order(samples, core.below_since_us),
    ensures
        AutoWatch::at(core).seen_all(core, rule, samples).pause <==> exists|first: int, last: int|
            #[trigger]
            lasted(
                samples,
                lows(rule),
                core.below_since_us,
                rule.sustain_ms * 1_000,
                first,
                last,
            ),
{
    lemma_watch_tracks(core, rule, samples);
    lemma_tracked(
        samples,
        lows(rule),
        core.below_since_us,
        rule.sustained(),
    );
}

/// A session that paused by itself goes on exactly where the reading that the
/// rule compares came back well above the threshold and stayed there for as long
/// as the rule says: some stretch of samples is high throughout and lasts that
/// long, counted from when the reading became high.
pub proof fn law_automatic_resume_follows_a_sustained_high_reading(
    core: SessionCore,
    rule: AutoCaptureRule,
    samples: Seq<MeasurementSample>,
)
    requires
        core.session && core.paused && rule.enabled,
        core.pause_reason == Some(PauseReason::Automatic(rule.metric)),
        in_time_order(samples, core.above_since_us),
    ensures
        AutoWatch::at(core).seen_all(core, rule, samples).resume <==> exists|first: int, last: int|
            #[trigger]
            lasted(
                samples,
                highs(rule),
                core.above_since_us,
                rule.sustain_ms * 1_000,
                first,
                last,
            ),
{
    lemma_watch_tracks(core, rule, samples);
    lemma_tracked(
        samples,
        highs(rule),
        core.above_since_us,
        rule.sustained(),
    );
}

/// Whether an amount fits the counters.
pub open spec fn fits(amount: int) -> bool {
    i128::MIN <= amount <= i128::MAX
}

/// What is gained from `from` to `to`, where it is not lost.
pub open spec fn gained(from: i128, to: i128) -> int {
    if to > from {
        to - from
    } else {
        0
    }
}

/// An earlier session is taken up with all that it recorded: right away it shows
/// the time, the energy, the capacity and the net energy of its last stored
/// sample. When it goes on at `start`, nothing that passed meanwhile is counted,
/// and every later sample shows what was stored plus what passed since.
pub proof fn law_a_session_is_taken_up_with_what_it_recorded(
    core: SessionCore,
    samples: Seq<MeasurementSample>,
    offsets: RecordingOffsets,
    next_segment_index: u32,
    ctx: Context,
    start: MeasurementSample,
    next: MeasurementSample,
)
    requires
        samples.len() > 0,
        ctx.latest == Some(start),
        fits(next.energy_throughput - start.energy_throughput),
        fits(next.charge_throughput - start.charge_throughput),
        fits(next.energy - start.energy),
        fits(
            samples.last().energy_throughput + gained(
                start.energy_throughput,
                next.energy_throughput,
            ),
        ),
        fits(
            samples.last().charge_throughput + gained(
                start.charge_throughput,
                next.charge_throughput,
            ),
        ),
        fits(samples.last().energy + next.energy - start.energy),
    ensures
        ({
            let last = samples.last();
            let found = core.taken_up(last, offsets, samples, next_segment_index);
            let going = found.resumed(ctx);
            let later = SessionCore { tallies: going.tallies.counted(next), ..going };
            &&& found.session && found.paused
            &&& found.shown_energy() == last.energy_throughput
            &&& found.shown_capacity() == last.charge_throughput
            &&& found.shown_net_energy() == last.energy
            &&& found.shown_duration(ctx.now_us, ctx.rate, false) == last.elapsed_us
            &&& going.session && !going.paused
            &&& going.shown_energy() == last.energy_throughput
            &&& going.shown_capacity() == last.charge_throughput
            &&& going.shown_net_energy() == last.energy
            &&& going.shown_duration(ctx.now_us, ctx.rate, false) == last.elapsed_us
            &&& later.shown_energy() == last.energy_throughput + gained(
                start.energy_throughput,
                next.energy_throughput,
            )
            &&& later.shown_capacity() == last.charge_throughput + gained(
                start.charge_throughput,
                next.charge_throughput,
            )
            &&& later.shown_net_energy() == last.energy + next.energy - start.energy
        }),
{
}

/// A new session begins at nothing: right away it shows no time, no energy and
/// no capacity, and every later sample shows what passed since the newest sample
/// at its start, on a plot that begins there.
pub proof fn law_a_new_session_counts_from_its_start(
    core: SessionCore,
    ctx: Context,
    start: MeasurementSample,
    next: MeasurementSample,
)
    requires
        ctx.latest == Some(start),
        start.elapsed_us <= i64::MAX && next.elapsed_us <= i64::MAX,
        fits(next.energy_throughput - start.energy_throughput),
        fits(next.charge_throughput - start.charge_throughput),
        fits(next.energy - start.energy),
    ensures
        ({
            let begun = core.begun(ctx);
            let later = SessionCore { tallies: begun.tallies.counted(next), ..begun };
            &&& begun.session && !begun.paused && begun.phase == RecordingPhase::Recording
            &&& begun.shown_energy() == 0 && begun.shown_capacity() == 0
            &&& begun.shown_net_energy() == 0
            &&& begun.shown_duration(ctx.now_us, ctx.rate, false) == 0
            &&& later.shown_energy() == gained(start.energy_throughput, next.energy_throughput)
            &&& later.shown_capacity() == gained(start.charge_throughput, next.charge_throughput)
            &&& later.shown_net_energy() == next.energy - start.energy
            &&& begun.statistics == RecordingSessionStatistics::none()
            &&& begun.plotted(Some(start)) == Some(0i64)
            &&& next.elapsed_us >= start.elapsed_us ==> begun.plotted(Some(next)) == Some(
                (next.elapsed_us - start.elapsed_us) as i64,
            )
            &&& begun.plot_origin_index == Some(start.sample_index)
        }),
{
}

/// A recording that is over stays on display as it was: its time, its energy,
/// its capacity and its net energy, until another one begins.
pub proof fn law_a_finished_recording_stays_on_display(
    core: SessionCore,
    ctx: Context,
    writing: bool,
    later_us: u64,
)
    requires
        core.session,
    ensures
        ({
            let over = core.over(ctx, writing);
            &&& !over.session && !over.paused
            &&& over.shown_duration(later_us, ctx.rate, writing) == core.shown_duration(
                ctx.now_us,
                ctx.rate,
                writing,
            )
            &&& core.shown_energy() >= 0 ==> over.shown_energy() == core.shown_energy()
            &&& core.shown_capacity() >= 0 ==> over.shown_capacity() == core.shown_capacity()
            &&& over.shown_net_energy() == core.shown_net_energy()
        }),
{
}

/// A pause keeps what was recorded and stops the clock: from the pause on the
/// same time, energy, capacity and net energy are shown however long it lasts;
/// and when the session goes on they are still the same.
pub proof fn law_a_pause_keeps_what_is_shown(
    core: SessionCore,
    reason: PauseReason,
    ctx: Context,
    writing: bool,
    later: Context,
)
    requires
        core.session,
    ensures
        ({
            let paused = core.paused_for(reason, ctx, writing);
            let going = paused.resumed(later);
            &&& paused.paused && paused.pause_reason == Some(reason)
            &&& paused.shown_energy() == core.shown_energy()
            &&& paused.shown_capacity() == core.shown_capacity()
            &&& paused.shown_net_energy() == core.shown_net_energy()
            &&& paused.shown_duration(later.now_us, ctx.rate, writing) == core.shown_duration(
                ctx.now_us,
                ctx.rate,
                writing,
            )
            &&& going.shown_energy() == core.shown_energy()
            &&& going.shown_capacity() == core.shown_capacity()
            &&& going.shown_net_energy() == core.shown_net_energy()
            &&& going.shown_duration(later.now_us, ctx.rate, writing) == core.shown_duration(
                ctx.now_us,
                ctx.rate,
                writing,
            )
        }),
{
}

/// The clock of a session that is recorded runs with time, from where it stood:
/// freely while nothing is written, and no more than one sample period ahead of
/// the recorded samples once something is. While it is stopped it stands.
pub proof fn law_the_clock_runs_while_a_session_is_recorded(
    core: SessionCore,
    anchor: u64,
    now: u64,
    rate: SampleRateOption,
)
    requires
        core.session,
        anchor <= now,
        core.elapsed_before_us + (now - anchor) <= u64::MAX,
    ensures
        ({
            let period = match rate {
                SampleRateOption::Sps2 => 500_000int,
                SampleRateOption::Sps10 => 100_000int,
                SampleRateOption::Sps50 => 20_000int,
                SampleRateOption::Sps1000 => 1_000int,
            };
            let passed = now - anchor;
            &&& core.anchor_us == Some(anchor) ==> {
                &&& core.shown_duration(now, rate, false) == core.elapsed_before_us + passed
                &&& passed <= period ==> core.shown_duration(now, rate, true)
                    == core.elapsed_before_us + passed
                &&& passed >= period ==> core.shown_duration(now, rate, true)
                    == core.elapsed_before_us + period
            }
            &&& core.anchor_us is None ==> {
                &&& core.shown_duration(now, rate, false) == core.elapsed_before_us
                &&& core.shown_duration(now, rate, true) == core.elapsed_before_us
            }
        }),
{
    assert(1_000_000int / 2int == 500_000int);
    assert(1_000_000int / 10int == 100_000int);
    assert(1_000_000int / 50int == 20_000int);
    assert(1_000_000int / 1_000int == 1_000int);
}

/// When recorded samples arrive the clock is set to their time and goes on from
/// there; it is never set back.
pub proof fn law_recorded_samples_set_the_clock(
    core: SessionCore,
    elapsed_us: u64,
    now: u64,
    rate: SampleRateOption,
)
    requires
        core.session,
        !core.paused,
    ensures
        ({
            let after = core.synced(elapsed_us, now);
            &&& core.elapsed_before_us <= elapsed_us ==> after.shown_duration(now, rate, true)
                == elapsed_us
            &&& elapsed_us <= core.elapsed_before_us ==> after.shown_duration(now, rate, true)
                == core.elapsed_before_us
            &&& after.anchor_us == Some(now)
            &&& after.tallies == core.tallies
            &&& after.session && !after.paused
        }),
{
}

/// A session that was paused, or interrupted, goes on from what it showed: from
/// then on it shows that and what the counters gained since it went on, whatever
/// passed in between.
pub proof fn law_a_session_goes_on_from_what_it_showed(
    core: SessionCore,
    reason: PauseReason,
    ctx: Context,
    writing: bool,
    going: Context,
    start: MeasurementSample,
    next: MeasurementSample,
)
    requires
        core.session,
        going.latest == Some(start),
        fits(next.energy_throughput - start.energy_throughput),
        fits(next.charge_throughput - start.charge_throughput),
        fits(next.energy - start.energy),
        fits(
            core.shown_energy() + gained(start.energy_throughput, next.energy_throughput),
        ),
        fits(
            core.shown_capacity() + gained(start.charge_throughput, next.charge_throughput),
        ),
        fits(core.shown_net_energy() + next.energy - start.energy),
    ensures
        ({
            let paused = core.paused_for(reason, ctx, writing).resumed(going);
            let held = core.held(ctx, writing).resumed(going);
            let later = SessionCore { tallies: paused.tallies.counted(next), ..paused };
            let after = SessionCore { tallies: held.tallies.counted(next), ..held };
            &&& later.shown_energy() == core.shown_energy() + gained(
                start.energy_throughput,
                next.energy_throughput,
            )
            &&& later.shown_capacity() == core.shown_capacity() + gained(
                start.charge_throughput,
                next.charge_throughput,
            )
            &&& later.shown_net_energy() == core.shown_net_energy() + next.energy - start.energy
            &&& after.shown_energy() == later.shown_energy()
            &&& after.shown_capacity() == later.shown_capacity()
            &&& after.shown_net_energy() == later.shown_net_energy()
        }),
{
}

/// A pause is marked on the plot from the newest sample on, and the mark ends
/// when the session goes on. A session that is taken up is marked from its last
/// sample on, its plot begins at zero, and its statistics are those of all its
/// samples.
pub proof fn law_a_pause_is_marked_on_the_plot(
    core: SessionCore,
    reason: PauseReason,
    ctx: Context,
    writing: bool,
    latest: MeasurementSample,
    samples: Seq<MeasurementSample>,
    offsets: RecordingOffsets,
    next_segment_index: u32,
)
    requires
        ctx.latest == Some(latest),
        0 <= core.plot_origin_us <= latest.elapsed_us <= i64::MAX,
        samples.len() > 0,
        samples.last().elapsed_us <= i64::MAX,
    ensures
        core.paused_for(reason, ctx, writing).active_pause_us == Some(
            (latest.elapsed_us - core.plot_origin_us) as i64,
        ),
        core.held(ctx, writing).active_pause_us == Some(
            (latest.elapsed_us - core.plot_origin_us) as i64,
        ),
        core.paused_for(reason, ctx, writing).pause_reason == Some(reason),
        core.resumed(ctx).active_pause_us is None,
        core.resumed(ctx).pause_reason is None,
        ({
            let found = core.taken_up(samples.last(), offsets, samples, next_segment_index);
            &&& found.active_pause_us == Some(samples.last().elapsed_us as i64)
            &&& found.plot_origin_us == 0
            &&& found.plot_origin_index is None
            &&& found.statistics == RecordingSessionStatistics::none().with_all(samples)
            &&& found.continuation == offsets
            &&& found.segment_start == offsets
            &&& found.resume_offsets == Some(offsets)
            &&& found.next_segment_index == next_segment_index
        }),
{
}

/// A pause and a new session begin the automatic watch anew: no stretch that
/// began before counts towards the next pause or towards going on.
pub proof fn law_a_pause_begins_the_watch_anew(
    core: SessionCore,
    reason: PauseReason,
    ctx: Context,
    writing: bool,
)
    ensures
        core.paused_for(reason, ctx, writing).below_since_us is None,
        core.paused_for(reason, ctx, writing).above_since_us is None,
        core.begun(ctx).below_since_us is None,
        core.begun(ctx).above_since_us is None,
{
}

} // verus!
