//! The live samples: the newest in full, the whole session as an overview.
use std::collections::VecDeque;

use vstd::prelude::*;

use crate::chart::{
    chart_time, charted, display_time, since, NavigatorSelection, PlotPoint,
};
use crate::lines::{
    add_live_line, begins_early, is_next_to, line, line_of_overview, live_scope_readings,
    nearest_live, overview_line, readout_of, scope_readings, starts_before_kept, Channel,
    OverviewRange, Quantity,
};
use crate::measurement::{
    GraphSampleRate, MeasurementAccumulator, MeasurementSample, Progress, RawSample, MAX_SAMPLES,
};
use crate::navigator::{
    reading_size, size_of, ChannelValues, CursorReadout, NavigatorHistory, Overview,
    OVERVIEW_POINTS,
};
use crate::recording::{amount_sum, in_amount, in_counter, RecordingOffsets};
use crate::statistics::{
    calculate_scope_statistics, PauseInterval, ScopeProgress, ScopeStatistics,
};

verus! {

/// How many live samples are kept in full.
pub const LIVE_POINTS: usize = 100_000;

// -- Carrying on an earlier session --

/// `sample`, joined to the time line of an earlier session.
pub open spec fn joined(sample: MeasurementSample, offsets: RecordingOffsets) -> MeasurementSample {
    MeasurementSample {
        elapsed_us: in_counter(sample.elapsed_us + offsets.elapsed_us),
        sample_index: in_counter(sample.sample_index + offsets.sample_index),
        charge: in_amount(sample.charge + offsets.charge),
        energy: in_amount(sample.energy + offsets.energy),
        charge_throughput: in_amount(sample.charge_throughput + offsets.charge_throughput),
        energy_throughput: in_amount(sample.energy_throughput + offsets.energy_throughput),
        cumulative_missing_samples: in_counter(
            sample.cumulative_missing_samples + offsets.cumulative_missing_samples,
        ),
        cumulative_interpolated_duration_us: in_counter(
            sample.cumulative_interpolated_duration_us
                + offsets.cumulative_interpolated_duration_us,
        ),
        cumulative_discarded_sequence_samples: in_counter(
            sample.cumulative_discarded_sequence_samples
                + offsets.cumulative_discarded_sequence_samples,
        ),
        ..sample
    }
}

/// `sample`, joined to the time line of an earlier session if there is one.
pub open spec fn carried(
    sample: MeasurementSample,
    offsets: Option<RecordingOffsets>,
) -> MeasurementSample {
    match offsets {
        Some(offsets) => joined(sample, offsets),
        None => sample,
    }
}

/// `sample`, joined to the time line of an earlier session.
pub fn apply_recording_offsets(sample: MeasurementSample, offsets: RecordingOffsets) -> (result:
    MeasurementSample)
    ensures
        result == joined(sample, offsets),
{
    MeasurementSample {
        elapsed_us: sample.elapsed_us.saturating_add(offsets.elapsed_us),
        sample_index: sample.sample_index.saturating_add(offsets.sample_index),
        charge: amount_sum(sample.charge, offsets.charge),
        energy: amount_sum(sample.energy, offsets.energy),
        charge_throughput: amount_sum(sample.charge_throughput, offsets.charge_throughput),
        energy_throughput: amount_sum(sample.energy_throughput, offsets.energy_throughput),
        cumulative_missing_samples: sample.cumulative_missing_samples.saturating_add(
            offsets.cumulative_missing_samples,
        ),
        cumulative_interpolated_duration_us:
            sample.cumulative_interpolated_duration_us.saturating_add(
            offsets.cumulative_interpolated_duration_us,
        ),
        cumulative_discarded_sequence_samples:
            sample.cumulative_discarded_sequence_samples.saturating_add(
            offsets.cumulative_discarded_sequence_samples,
        ),
        ..sample
    }
}

// -- Measuring --

/// What was measured after `raw` samples.
pub open spec fn progress_after(
    progress: Progress,
    raw: Seq<RawSample>,
    rate: GraphSampleRate,
) -> Progress
    decreases raw.len(),
{
    if raw.len() == 0 {
        progress
    } else {
        progress_after(progress, raw.drop_last(), rate).after(raw.last(), rate)
    }
}

/// The measurements of `raw` samples: those in sequence, each joined to the
/// time line of an earlier session if there is one.
pub open spec fn measurements_of(
    progress: Progress,
    raw: Seq<RawSample>,
    rate: GraphSampleRate,
    offsets: Option<RecordingOffsets>,
) -> Seq<MeasurementSample>
    decreases raw.len(),
{
    if raw.len() == 0 {
        Seq::empty()
    } else {
        let before = measurements_of(progress, raw.drop_last(), rate, offsets);
        let reached = progress_after(progress, raw.drop_last(), rate);
        if reached.accepts(raw.last(), rate) {
            before.push(carried(reached.measurement(raw.last(), rate), offsets))
        } else {
            before
        }
    }
}

/// Two batches are measured as one.
pub proof fn lemma_measured_in_two(
    progress: Progress,
    first: Seq<RawSample>,
    second: Seq<RawSample>,
    rate: GraphSampleRate,
    offsets: Option<RecordingOffsets>,
)
    ensures
        progress_after(progress_after(progress, first, rate), second, rate) == progress_after(
            progress,
            first + second,
            rate,
        ),
        measurements_of(progress, first, rate, offsets) + measurements_of(
            progress_after(progress, first, rate),
            second,
            rate,
            offsets,
        ) == measurements_of(progress, first + second, rate, offsets),
    decreases second.len(),
{
    let all = first + second;
    if second.len() == 0 {
        assert(all =~= first);
    } else {
        lemma_measured_in_two(progress, first, second.drop_last(), rate, offsets);
        assert(all.drop_last() =~= first + second.drop_last());
        assert(all.last() == second.last());
    }
}

/// Measures `raw` samples and adds the measurements to those that wait.
pub fn measure(
    accumulator: &mut MeasurementAccumulator,
    raw: &Vec<RawSample>,
    rate: GraphSampleRate,
    offsets: Option<RecordingOffsets>,
    pending: &mut Vec<MeasurementSample>,
)
    requires
        old(accumulator)@.well_formed(),
        old(accumulator)@.samples + raw@.len() <= MAX_SAMPLES,
    ensures
        final(accumulator)@ == progress_after(old(accumulator)@, raw@, rate),
        final(accumulator)@.well_formed(),
        final(accumulator)@.samples <= old(accumulator)@.samples + raw@.len(),
        final(pending)@ == old(pending)@ + measurements_of(
            old(accumulator)@,
            raw@,
            rate,
            offsets,
        ),
{
    let ghost start = accumulator@;
    let ghost waiting = pending@;
    let mut index: usize = 0;
    assert(raw@.take(0) =~= Seq::<RawSample>::empty());
    assert(pending@ =~= waiting + Seq::<MeasurementSample>::empty());
    while index < raw.len()
        invariant
            index <= raw@.len(),
            start == old(accumulator)@,
            start.samples + raw@.len() <= MAX_SAMPLES,
            accumulator@.well_formed(),
            accumulator@.samples <= start.samples + index,
            accumulator@ == progress_after(start, raw@.take(index as int), rate),
            pending@ == waiting + measurements_of(start, raw@.take(index as int), rate, offsets),
        decreases raw.len() - index,
    {
        assert(raw@.take(index + 1).drop_last() =~= raw@.take(index as int));
        let ghost before = pending@;
        match accumulator.push(raw[index], rate) {
            Some(sample) => {
                let sample = match offsets {
                    Some(offsets) => apply_recording_offsets(sample, offsets),
                    None => sample,
                };
                pending.push(sample);
                assert(pending@ =~= waiting + measurements_of(
                    start,
                    raw@.take(index + 1),
                    rate,
                    offsets,
                ));
            },
            None => {},
        }
        index += 1;
    }
    assert(raw@.take(index as int) =~= raw@);
}

// -- The live data --

/// The newest `limit` of `samples`.
pub open spec fn newest(samples: Seq<MeasurementSample>, limit: int) -> Seq<MeasurementSample> {
    if samples.len() > limit {
        samples.skip(samples.len() - limit)
    } else {
        samples
    }
}

/// The last reading of each channel, with its sign.
#[derive(Debug, Clone, Copy, PartialEq, Eq, Structural)]
pub struct LiveReading {
    pub voltage_uv: i64,
    pub current_ua: i64,
    pub power_uw: i64,
}

impl LiveReading {
    /// Nothing was read.
    pub open spec fn none() -> LiveReading {
        LiveReading { voltage_uv: 0, current_ua: 0, power_uw: 0 }
    }

    /// What `sample` reads.
    pub open spec fn at(sample: MeasurementSample) -> LiveReading {
        LiveReading {
            voltage_uv: sample.vbus_uv,
            current_ua: sample.ibus_ua,
            power_uw: sample.power_uw,
        }
    }

    /// What `sample` reads.
    pub fn of(sample: &MeasurementSample) -> (reading: LiveReading)
        ensures
            reading == LiveReading::at(*sample),
    {
        LiveReading {
            voltage_uv: sample.vbus_uv,
            current_ua: sample.ibus_ua,
            power_uw: sample.power_uw,
        }
    }

    /// What a card shows of the reading.
    pub open spec fn shown(self) -> ChannelValues {
        ChannelValues {
            voltage: self.voltage_uv,
            current: size_of(self.current_ua),
            power: size_of(self.power_uw),
        }
    }

    /// What a card shows of the reading.
    pub fn values(self) -> (values: ChannelValues)
        ensures
            values == self.shown(),
    {
        ChannelValues {
            voltage: self.voltage_uv,
            current: reading_size(self.current_ua),
            power: reading_size(self.power_uw),
        }
    }
}

/// What is kept of the live samples.
#[verifier::ext_equal]
pub ghost struct LiveView {
    /// The newest samples.
    pub points: Seq<MeasurementSample>,
    pub overview: Overview,
    pub limit: int,
    pub total: u64,
    pub dropped: u64,
    pub discarded: u64,
    pub reading: LiveReading,
}

impl LiveView {
    /// Nothing is kept.
    pub open spec fn empty(limit: int, overview_limit: int) -> LiveView {
        LiveView {
            points: Seq::empty(),
            overview: Overview::empty(overview_limit),
            limit,
            total: 0,
            dropped: 0,
            discarded: 0,
            reading: LiveReading::none(),
        }
    }

    /// No more is kept than fits.
    pub open spec fn well_formed(self) -> bool {
        &&& self.overview.well_formed()
        &&& self.points.len() <= self.limit
    }

    /// The live data with `samples`.
    pub open spec fn appended(self, samples: Seq<MeasurementSample>) -> LiveView {
        LiveView {
            points: newest(self.points + samples, self.limit),
            overview: self.overview.pushed_all(samples),
            total: in_counter(self.total + samples.len()),
            dropped: if samples.len() > 0 {
                samples.last().cumulative_missing_samples
            } else {
                self.dropped
            },
            reading: if samples.len() > 0 {
                LiveReading::at(samples.last())
            } else {
                self.reading
            },
            ..self
        }
    }

    /// The live data of a session that was loaded.
    pub open spec fn restored(self, samples: Seq<MeasurementSample>) -> LiveView {
        LiveView {
            points: newest(samples, self.limit),
            overview: Overview::empty(self.overview.limit).pushed_all(samples),
            reading: if samples.len() > 0 {
                LiveReading::at(samples.last())
            } else {
                self.reading
            },
            ..self
        }
    }

    /// The overview begins anew, with the newest sample.
    pub open spec fn restarted(self) -> LiveView {
        let cleared = Overview::empty(self.overview.limit);
        LiveView {
            overview: if self.points.len() > 0 {
                cleared.pushed_all(seq![self.points.last()])
            } else {
                cleared
            },
            ..self
        }
    }

    /// The newest sample.
    pub open spec fn newest_sample(self) -> Option<MeasurementSample> {
        if self.points.len() > 0 {
            Some(self.points.last())
        } else {
            None
        }
    }

    /// The time from which on every sample is kept.
    pub open spec fn detailed_from(self) -> Option<i64> {
        if self.points.len() > 0 {
            Some(charted(self.points[0].elapsed_us))
        } else {
            None
        }
    }

    /// The end of the plot.
    pub open spec fn end(self, origin: i64) -> i64 {
        match self.newest_sample() {
            Some(sample) => since(charted(sample.elapsed_us), origin),
            None => 0,
        }
    }

    /// What is drawn of a channel: the overview as long as the samples are no
    /// longer kept, and the samples from there on.
    pub open spec fn channel_line(
        self,
        channel: Channel,
        selection: NavigatorSelection,
        origin: i64,
    ) -> Seq<PlotPoint> {
        overview_line(
            self.overview.points,
            channel,
            OverviewRange {
                origin_us: origin,
                before_us: self.detailed_from(),
                selection: Some(selection),
            },
        ) + line(self.points, Quantity::Shown(channel), selection, origin)
    }

    /// Whether the cursor reads the overview at `target`, a time of the device.
    pub open spec fn reads_overview(self, target: i64) -> bool {
        match self.detailed_from() {
            Some(start) => target < start,
            None => true,
        }
    }

    /// Whether `readout` is what the cursor shows at `target`, a time of the
    /// device, on a plot that begins at `origin`.
    pub open spec fn cursor_shows(self, target: i64, origin: i64, readout: CursorReadout) -> bool {
        if self.reads_overview(target) {
            exists|shown: CursorReadout|
                #[trigger] self.overview.shown_at(target, shown) && shown.time_us >= origin
                    && readout == (CursorReadout {
                    time_us: since(shown.time_us, origin),
                    ..shown
                })
        } else {
            exists|index: int|
                #[trigger] is_next_to(self.points, target, index) && charted(
                    self.points[index].elapsed_us,
                ) >= origin && readout == readout_of(self.points[index], origin)
        }
    }

    /// Whether what lies next to `target` lies before the plot.
    pub open spec fn cursor_misses(self, target: i64, origin: i64) -> bool {
        if self.reads_overview(target) {
            self.overview.points.len() == 0 || exists|shown: CursorReadout|
                #[trigger] self.overview.shown_at(target, shown) && shown.time_us < origin
        } else {
            exists|index: int|
                #[trigger] is_next_to(self.points, target, index) && charted(
                    self.points[index].elapsed_us,
                ) < origin
        }
    }

    /// The statistics of a range of the plot.
    pub open spec fn scope(
        self,
        selection: NavigatorSelection,
        origin: i64,
        skipped: Option<u64>,
        excluded: Seq<PauseInterval>,
    ) -> ScopeStatistics {
        ScopeStatistics {
            approximate: begins_early(self.points, origin, skipped, selection.start_us),
            ..ScopeProgress::over(
                scope_readings(self.points, origin, skipped),
                selection,
                excluded,
            ).statistics
        }
    }
}

/// The live samples: the newest in full, the whole session as an overview.
#[derive(Debug)]
pub struct LiveData {
    pub points: VecDeque<MeasurementSample>,
    pub history: NavigatorHistory,
    pub max_points: usize,
    pub total_samples: u64,
    pub dropped_samples: u64,
    pub discarded_sequence_samples: u64,
    pub reading: LiveReading,
}

impl View for LiveData {
    type V = LiveView;

    open spec fn view(&self) -> LiveView {
        LiveView {
            points: self.points@,
            overview: self.history@,
            limit: self.max_points as int,
            total: self.total_samples,
            dropped: self.dropped_samples,
            discarded: self.discarded_sequence_samples,
            reading: self.reading,
        }
    }
}

/// Keeping the newest of one more.
proof fn lemma_newest_push(
    samples: Seq<MeasurementSample>,
    sample: MeasurementSample,
    limit: int,
)
    requires
        0 <= limit,
    ensures
        newest(newest(samples, limit).push(sample), limit) == newest(samples.push(sample), limit),
{
    assert(newest(newest(samples, limit).push(sample), limit) =~= newest(
        samples.push(sample),
        limit,
    ));
}

/// Adding to an overview in two goes.
proof fn lemma_pushed_all_concat(
    overview: Overview,
    first: Seq<MeasurementSample>,
    second: Seq<MeasurementSample>,
)
    ensures
        overview.pushed_all(first + second) == overview.pushed_all(first).pushed_all(second),
    decreases second.len(),
{
    if second.len() == 0 {
        assert(first + second =~= first);
    } else {
        assert((first + second).drop_last() =~= first + second.drop_last());
        lemma_pushed_all_concat(overview, first, second.drop_last());
    }
}

impl LiveData {
    /// Nothing was received.
    pub fn new() -> (live: LiveData)
        ensures
            live@ == LiveView::empty(LIVE_POINTS as int, OVERVIEW_POINTS as int),
            live@.well_formed(),
    {
        LiveData {
            points: VecDeque::new(),
            history: NavigatorHistory::default(),
            max_points: LIVE_POINTS,
            total_samples: 0,
            dropped_samples: 0,
            discarded_sequence_samples: 0,
            reading: LiveReading { voltage_uv: 0, current_ua: 0, power_uw: 0 },
        }
    }

    /// Keeps one more sample in full, and the oldest no longer where there are
    /// too many.
    fn keep(&mut self, sample: MeasurementSample)
        requires
            old(self)@.well_formed(),
        ensures
            *final(self) == (LiveData { points: final(self).points, ..*old(self) }),
            final(self)@.points == newest(old(self)@.points.push(sample), old(self)@.limit),
    {
        self.points.push_back(sample);
        if self.points.len() > self.max_points {
            self.points.pop_front();
        }
        assert(self@.points =~= newest(old(self)@.points.push(sample), old(self)@.limit));
    }

    /// Takes measurements.
    pub fn append(&mut self, samples: &Vec<MeasurementSample>)
        requires
            old(self)@.well_formed(),
        ensures
            final(self)@ == old(self)@.appended(samples@),
            final(self)@.well_formed(),
    {
        let ghost before = self@;
        let mut index: usize = 0;
        assert(samples@.take(0) =~= Seq::<MeasurementSample>::empty());
        assert(newest(before.points + samples@.take(0), before.limit) =~= before.points);
        while index < samples.len()
            invariant
                index <= samples@.len(),
                before.well_formed(),
                self@.well_formed(),
                self@ == before.appended(samples@.take(index as int)),
            decreases samples.len() - index,
        {
            let sample = samples[index];
            self.history.push(&sample);
            proof {
                assert(samples@.take(index + 1).drop_last() =~= samples@.take(index as int));
                lemma_newest_push(
                    before.points + samples@.take(index as int),
                    sample,
                    before.limit,
                );
                assert((before.points + samples@.take(index as int)).push(sample) =~= before.points
                    + samples@.take(index + 1));
            }
            self.keep(sample);
            self.dropped_samples = sample.cumulative_missing_samples;
            self.reading = LiveReading::of(&sample);
            self.total_samples = self.total_samples.saturating_add(1);
            index += 1;
            assert(self@ =~= before.appended(samples@.take(index as int)));
        }
        assert(samples@.take(index as int) =~= samples@);
    }

    /// Takes the samples of a session that was loaded.
    pub fn restore(&mut self, samples: &Vec<MeasurementSample>)
        requires
            old(self)@.well_formed(),
        ensures
            final(self)@ == old(self)@.restored(samples@),
            final(self)@.well_formed(),
    {
        let ghost before = self@;
        self.points.clear();
        self.history.clear();
        let mut index: usize = 0;
        assert(samples@.take(0) =~= Seq::<MeasurementSample>::empty());
        assert(newest(samples@.take(0), before.limit) =~= Seq::<MeasurementSample>::empty());
        while index < samples.len()
            invariant
                index <= samples@.len(),
                before.well_formed(),
                self@.well_formed(),
                self@ == before.restored(samples@.take(index as int)),
            decreases samples.len() - index,
        {
            let sample = samples[index];
            self.history.push(&sample);
            proof {
                assert(samples@.take(index + 1).drop_last() =~= samples@.take(index as int));
                lemma_newest_push(samples@.take(index as int), sample, before.limit);
                assert(samples@.take(index as int).push(sample) =~= samples@.take(index + 1));
            }
            self.keep(sample);
            self.reading = LiveReading::of(&sample);
            index += 1;
            assert(self@ =~= before.restored(samples@.take(index as int)));
        }
        assert(samples@.take(index as int) =~= samples@);
    }

    /// Begins the overview anew, with the newest sample.
    pub fn restart(&mut self)
        requires
            old(self)@.well_formed(),
        ensures
            final(self)@ == old(self)@.restarted(),
            final(self)@.well_formed(),
    {
        let latest = self.latest();
        self.history.clear();
        match latest {
            Some(sample) => {
                let ghost cleared = self.history@;
                self.history.push(&sample);
                proof {
                    let one = seq![sample];
                    assert(one.drop_last() =~= Seq::<MeasurementSample>::empty());
                    assert(cleared.pushed_all(one.drop_last()) == cleared);
                    assert(one.last() == sample);
                }
            },
            None => {},
        }
    }

    /// Forgets everything that was received, but not what is being read.
    pub fn clear(&mut self)
        requires
            old(self)@.well_formed(),
        ensures
            final(self)@ == (LiveView {
                reading: old(self)@.reading,
                ..LiveView::empty(old(self)@.limit, old(self)@.overview.limit)
            }),
            final(self)@.well_formed(),
    {
        self.points.clear();
        self.history.clear();
        self.total_samples = 0;
        self.dropped_samples = 0;
        self.discarded_sequence_samples = 0;
    }

    /// The newest sample.
    pub fn latest(&self) -> (sample: Option<MeasurementSample>)
        ensures
            sample == self@.newest_sample(),
    {
        if self.points.len() > 0 {
            Some(self.points[self.points.len() - 1])
        } else {
            None
        }
    }

    /// The time from which on every sample is kept.
    fn detailed_start(&self) -> (start_us: Option<i64>)
        ensures
            start_us == self@.detailed_from(),
    {
        if self.points.len() > 0 {
            Some(chart_time(self.points[0].elapsed_us))
        } else {
            None
        }
    }

    /// The end of the plot.
    pub fn end_time(&self, origin_us: i64) -> (end_us: i64)
        requires
            0 <= origin_us,
        ensures
            end_us == self@.end(origin_us),
            end_us >= 0,
    {
        match self.latest() {
            Some(sample) => display_time(chart_time(sample.elapsed_us), origin_us),
            None => 0,
        }
    }

    /// What the cursor shows at `target_us`, a time of the device.
    pub fn readout_at(&self, target_us: i64, origin_us: i64) -> (readout: Option<CursorReadout>)
        requires
            0 <= origin_us,
        ensures
            readout matches Some(shown) ==> self@.cursor_shows(target_us, origin_us, shown),
            readout is None ==> self@.cursor_misses(target_us, origin_us),
    {
        let early: bool = match self.detailed_start() {
            Some(start) => target_us < start,
            None => true,
        };
        if early {
            match self.history.readout_at(target_us) {
                Some(shown) => if shown.time_us >= origin_us {
                    Some(
                        CursorReadout {
                            time_us: display_time(shown.time_us, origin_us),
                            values: shown.values,
                            approximate: shown.approximate,
                        },
                    )
                } else {
                    None
                },
                None => None,
            }
        } else {
            let index = nearest_live(&self.points, target_us);
            match index {
                Some(index) => {
                    assert(is_next_to(self@.points, target_us, index as int));
                    let sample = self.points[index];
                    let time_us: i64 = chart_time(sample.elapsed_us);
                    if time_us >= origin_us {
                        Some(
                            CursorReadout {
                                time_us: display_time(time_us, origin_us),
                                values: ChannelValues::of(&sample).fine(),
                                approximate: false,
                            },
                        )
                    } else {
                        None
                    }
                },
                None => None,
            }
        }
    }

    /// What is drawn of a channel.
    pub fn channel_points(
        &self,
        channel: Channel,
        selection: NavigatorSelection,
        origin_us: i64,
    ) -> (points: Vec<PlotPoint>)
        requires
            0 <= origin_us,
        ensures
            points@ == self@.channel_line(channel, selection, origin_us),
    {
        let range = OverviewRange {
            origin_us,
            before_us: self.detailed_start(),
            selection: Some(selection),
        };
        let mut points = line_of_overview(&self.history.points, channel, range);
        add_live_line(&mut points, &self.points, Quantity::Shown(channel), selection, origin_us);
        points
    }

    /// The statistics of a range of the plot.
    pub fn scope_statistics(
        &self,
        selection: NavigatorSelection,
        origin_us: i64,
        skipped: Option<u64>,
        excluded: &Vec<PauseInterval>,
    ) -> (statistics: ScopeStatistics)
        requires
            0 <= origin_us,
        ensures
            statistics == self@.scope(selection, origin_us, skipped, excluded@),
    {
        let readings = live_scope_readings(&self.points, origin_us, skipped);
        let mut statistics = calculate_scope_statistics(&readings, selection, excluded);
        statistics.approximate = starts_before_kept(
            &self.points,
            origin_us,
            skipped,
            selection.start_us,
        );
        statistics
    }
}

/// It does not matter in how many goes measurements arrive: taking them
/// together leaves what taking them one batch after the other leaves.
pub proof fn law_batches_join(
    live: LiveView,
    first: Seq<MeasurementSample>,
    second: Seq<MeasurementSample>,
)
    requires
        live.well_formed(),
    ensures
        live.appended(first).appended(second) == live.appended(first + second),
{
    lemma_pushed_all_concat(live.overview, first, second);
    assert(newest(newest(live.points + first, live.limit) + second, live.limit) =~= newest(
        live.points + (first + second),
        live.limit,
    ));
    if second.len() > 0 {
        assert((first + second).last() == second.last());
    } else {
        assert(first + second =~= first);
    }
}

/// However many samples arrive, no more than the limit are kept in full, they
/// are the newest ones, and the newest of all is the one that is read.
pub proof fn law_newest_samples_are_kept(live: LiveView, samples: Seq<MeasurementSample>)
    requires
        live.well_formed(),
        live.limit > 0,
        samples.len() > 0,
    ensures
        ({
            let after = live.appended(samples);
            let received = live.points + samples;
            &&& after.points.len() <= live.limit
            &&& after.points.len() == live.limit || after.points == received
            &&& forall|i: int|
                0 <= i < after.points.len() ==> #[trigger] after.points[i] == received[received.len()
                    - after.points.len() + i]
            &&& after.newest_sample() == Some(samples.last())
            &&& after.reading == LiveReading::at(samples.last())
        }),
{
}

/// A sample of a session that goes on continues the earlier one: its time, its
/// place, its counts and its amounts are added to what came before, and its
/// readings are not touched.
pub proof fn law_a_session_that_goes_on_adds_to_the_earlier_one(
    sample: MeasurementSample,
    offsets: RecordingOffsets,
)
    requires
        sample.elapsed_us + offsets.elapsed_us <= u64::MAX,
        sample.sample_index + offsets.sample_index <= u64::MAX,
        sample.cumulative_missing_samples + offsets.cumulative_missing_samples <= u64::MAX,
        sample.cumulative_interpolated_duration_us + offsets.cumulative_interpolated_duration_us
            <= u64::MAX,
        sample.cumulative_discarded_sequence_samples + offsets.cumulative_discarded_sequence_samples
            <= u64::MAX,
        i128::MIN <= sample.charge + offsets.charge <= i128::MAX,
        i128::MIN <= sample.energy + offsets.energy <= i128::MAX,
        i128::MIN <= sample.charge_throughput + offsets.charge_throughput <= i128::MAX,
        i128::MIN <= sample.energy_throughput + offsets.energy_throughput <= i128::MAX,
    ensures
        ({
            let result = joined(sample, offsets);
            &&& result.elapsed_us == sample.elapsed_us + offsets.elapsed_us
            &&& result.sample_index == sample.sample_index + offsets.sample_index
            &&& result.charge == sample.charge + offsets.charge
            &&& result.energy == sample.energy + offsets.energy
            &&& result.charge_throughput == sample.charge_throughput + offsets.charge_throughput
            &&& result.energy_throughput == sample.energy_throughput + offsets.energy_throughput
            &&& result.cumulative_missing_samples == sample.cumulative_missing_samples
                + offsets.cumulative_missing_samples
            &&& result.cumulative_interpolated_duration_us
                == sample.cumulative_interpolated_duration_us
                + offsets.cumulative_interpolated_duration_us
            &&& result.cumulative_discarded_sequence_samples
                == sample.cumulative_discarded_sequence_samples
                + offsets.cumulative_discarded_sequence_samples
            &&& result.vbus_uv == sample.vbus_uv
            &&& result.ibus_ua == sample.ibus_ua
            &&& result.power_uw == sample.power_uw
            &&& result.cc1_uv == sample.cc1_uv
            &&& result.cc2_uv == sample.cc2_uv
            &&& result.dp_uv == sample.dp_uv
            &&& result.dm_uv == sample.dm_uv
            &&& result.sequence == sample.sequence
            &&& result.marker == sample.marker
            &&& result.sample_rate_hz == sample.sample_rate_hz
            &&& result.missing_samples == sample.missing_samples
            &&& result.gap_duration_us == sample.gap_duration_us
            &&& result.interpolated == sample.interpolated
        }),
{
}

/// Going on with an earlier session changes no measurement but by what came
/// before: the same samples are accepted, and each is joined to the earlier
/// time line.
pub proof fn law_offsets_do_not_change_what_is_measured(
    progress: Progress,
    raw: Seq<RawSample>,
    rate: GraphSampleRate,
    offsets: RecordingOffsets,
)
    ensures
        ({
            let plain = measurements_of(progress, raw, rate, None);
            let moved = measurements_of(progress, raw, rate, Some(offsets));
            &&& plain.len() == moved.len() <= raw.len()
            &&& forall|i: int|
                0 <= i < plain.len() ==> #[trigger] moved[i] == joined(plain[i], offsets)
        }),
    decreases raw.len(),
{
    if raw.len() > 0 {
        law_offsets_do_not_change_what_is_measured(progress, raw.drop_last(), rate, offsets);
    }
}

/// What is read is the newest sample, with its signs; every sample that
/// arrives is counted, and what is missing is what the newest sample says.
pub proof fn law_the_newest_sample_is_read_and_every_sample_counted(
    live: LiveView,
    samples: Seq<MeasurementSample>,
)
    requires
        samples.len() > 0,
        live.total + samples.len() <= u64::MAX,
    ensures
        ({
            let after = live.appended(samples);
            let last = samples[samples.len() - 1];
            &&& after.reading.voltage_uv == last.vbus_uv
            &&& after.reading.current_ua == last.ibus_ua
            &&& after.reading.power_uw == last.power_uw
            &&& after.total == live.total + samples.len()
            &&& after.dropped == last.cumulative_missing_samples
            &&& after.discarded == live.discarded
            &&& after.limit == live.limit
        }),
{
}

/// A card shows the voltage with its sign, and how large the current and the
/// power are.
pub proof fn law_a_card_shows_sizes(reading: LiveReading)
    requires
        reading.current_ua > i64::MIN,
        reading.power_uw > i64::MIN,
    ensures
        reading.shown().voltage == reading.voltage_uv,
        reading.shown().current >= 0,
        reading.shown().current == reading.current_ua || reading.shown().current
            == -reading.current_ua,
        reading.shown().power >= 0,
        reading.shown().power == reading.power_uw || reading.shown().power == -reading.power_uw,
{
}

/// A session that is loaded replaces what was kept: the newest of its samples
/// are kept in full, its overview is that of all of them and of nothing else,
/// and its last sample is read.
pub proof fn law_a_loaded_session_replaces_what_was_kept(
    live: LiveView,
    samples: Seq<MeasurementSample>,
)
    requires
        live.well_formed(),
        live.limit > 0,
        samples.len() > 0,
    ensures
        ({
            let after = live.restored(samples);
            let fresh = LiveView::empty(live.limit, live.overview.limit).appended(samples);
            &&& after.points == fresh.points
            &&& after.overview == fresh.overview
            &&& after.reading == fresh.reading
            &&& after.points.len() <= live.limit
            &&& after.points.len() == live.limit || after.points == samples
            &&& forall|i: int|
                0 <= i < after.points.len() ==> #[trigger] after.points[i] == samples[samples.len()
                    - after.points.len() + i]
            &&& after.total == live.total
        }),
{
    assert(Seq::<MeasurementSample>::empty() + samples =~= samples);
}

/// When a recording starts, the overview holds the newest sample and nothing
/// older; the samples that are kept in full stay.
pub proof fn law_a_new_recording_begins_with_the_newest_sample(live: LiveView)
    requires
        live.well_formed(),
        live.points.len() > 0,
    ensures
        ({
            let after = live.restarted();
            &&& after.points == live.points
            &&& after.reading == live.reading
            &&& after.total == live.total
            &&& after.overview.points.len() == 1
            &&& after.overview.points[0].time_us == charted(live.points.last().elapsed_us)
            &&& after.overview.points[0].minimums.voltage == live.points.last().vbus_uv
            &&& after.overview.points[0].maximums.voltage == live.points.last().vbus_uv
            &&& after.overview.points[0].values.voltage == live.points.last().vbus_uv
                * 1_000_000_000
        }),
{
    let cleared = Overview::empty(live.overview.limit);
    let one = seq![live.points.last()];
    assert(one.drop_last() =~= Seq::<MeasurementSample>::empty());
    assert(cleared.pushed_all(one.drop_last()) == cleared);
    assert(one.last() == live.points.last());
}

/// A channel is drawn from the overview up to the first sample that is kept in
/// full and from the samples from there on: no time is drawn twice.
pub proof fn law_overview_and_samples_do_not_overlap(
    live: LiveView,
    channel: Channel,
    selection: NavigatorSelection,
    origin: i64,
    point: crate::navigator::NavigatorOverviewPoint,
)
    requires
        live.points.len() > 0,
        live.points[0].elapsed_us <= i64::MAX,
    ensures
        live.points[0].elapsed_us <= point.time_us ==> overview_line(
            seq![point],
            channel,
            OverviewRange {
                origin_us: origin,
                before_us: live.detailed_from(),
                selection: Some(selection),
            },
        ).len() == 0,
        live.channel_line(channel, selection, origin) == overview_line(
            live.overview.points,
            channel,
            OverviewRange {
                origin_us: origin,
                before_us: Some(live.points[0].elapsed_us as i64),
                selection: Some(selection),
            },
        ) + line(live.points, Quantity::Shown(channel), selection, origin),
{
    let one = seq![point];
    assert(one.last() == point);
    assert(one.drop_last() =~= Seq::<crate::navigator::NavigatorOverviewPoint>::empty());
    let range = OverviewRange {
        origin_us: origin,
        before_us: live.detailed_from(),
        selection: Some(selection),
    };
    assert(overview_line(one.drop_last(), channel, range) =~= Seq::<PlotPoint>::empty());
}

} // verus!
