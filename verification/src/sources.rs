//! What is shown, whichever source it comes from: the live data, a recording
//! of the device, or a file.
use vstd::prelude::*;
use vstd::string::*;

use crate::chart::{chart_time, charted, NavigatorSelection, PlotPoint};
use crate::lines::{
    is_next_to, is_screen_line, line, line_of_list, line_of_overview, list_scope_readings,
    nearest_listed, overview_line, readout_of, scope_readings, screen_line, Channel,
    OverviewRange, Quantity,
};
use crate::measurement::{MeasurementSample, PlotMetric};
use crate::navigator::{ChannelValues, CursorReadout};
use crate::options::{DisplayFilter, PlotSource};
use crate::session_text::{said, say};
use crate::statistics::{
    calculate_scope_statistics, PauseInterval, RecordingSessionStatistics, ScopeProgress,
    ScopeStatistics,
};
use crate::trace::{downsampled, min_max_downsample};
use crate::workbench::{Clock, Workbench, WorkbenchView};

verus! {

/// What a recording adds up to so far.
#[derive(Debug, Clone, Copy, PartialEq, Eq, Structural)]
pub struct AccumulatedReadout {
    pub cumulative_energy: i128,
    pub capacity: i128,
    pub net_energy: i128,
}

impl AccumulatedReadout {
    /// What the counters show at `sample`.
    pub open spec fn at(sample: MeasurementSample) -> AccumulatedReadout {
        AccumulatedReadout {
            cumulative_energy: sample.energy_throughput,
            capacity: sample.charge_throughput,
            net_energy: sample.energy,
        }
    }

    /// What the counters show at `sample`.
    pub fn of(sample: &MeasurementSample) -> (readout: AccumulatedReadout)
        ensures
            readout == AccumulatedReadout::at(*sample),
    {
        AccumulatedReadout {
            cumulative_energy: sample.energy_throughput,
            capacity: sample.charge_throughput,
            net_energy: sample.energy,
        }
    }
}

/// The voltages of the signal lines, in microvolts.
#[derive(Debug, Clone, Copy, PartialEq, Eq, Structural)]
pub struct SignalValues {
    pub dp_uv: i64,
    pub dm_uv: i64,
    pub cc1_uv: i64,
    pub cc2_uv: i64,
}

impl WorkbenchView {
    /// The samples of a recording that was loaded, of either kind.
    pub open spec fn loaded(self) -> Seq<MeasurementSample> {
        match self.chart.source {
            PlotSource::Live => Seq::empty(),
            PlotSource::Offline => match self.offline.recording {
                Some(recording) => recording.samples,
                None => Seq::empty(),
            },
            PlotSource::Imported => match self.shelf.recording {
                Some(recording) => recording.samples,
                None => Seq::empty(),
            },
        }
    }

    /// The samples that are shown in full.
    pub open spec fn shown_samples(self) -> Seq<MeasurementSample> {
        if self.chart.source == PlotSource::Live {
            self.live.points
        } else {
            self.loaded()
        }
    }

    /// The last sample that is shown.
    pub open spec fn last_sample(self) -> Option<MeasurementSample> {
        if self.shown_samples().len() > 0 {
            Some(self.shown_samples().last())
        } else {
            None
        }
    }

    /// The time at which the plot begins.
    pub open spec fn origin(self) -> i64 {
        if self.chart.source == PlotSource::Live {
            self.control.core.plot_origin_us
        } else {
            0
        }
    }

    /// The end of what is shown.
    pub open spec fn end(self) -> i64 {
        match self.last_sample() {
            Some(sample) => crate::chart::since(charted(sample.elapsed_us), self.origin()),
            None => 0,
        }
    }

    /// Whether the chart is shown: live data while a session is recorded, and
    /// a loaded recording that has samples.
    pub open spec fn shows_chart(self) -> bool {
        match self.chart.source {
            PlotSource::Live => self.control.core.session,
            _ => self.loaded().len() > 0,
        }
    }

    /// Whether `readout` is what the cursor shows at `time`.
    pub open spec fn cursor_shows(self, time: i64, readout: CursorReadout) -> bool {
        let target = on_plot(time);
        if self.chart.source == PlotSource::Live {
            self.live.cursor_shows(device_time(target, self.origin()), self.origin(), readout)
        } else {
            exists|index: int|
                #[trigger] is_next_to(self.loaded(), target, index) && readout == readout_of(
                    self.loaded()[index],
                    0,
                )
        }
    }

    /// The line of a channel in a range.
    pub open spec fn channel_line(
        self,
        channel: Channel,
        selection: NavigatorSelection,
    ) -> Seq<PlotPoint> {
        if self.chart.source == PlotSource::Live {
            self.live.channel_line(channel, selection, self.origin())
        } else {
            line(self.loaded(), Quantity::Shown(channel), selection, 0)
        }
    }

    /// The line of a quantity of the advanced analysis in a range. A stored
    /// recording does not hold the signal lines.
    pub open spec fn metric_line(
        self,
        metric: PlotMetric,
        selection: NavigatorSelection,
    ) -> Seq<PlotPoint> {
        if self.chart.source == PlotSource::Offline && metric.is_line() {
            Seq::empty()
        } else {
            line(self.shown_samples(), Quantity::Metric(metric), selection, self.origin())
        }
    }

    /// The line of a channel in the navigator.
    pub open spec fn navigator_line(self, channel: Channel) -> Seq<PlotPoint> {
        if self.chart.source == PlotSource::Live {
            overview_line(
                self.live.overview.points,
                channel,
                OverviewRange { origin_us: self.origin(), before_us: None, selection: None },
            )
        } else {
            line(
                self.loaded(),
                Quantity::Shown(channel),
                NavigatorSelection { start_us: 0, end_us: i64::MAX },
                0,
            )
        }
    }

    /// The statistics of everything that is shown.
    pub open spec fn full_scope(self, clock: Clock) -> ScopeStatistics {
        if self.chart.source == PlotSource::Live {
            ScopeStatistics {
                duration_us: self.control.core.shown_duration(
                    clock.now_us,
                    self.link.current_rate,
                    self.control.writing(),
                ),
                cumulative_energy: self.control.core.shown_energy(),
                capacity: self.control.core.shown_capacity(),
                points: match self.control.facts {
                    Some(facts) => facts.rows,
                    None => match self.control.recorder {
                        Some(recorder) => recorder.totals.rows,
                        None => 0,
                    },
                },
                approximate: false,
            }
        } else {
            ScopeProgress::over(
                scope_readings(self.loaded(), 0, None),
                NavigatorSelection { start_us: 0, end_us: self.end() },
                Seq::empty(),
            ).statistics
        }
    }

    /// The pauses of the session, and the one that it is in.
    pub open spec fn pauses(self) -> Seq<PauseInterval> {
        match self.control.core.active_pause_us {
            Some(start_us) => self.control.pauses.push(
                PauseInterval { start_us, end_us: self.end() },
            ),
            None => self.control.pauses,
        }
    }

    /// The statistics of a range.
    pub open spec fn window_scope(
        self,
        selection: NavigatorSelection,
        clock: Clock,
    ) -> ScopeStatistics {
        if self.chart.shows_everything(selection, self.end() as int) {
            self.full_scope(clock)
        } else if self.chart.source == PlotSource::Live {
            self.live.scope(
                selection,
                self.origin(),
                self.control.core.plot_origin_index,
                self.pauses(),
            )
        } else {
            ScopeProgress::over(
                scope_readings(self.loaded(), 0, None),
                selection,
                Seq::empty(),
            ).statistics
        }
    }

    /// The statistics of the three channels.
    pub open spec fn statistics(self) -> RecordingSessionStatistics {
        if self.chart.source == PlotSource::Live {
            self.control.core.statistics
        } else {
            RecordingSessionStatistics::none().with_all(self.loaded())
        }
    }
}

/// A time of the plot, which begins at zero.
pub open spec fn on_plot(time: i64) -> i64 {
    if time < 0 {
        0
    } else {
        time
    }
}

/// A time of the plot as a time of the device.
pub open spec fn device_time(time: i64, origin: i64) -> i64 {
    if time + origin > i64::MAX {
        i64::MAX
    } else {
        (time + origin) as i64
    }
}

/// A time of the plot as a time of the device.
fn absolute_time(time_us: i64, origin_us: i64) -> (device_us: i64)
    requires
        0 <= time_us,
        0 <= origin_us,
    ensures
        device_us == device_time(time_us, origin_us),
{
    if time_us > i64::MAX - origin_us {
        i64::MAX
    } else {
        time_us + origin_us
    }
}

/// Every sample lies in the range from zero to the end of time.
fn whole_axis() -> (selection: NavigatorSelection)
    ensures
        selection == (NavigatorSelection { start_us: 0, end_us: i64::MAX }),
{
    NavigatorSelection { start_us: 0, end_us: i64::MAX }
}

impl Workbench {
    /// The samples of a recording that was loaded and is shown, if there is one.
    pub(crate) fn loaded_samples(&self) -> (samples: Option<&Vec<MeasurementSample>>)
        ensures
            samples matches Some(samples) ==> samples@ == self@.loaded() && self@.chart.source
                != PlotSource::Live,
            samples is None ==> self@.loaded().len() == 0,
    {
        match self.chart.source {
            PlotSource::Live => None,
            PlotSource::Offline => match &self.offline.recording {
                Some(recording) => Some(&recording.samples),
                None => None,
            },
            PlotSource::Imported => match &self.shelf.recording {
                Some(recording) => Some(&recording.samples),
                None => None,
            },
        }
    }

    /// The last sample that is shown.
    fn last_shown_sample(&self) -> (sample: Option<MeasurementSample>)
        ensures
            sample == self@.last_sample(),
    {
        if self.chart.source == PlotSource::Live {
            return self.live.latest();
        }
        match self.loaded_samples() {
            Some(samples) => if samples.len() > 0 {
                Some(samples[samples.len() - 1])
            } else {
                None
            },
            None => None,
        }
    }

    /// The end of what is shown.
    pub fn source_end_time(&self) -> (end_us: i64)
        requires
            self@.well_formed(),
        ensures
            end_us == self@.end(),
            end_us >= 0,
    {
        if self.chart.source == PlotSource::Live {
            return self.live.end_time(self.control.core.plot_origin_us);
        }
        match self.last_shown_sample() {
            Some(sample) => chart_time(sample.elapsed_us),
            None => 0,
        }
    }

    /// How many samples are shown.
    pub fn source_sample_count(&self) -> (count: usize)
        ensures
            count == self@.shown_samples().len(),
    {
        if self.chart.source == PlotSource::Live {
            return self.live.points.len();
        }
        match self.loaded_samples() {
            Some(samples) => samples.len(),
            None => 0,
        }
    }

    /// How many samples the status bar counts: those that were received, or
    /// those that were loaded.
    pub fn counted_samples(&self) -> (count: u64)
        ensures
            self@.chart.source == PlotSource::Live ==> count == self@.live.total,
            self@.chart.source != PlotSource::Live ==> count == self@.loaded().len(),
    {
        if self.chart.source == PlotSource::Live {
            self.live.total_samples
        } else {
            self.source_sample_count() as u64
        }
    }

    /// Whether the chart is shown.
    pub fn monitor_chart_visible(&self) -> (visible: bool)
        ensures
            visible == self@.shows_chart(),
    {
        match self.chart.source {
            PlotSource::Live => self.control.core.session,
            _ => self.source_sample_count() > 0,
        }
    }

    /// Where the data come from.
    pub fn source_label(&self) -> (label: String)
        ensures
            label@ == source_text(self@),
    {
        let language = self.language;
        match self.chart.source {
            PlotSource::Live => language.pick("实时 AdcQueue", "Live AdcQueue").to_owned(),
            PlotSource::Offline => match &self.offline.recording {
                Some(recording) => say(
                    language.pick("设备记录", "On-device"),
                    " · ",
                    recording.filename.as_str(),
                ),
                None => language.pick("设备离线记录", "On-device recording").to_owned(),
            },
            PlotSource::Imported => match &self.shelf.recording {
                Some(recording) => match &recording.file_name {
                    Some(name) => say(language.pick("导入", "Imported"), " · ", name.as_str()),
                    None => language.pick("桌面录制", "Imported recording").to_owned(),
                },
                None => language.pick("桌面录制", "Imported recording").to_owned(),
            },
        }
    }

    /// What the cursor shows at `time_us` of the plot.
    pub fn cursor_readout_at(&self, time_us: i64) -> (readout: Option<CursorReadout>)
        requires
            self@.well_formed(),
        ensures
            readout matches Some(shown) ==> self@.cursor_shows(time_us, shown),
            readout is None && self@.chart.source != PlotSource::Live ==> self@.loaded().len() == 0,
            readout is None && self@.chart.source == PlotSource::Live
                ==> self@.live.cursor_misses(
                device_time(on_plot(time_us), self@.origin()),
                self@.origin(),
            ),
    {
        let target: i64 = if time_us < 0 {
            0
        } else {
            time_us
        };
        if self.chart.source == PlotSource::Live {
            let origin: i64 = self.control.core.plot_origin_us;
            return self.live.readout_at(absolute_time(target, origin), origin);
        }
        match self.loaded_samples() {
            Some(samples) => match nearest_listed(samples, target) {
                Some(index) => {
                    let sample = samples[index];
                    let readout = CursorReadout {
                        time_us: chart_time(sample.elapsed_us),
                        values: ChannelValues::of(&sample).fine(),
                        approximate: false,
                    };
                    assert(readout == readout_of(self@.loaded()[index as int], 0));
                    assert(is_next_to(self@.loaded(), on_plot(time_us), index as int));
                    Some(readout)
                },
                None => None,
            },
            None => None,
        }
    }

    /// What the counters of the source show.
    pub fn accumulated_readout(&self) -> (readout: Option<AccumulatedReadout>)
        ensures
            readout == (match self@.last_sample() {
                Some(sample) => Some(AccumulatedReadout::at(sample)),
                None => None,
            }),
    {
        match self.last_shown_sample() {
            Some(sample) => Some(AccumulatedReadout::of(&sample)),
            None => None,
        }
    }

    /// The large readouts: what is shown at the end, or the last live reading.
    pub fn displayed_current_readout(&self) -> (readout: CursorReadout)
        requires
            self@.well_formed(),
        ensures
            self@.cursor_shows(self@.end(), readout) || {
                &&& readout == (CursorReadout {
                    time_us: 0,
                    values: self@.live.reading.shown().fined(),
                    approximate: false,
                })
                &&& self@.chart.source != PlotSource::Live ==> self@.loaded().len() == 0
                &&& self@.chart.source == PlotSource::Live ==> self@.live.cursor_misses(
                    device_time(on_plot(self@.end()), self@.origin()),
                    self@.origin(),
                )
            },
    {
        match self.cursor_readout_at(self.source_end_time()) {
            Some(readout) => readout,
            None => CursorReadout {
                time_us: 0,
                values: self.live.reading.values().fine(),
                approximate: false,
            },
        }
    }

    /// Where the large readouts come from. After a disconnection the last
    /// numbers stay, and are named as such.
    pub fn instrument_readout_status(&self) -> (status: &'static str)
        ensures
            status@ == readout_status_text(self@),
    {
        let language = self.language;
        match self.chart.source {
            PlotSource::Imported => language.pick("文件", "File"),
            PlotSource::Offline => language.pick("离线", "Offline"),
            PlotSource::Live => if self.link.streaming {
                language.pick("实时", "Live")
            } else if self.live.total_samples > 0 || self.live.points.len() > 0
                || self.live.reading.voltage_uv != 0 || self.live.reading.current_ua != 0
                || self.live.reading.power_uw != 0 {
                language.pick("最后读数", "Last reading")
            } else {
                language.pick("等待设备", "Waiting")
            },
        }
    }

    /// The statistics of the three channels.
    pub fn source_statistics(&self) -> (statistics: RecordingSessionStatistics)
        ensures
            statistics == self@.statistics(),
    {
        if self.chart.source == PlotSource::Live {
            return self.control.core.statistics;
        }
        match self.loaded_samples() {
            Some(samples) => RecordingSessionStatistics::from_measurements(samples),
            None => RecordingSessionStatistics::default(),
        }
    }

    /// The voltages of the signal lines, which a stored recording lacks.
    pub fn source_signal_values(&self) -> (values: Option<SignalValues>)
        ensures
            values == (match self@.last_sample() {
                Some(sample) if self@.chart.source != PlotSource::Offline => Some(
                    SignalValues {
                        dp_uv: sample.dp_uv,
                        dm_uv: sample.dm_uv,
                        cc1_uv: sample.cc1_uv,
                        cc2_uv: sample.cc2_uv,
                    },
                ),
                _ => None,
            }),
    {
        if self.chart.source == PlotSource::Offline {
            return None;
        }
        match self.last_shown_sample() {
            Some(sample) => Some(
                SignalValues {
                    dp_uv: sample.dp_uv,
                    dm_uv: sample.dm_uv,
                    cc1_uv: sample.cc1_uv,
                    cc2_uv: sample.cc2_uv,
                },
            ),
            None => None,
        }
    }

    // -- Lines --

    /// The line of a channel in a range.
    pub fn channel_points(&self, channel: Channel, selection: NavigatorSelection) -> (points: Vec<
        PlotPoint,
    >)
        requires
            self@.well_formed(),
        ensures
            points@ == self@.channel_line(channel, selection),
    {
        if self.chart.source == PlotSource::Live {
            return self.live.channel_points(
                channel,
                selection,
                self.control.core.plot_origin_us,
            );
        }
        match self.loaded_samples() {
            Some(samples) => line_of_list(samples, Quantity::Shown(channel), selection),
            None => {
                assert(self@.loaded() =~= Seq::<MeasurementSample>::empty());
                Vec::new()
            },
        }
    }

    /// What is drawn of a channel in a range.
    pub fn source_vip_points(
        &self,
        channel: Channel,
        selection: NavigatorSelection,
        max_points: usize,
        filter: DisplayFilter,
    ) -> (points: Vec<PlotPoint>)
        requires
            self@.well_formed(),
        ensures
            is_screen_line(
                self@.channel_line(channel, selection),
                filter,
                max_points as int,
                points@,
            ),
            filter == DisplayFilter::Raw ==> points@ == downsampled(
                self@.channel_line(channel, selection),
                max_points as int,
            ),
    {
        screen_line(self.channel_points(channel, selection), filter, max_points)
    }

    /// What is drawn of a quantity of the advanced analysis in a range.
    pub fn source_metric_points(
        &self,
        metric: PlotMetric,
        selection: NavigatorSelection,
        max_points: usize,
    ) -> (points: Vec<PlotPoint>)
        requires
            self@.well_formed(),
        ensures
            points@ == downsampled(self@.metric_line(metric, selection), max_points as int),
    {
        let mut points: Vec<PlotPoint> = Vec::new();
        if self.chart.source == PlotSource::Live {
            crate::lines::add_live_line(
                &mut points,
                &self.live.points,
                Quantity::Metric(metric),
                selection,
                self.control.core.plot_origin_us,
            );
            assert(points@ =~= self@.metric_line(metric, selection));
        } else if self.chart.source != PlotSource::Offline || metric.supports_offline() {
            match self.loaded_samples() {
                Some(samples) => {
                    points = line_of_list(samples, Quantity::Metric(metric), selection);
                },
                None => {
                    assert(self@.loaded() =~= Seq::<MeasurementSample>::empty());
                },
            }
        }
        min_max_downsample(points, max_points)
    }

    /// What the navigator draws of a channel.
    pub fn navigator_vip_points(&self, channel: Channel, max_points: usize) -> (points: Vec<
        PlotPoint,
    >)
        requires
            self@.well_formed(),
        ensures
            points@ == downsampled(self@.navigator_line(channel), max_points as int),
    {
        let points = if self.chart.source == PlotSource::Live {
            line_of_overview(
                &self.live.history.points,
                channel,
                OverviewRange {
                    origin_us: self.control.core.plot_origin_us,
                    before_us: None,
                    selection: None,
                },
            )
        } else {
            match self.loaded_samples() {
                Some(samples) => line_of_list(samples, Quantity::Shown(channel), whole_axis()),
                None => {
                    assert(self@.loaded() =~= Seq::<MeasurementSample>::empty());
                    Vec::new()
                },
            }
        };
        min_max_downsample(points, max_points)
    }

    // -- What it amounts to --

    /// The statistics of everything that is shown.
    pub fn full_scope_statistics(&self, clock: Clock) -> (statistics: ScopeStatistics)
        requires
            self@.well_formed(),
        ensures
            statistics == self@.full_scope(clock),
    {
        if self.chart.source == PlotSource::Live {
            return ScopeStatistics {
                duration_us: self.control.core.displayed_recording_duration(
                    clock.now_us,
                    self.link.current_rate,
                    self.control.is_writing(),
                ),
                cumulative_energy: self.control.core.displayed_cumulative_energy(),
                capacity: self.control.core.displayed_recording_capacity(),
                points: match &self.control.metadata {
                    Some(metadata) => metadata.rows,
                    None => match &self.control.recorder {
                        Some(recorder) => recorder.totals().rows,
                        None => 0,
                    },
                },
                approximate: false,
            };
        }
        let selection = NavigatorSelection { start_us: 0, end_us: self.source_end_time() };
        self.loaded_scope(selection)
    }

    /// The statistics of a range of a loaded recording.
    fn loaded_scope(&self, selection: NavigatorSelection) -> (statistics: ScopeStatistics)
        ensures
            statistics == ScopeProgress::over(
                scope_readings(self@.loaded(), 0, None),
                selection,
                Seq::empty(),
            ).statistics,
    {
        let none: Vec<PauseInterval> = Vec::new();
        assert(none@ =~= Seq::<PauseInterval>::empty());
        match self.loaded_samples() {
            Some(samples) => calculate_scope_statistics(
                &list_scope_readings(samples),
                selection,
                &none,
            ),
            None => {
                assert(self@.loaded() =~= Seq::<MeasurementSample>::empty());
                ScopeStatistics::default()
            },
        }
    }

    /// The pauses of the session, and the one that it is in.
    fn all_pauses(&self) -> (pauses: Vec<PauseInterval>)
        requires
            self@.well_formed(),
        ensures
            pauses@ == self@.pauses(),
    {
        let mut pauses: Vec<PauseInterval> = Vec::new();
        let mut index: usize = 0;
        while index < self.control.pauses.len()
            invariant
                index <= self.control.pauses@.len(),
                pauses@ =~= self.control.pauses@.take(index as int),
            decreases self.control.pauses.len() - index,
        {
            pauses.push(self.control.pauses[index]);
            index += 1;
        }
        assert(pauses@ =~= self.control.pauses@);
        match self.control.core.active_pause_us {
            Some(start_us) => {
                let end_us: i64 = self.source_end_time();
                pauses.push(PauseInterval { start_us, end_us });
            },
            None => {},
        }
        pauses
    }

    /// The statistics of a range.
    pub fn window_scope_statistics(&self, selection: NavigatorSelection, clock: Clock) -> (statistics:
        ScopeStatistics)
        requires
            self@.well_formed(),
        ensures
            statistics == self@.window_scope(selection, clock),
    {
        if self.chart.is_everything(selection, self.source_end_time()) {
            return self.full_scope_statistics(clock);
        }
        if self.chart.source == PlotSource::Live {
            let pauses = self.all_pauses();
            return self.live.scope_statistics(
                selection,
                self.control.core.plot_origin_us,
                self.control.core.plot_origin_index,
                &pauses,
            );
        }
        self.loaded_scope(selection)
    }

    /// How long what is shown lasts.
    pub fn displayed_source_duration(&self, clock: Clock) -> (duration_us: u64)
        requires
            self@.well_formed(),
        ensures
            self@.chart.source == PlotSource::Live ==> duration_us
                == self@.control.core.shown_duration(
                clock.now_us,
                self@.link.current_rate,
                self@.control.writing(),
            ),
            self@.chart.source != PlotSource::Live ==> duration_us == self@.end(),
    {
        if self.chart.source == PlotSource::Live {
            self.control.core.displayed_recording_duration(
                clock.now_us,
                self.link.current_rate,
                self.control.is_writing(),
            )
        } else {
            self.source_end_time() as u64
        }
    }

    /// What the session totals show: the recording, or the counters of what was
    /// loaded.
    pub fn displayed_totals(&self) -> (totals: AccumulatedReadout)
        ensures
            totals == (if self@.chart.source == PlotSource::Live {
                AccumulatedReadout {
                    cumulative_energy: self@.control.core.shown_energy(),
                    capacity: self@.control.core.shown_capacity(),
                    net_energy: self@.control.core.shown_net_energy(),
                }
            } else {
                match self@.last_sample() {
                    Some(sample) => AccumulatedReadout::at(sample),
                    None => AccumulatedReadout {
                        cumulative_energy: 0,
                        capacity: 0,
                        net_energy: 0,
                    },
                }
            }),
    {
        if self.chart.source == PlotSource::Live {
            return AccumulatedReadout {
                cumulative_energy: self.control.core.displayed_cumulative_energy(),
                capacity: self.control.core.displayed_recording_capacity(),
                net_energy: self.control.core.displayed_recording_net_energy(),
            };
        }
        match self.accumulated_readout() {
            Some(totals) => totals,
            None => AccumulatedReadout { cumulative_energy: 0, capacity: 0, net_energy: 0 },
        }
    }

    /// Whether there are totals to show.
    pub fn totals_available(&self) -> (available: bool)
        ensures
            available == (match self@.chart.source {
                PlotSource::Live => self@.control.core.session
                    || self@.control.core.last.duration_us is Some,
                _ => self@.loaded().len() > 0,
            }),
    {
        match self.chart.source {
            PlotSource::Live => self.control.core.session
                || self.control.core.last.duration_us.is_some(),
            _ => self.source_sample_count() > 0,
        }
    }

    /// Settles the range that the chart shows in this frame.
    pub fn ensure_chart_selection(&mut self) -> (selection: NavigatorSelection)
        requires
            old(self)@.well_formed(),
        ensures
            final(self)@ == (WorkbenchView {
                chart: old(self)@.chart.framed(old(self)@.end() as int),
                ..old(self)@
            }),
            selection == old(self)@.chart.frame_selection(old(self)@.end() as int),
            0 <= selection.start_us < selection.end_us,
            final(self)@.well_formed(),
    {
        let end_us: i64 = self.source_end_time();
        self.chart.ensure_chart_selection(end_us)
    }
}

/// Where the data come from.
pub open spec fn source_text(view: WorkbenchView) -> Seq<char> {
    let language = view.language;
    match view.chart.source {
        PlotSource::Live => language.chosen("实时 AdcQueue"@, "Live AdcQueue"@),
        PlotSource::Offline => match view.offline.recording {
            Some(recording) => said(
                language.chosen("设备记录"@, "On-device"@),
                " · "@,
                recording.filename,
            ),
            None => language.chosen("设备离线记录"@, "On-device recording"@),
        },
        PlotSource::Imported => match view.shelf.recording {
            Some(recording) => match recording.file_name {
                Some(name) => said(language.chosen("导入"@, "Imported"@), " · "@, name),
                None => language.chosen("桌面录制"@, "Imported recording"@),
            },
            None => language.chosen("桌面录制"@, "Imported recording"@),
        },
    }
}

/// Where the large readouts come from.
pub open spec fn readout_status_text(view: WorkbenchView) -> Seq<char> {
    let language = view.language;
    match view.chart.source {
        PlotSource::Imported => language.chosen("文件"@, "File"@),
        PlotSource::Offline => language.chosen("离线"@, "Offline"@),
        PlotSource::Live => if view.link.streaming {
            language.chosen("实时"@, "Live"@)
        } else if view.live.total > 0 || view.live.points.len() > 0
            || view.live.reading.voltage_uv != 0 || view.live.reading.current_ua != 0
            || view.live.reading.power_uw != 0 {
            language.chosen("最后读数"@, "Last reading"@)
        } else {
            language.chosen("等待设备"@, "Waiting"@)
        },
    }
}

/// What is shown comes from the source that is looked at, and from no other: the
/// live data from where the session began, a recording from its start.
pub proof fn law_what_is_shown_comes_from_its_source(view: WorkbenchView)
    ensures
        view.chart.source == PlotSource::Live ==> {
            &&& view.shown_samples() == view.live.points
            &&& view.origin() == view.control.core.plot_origin_us
            &&& view.statistics() == view.control.core.statistics
            &&& view.shows_chart() <==> view.control.core.session
        },
        view.chart.source == PlotSource::Offline ==> {
            &&& view.origin() == 0
            &&& view.offline.recording matches Some(recording) ==> view.shown_samples()
                == recording.samples
            &&& view.offline.recording is None ==> view.shown_samples().len() == 0
            &&& view.shows_chart() <==> view.shown_samples().len() > 0
        },
        view.chart.source == PlotSource::Imported ==> {
            &&& view.origin() == 0
            &&& view.shelf.recording matches Some(recording) ==> view.shown_samples()
                == recording.samples
            &&& view.shelf.recording is None ==> view.shown_samples().len() == 0
            &&& view.shows_chart() <==> view.shown_samples().len() > 0
        },
        view.shown_samples().len() > 0 ==> view.last_sample() == Some(view.shown_samples().last()),
{
}

/// A time under the cursor is a time of the device and back again.
pub proof fn law_plot_times_are_device_times(time: i64, origin: i64)
    requires
        0 <= time,
        0 <= origin,
        time + origin <= i64::MAX,
    ensures
        device_time(time, origin) == time + origin,
        crate::chart::since(device_time(time, origin), origin) == time,
        on_plot(time) == time,
        time > 0 ==> on_plot((-time) as i64) == 0,
{
}

/// While a session is paused the pause that it is in counts up to the newest
/// sample, behind the pauses that are over.
pub proof fn law_an_open_pause_reaches_to_the_newest_sample(view: WorkbenchView, start: i64)
    ensures
        view.control.core.active_pause_us is None ==> view.pauses() == view.control.pauses,
        view.control.core.active_pause_us == Some(start) ==> {
            &&& view.pauses().len() == view.control.pauses.len() + 1
            &&& view.pauses().last().start_us == start
            &&& view.pauses().last().end_us == view.end()
            &&& view.pauses().drop_last() == view.control.pauses
        },
{
    if view.control.core.active_pause_us == Some(start) {
        assert(view.pauses().drop_last() =~= view.control.pauses);
    }
}

/// The statistics of everything that is recorded are what the session shows:
/// its time, its energy, its capacity and its rows; a range that reaches from
/// the start to the end shows the same.
pub proof fn law_the_whole_range_shows_the_session(
    view: WorkbenchView,
    selection: NavigatorSelection,
    clock: Clock,
)
    requires
        view.chart.source == PlotSource::Live,
    ensures
        ({
            let whole = view.full_scope(clock);
            &&& whole.cumulative_energy == view.control.core.shown_energy()
            &&& whole.capacity == view.control.core.shown_capacity()
            &&& whole.duration_us == view.control.core.shown_duration(
                clock.now_us,
                view.link.current_rate,
                view.control.recorder is Some,
            )
            &&& view.control.facts matches Some(facts) ==> whole.points == facts.rows
            &&& !whole.approximate
            &&& selection.start_us <= 0 && selection.end_us >= view.end() ==> view.window_scope(
                selection,
                clock,
            ) == whole
        }),
{
}

/// What the counters show of a sample: the energy and the capacity that passed
/// either way, and the energy that remained.
pub proof fn law_counters_are_read_by_their_names(sample: MeasurementSample)
    ensures
        AccumulatedReadout::at(sample).cumulative_energy == sample.energy_throughput,
        AccumulatedReadout::at(sample).capacity == sample.charge_throughput,
        AccumulatedReadout::at(sample).net_energy == sample.energy,
{
}

} // verus!
