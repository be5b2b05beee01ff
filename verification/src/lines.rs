//! Lines of a plot, made of samples, and what a range of samples amounts to.
use std::collections::VecDeque;

use vstd::prelude::*;

use crate::chart::{
    chart_time, charted, display_time, in_order, is_nearest, larger, nearest_time_index, reports,
    since, smaller, NavigatorSelection, PlotPoint,
};
use crate::measurement::{MeasurementSample, PlotMetric};
use crate::navigator::{
    channels_of, ChannelValues, CursorReadout, FineValues, NavigatorOverviewPoint,
};
use crate::options::DisplayFilter;
use crate::presentation::{axis_ceiling, AxisScale, MAX_READING};
use crate::statistics::ScopeReading;
use crate::trace::{apply_display_filter, downsampled, is_filtered, min_max_downsample};

verus! {

/// A channel of the monitor.
#[derive(Debug, Clone, Copy, PartialEq, Eq, Structural)]
pub enum Channel {
    Voltage,
    Current,
    Power,
}

impl Channel {
    /// The value of the channel.
    pub open spec fn of(self, values: FineValues) -> i128 {
        match self {
            Channel::Voltage => values.voltage,
            Channel::Current => values.current,
            Channel::Power => values.power,
        }
    }

    /// The value of the channel.
    pub fn value(self, values: FineValues) -> (value: i128)
        ensures
            value == self.of(values),
    {
        match self {
            Channel::Voltage => values.voltage,
            Channel::Current => values.current,
            Channel::Power => values.power,
        }
    }
}

/// What is drawn of a sample.
#[derive(Debug, Clone, Copy, PartialEq, Eq, Structural)]
pub enum Quantity {
    /// What the monitor shows of a channel.
    Shown(Channel),
    /// A quantity of the advanced analysis.
    Metric(PlotMetric),
}

impl Quantity {
    /// The value that is drawn of `sample`.
    pub open spec fn reading(self, sample: MeasurementSample) -> i128 {
        match self {
            Quantity::Shown(channel) => channel.of(channels_of(sample).fined()),
            Quantity::Metric(metric) => metric.reading(sample) as i128,
        }
    }

    /// The value that is drawn of `sample`.
    pub fn value(self, sample: &MeasurementSample) -> (value: i128)
        ensures
            value == self.reading(*sample),
    {
        match self {
            Quantity::Shown(channel) => channel.value(ChannelValues::of(sample).fine()),
            Quantity::Metric(metric) => metric.value(sample),
        }
    }
}

/// Whether `sample` is drawn on a plot that begins at `origin`.
pub open spec fn is_drawn(
    sample: MeasurementSample,
    selection: NavigatorSelection,
    origin: i64,
) -> bool {
    let time = charted(sample.elapsed_us);
    time >= origin && selection.shows(since(time, origin) as int)
}

/// The point of `sample` on a plot that begins at `origin`.
pub open spec fn point_of(
    sample: MeasurementSample,
    quantity: Quantity,
    origin: i64,
) -> PlotPoint {
    PlotPoint {
        time_us: since(charted(sample.elapsed_us), origin),
        value: quantity.reading(sample),
    }
}

/// The line of `samples` in a range of a plot that begins at `origin`.
pub open spec fn line(
    samples: Seq<MeasurementSample>,
    quantity: Quantity,
    selection: NavigatorSelection,
    origin: i64,
) -> Seq<PlotPoint>
    decreases samples.len(),
{
    if samples.len() == 0 {
        Seq::empty()
    } else {
        let before = line(samples.drop_last(), quantity, selection, origin);
        if is_drawn(samples.last(), selection, origin) {
            before.push(point_of(samples.last(), quantity, origin))
        } else {
            before
        }
    }
}

/// Adds what is drawn of `sample` to a line.
fn add_sample(
    points: &mut Vec<PlotPoint>,
    sample: &MeasurementSample,
    quantity: Quantity,
    selection: NavigatorSelection,
    origin_us: i64,
)
    requires
        0 <= origin_us,
    ensures
        final(points)@ == (if is_drawn(*sample, selection, origin_us) {
            old(points)@.push(point_of(*sample, quantity, origin_us))
        } else {
            old(points)@
        }),
{
    let time_us: i64 = chart_time(sample.elapsed_us);
    if time_us >= origin_us {
        let shown_us: i64 = display_time(time_us, origin_us);
        if selection.contains(shown_us) {
            points.push(PlotPoint { time_us: shown_us, value: quantity.value(sample) });
        }
    }
}

/// The line of a loaded recording.
pub fn line_of_list(
    samples: &Vec<MeasurementSample>,
    quantity: Quantity,
    selection: NavigatorSelection,
) -> (points: Vec<PlotPoint>)
    ensures
        points@ == line(samples@, quantity, selection, 0),
{
    let mut points: Vec<PlotPoint> = Vec::new();
    let mut index: usize = 0;
    assert(samples@.take(0) =~= Seq::<MeasurementSample>::empty());
    while index < samples.len()
        invariant
            index <= samples@.len(),
            points@ == line(samples@.take(index as int), quantity, selection, 0),
        decreases samples.len() - index,
    {
        add_sample(&mut points, &samples[index], quantity, selection, 0);
        assert(samples@.take(index + 1).drop_last() =~= samples@.take(index as int));
        index += 1;
    }
    assert(samples@.take(index as int) =~= samples@);
    points
}

/// Adds the line of the live samples to what is drawn before them.
pub fn add_live_line(
    points: &mut Vec<PlotPoint>,
    samples: &VecDeque<MeasurementSample>,
    quantity: Quantity,
    selection: NavigatorSelection,
    origin_us: i64,
)
    requires
        0 <= origin_us,
    ensures
        final(points)@ == old(points)@ + line(samples@, quantity, selection, origin_us),
{
    let ghost before = points@;
    let mut index: usize = 0;
    assert(samples@.take(0) =~= Seq::<MeasurementSample>::empty());
    assert(points@ =~= before + Seq::<PlotPoint>::empty());
    while index < samples.len()
        invariant
            0 <= origin_us,
            index <= samples@.len(),
            points@ == before + line(samples@.take(index as int), quantity, selection, origin_us),
        decreases samples.len() - index,
    {
        let ghost done = line(samples@.take(index as int), quantity, selection, origin_us);
        add_sample(points, &samples[index], quantity, selection, origin_us);
        assert(samples@.take(index + 1).drop_last() =~= samples@.take(index as int));
        assert(points@ =~= before + line(
            samples@.take(index + 1),
            quantity,
            selection,
            origin_us,
        ));
        index += 1;
    }
    assert(samples@.take(index as int) =~= samples@);
}

/// Which part of the overview is drawn.
#[derive(Debug, Clone, Copy, PartialEq, Eq, Structural)]
pub struct OverviewRange {
    /// The time at which the plot begins.
    pub origin_us: i64,
    /// The time from which on something else is drawn.
    pub before_us: Option<i64>,
    /// The range of the plot.
    pub selection: Option<NavigatorSelection>,
}

impl OverviewRange {
    /// Whether a point at `time` is drawn.
    pub open spec fn draws(self, time: i64) -> bool {
        &&& time >= self.origin_us
        &&& self.before_us matches Some(before) ==> time < before
        &&& self.selection matches Some(selection) ==> selection.shows(
            since(time, self.origin_us) as int,
        )
    }
}

/// What is drawn of a point of the overview: its lowest value, its average and
/// its highest value.
pub open spec fn bar(
    point: NavigatorOverviewPoint,
    channel: Channel,
    origin: i64,
) -> Seq<PlotPoint> {
    let time_us = since(point.time_us, origin);
    seq![
        PlotPoint { time_us, value: channel.of(point.minimums.fined()) },
        PlotPoint { time_us, value: channel.of(point.values) },
        PlotPoint { time_us, value: channel.of(point.maximums.fined()) },
    ]
}

/// The line of a part of an overview.
pub open spec fn overview_line(
    points: Seq<NavigatorOverviewPoint>,
    channel: Channel,
    range: OverviewRange,
) -> Seq<PlotPoint>
    decreases points.len(),
{
    if points.len() == 0 {
        Seq::empty()
    } else {
        let before = overview_line(points.drop_last(), channel, range);
        if range.draws(points.last().time_us) {
            before + bar(points.last(), channel, range.origin_us)
        } else {
            before
        }
    }
}

/// The line of a part of an overview.
pub fn line_of_overview(
    points: &Vec<NavigatorOverviewPoint>,
    channel: Channel,
    range: OverviewRange,
) -> (drawn: Vec<PlotPoint>)
    requires
        0 <= range.origin_us,
    ensures
        drawn@ == overview_line(points@, channel, range),
{
    let mut drawn: Vec<PlotPoint> = Vec::new();
    let mut index: usize = 0;
    assert(points@.take(0) =~= Seq::<NavigatorOverviewPoint>::empty());
    while index < points.len()
        invariant
            0 <= range.origin_us,
            index <= points@.len(),
            drawn@ == overview_line(points@.take(index as int), channel, range),
        decreases points.len() - index,
    {
        let point = &points[index];
        let shown_us: i64 = display_time(point.time_us, range.origin_us);
        let early: bool = match range.before_us {
            Some(before) => point.time_us < before,
            None => true,
        };
        let inside: bool = match range.selection {
            Some(selection) => selection.contains(shown_us),
            None => true,
        };
        let ghost done = drawn@;
        if point.time_us >= range.origin_us && early && inside {
            drawn.push(
                PlotPoint { time_us: shown_us, value: channel.value(point.minimums.fine()) },
            );
            drawn.push(
                PlotPoint { time_us: shown_us, value: channel.value(point.values) },
            );
            drawn.push(
                PlotPoint { time_us: shown_us, value: channel.value(point.maximums.fine()) },
            );
            assert(drawn@ =~= done + bar(*point, channel, range.origin_us));
        }
        assert(points@.take(index + 1).drop_last() =~= points@.take(index as int));
        assert(points@.take(index + 1).last() == *point);
        index += 1;
    }
    assert(points@.take(index as int) =~= points@);
    drawn
}

/// Whether `drawn` is `line` after smoothing, reduced to what is shown.
pub open spec fn is_screen_line(
    line: Seq<PlotPoint>,
    filter: DisplayFilter,
    max_points: int,
    drawn: Seq<PlotPoint>,
) -> bool {
    exists|smooth: Seq<PlotPoint>|
        #[trigger] is_filtered(line, filter, smooth) && drawn == downsampled(smooth, max_points)
}

/// A line, smoothed and reduced to what is shown.
pub fn screen_line(line: Vec<PlotPoint>, filter: DisplayFilter, max_points: usize) -> (drawn: Vec<
    PlotPoint,
>)
    ensures
        is_screen_line(line@, filter, max_points as int, drawn@),
        filter == DisplayFilter::Raw ==> drawn@ == downsampled(line@, max_points as int),
{
    let ghost whole = line@;
    let smooth = apply_display_filter(line, filter);
    let ghost shown = smooth@;
    let drawn = min_max_downsample(smooth, max_points);
    assert(is_filtered(whole, filter, shown));
    drawn
}

/// The highest value of a line, and zero where it stays below.
pub open spec fn line_maximum(points: Seq<PlotPoint>) -> int
    decreases points.len(),
{
    if points.len() == 0 {
        0
    } else {
        larger(line_maximum(points.drop_last()), points.last().value as int)
    }
}

/// The axis that shows a line.
pub fn axis_for(points: &Vec<PlotPoint>) -> (scale: AxisScale)
    ensures
        scale.maximum == axis_ceiling(smaller(line_maximum(points@), MAX_READING as int) as nat),
        scale.well_formed(),
{
    let mut maximum: i128 = 0;
    let limit: i128 = MAX_READING as i128;
    let mut index: usize = 0;
    assert(points@.take(0) =~= Seq::<PlotPoint>::empty());
    while index < points.len()
        invariant
            index <= points@.len(),
            limit == MAX_READING,
            0 <= maximum <= limit,
            maximum == smaller(line_maximum(points@.take(index as int)), MAX_READING as int),
        decreases points.len() - index,
    {
        assert(points@.take(index + 1).drop_last() =~= points@.take(index as int));
        let value: i128 = points[index].value;
        if value > maximum {
            maximum = if value > limit {
                limit
            } else {
                value
            };
        }
        index += 1;
    }
    assert(points@.take(index as int) =~= points@);
    AxisScale::from_visible_max(maximum)
}

// -- What a range amounts to --

/// Whether a live sample counts: it is not the one at which the plot begins,
/// and lies on the plot.
pub open spec fn counts(sample: MeasurementSample, origin: i64, skipped: Option<u64>) -> bool {
    Some(sample.sample_index) != skipped && charted(sample.elapsed_us) >= origin
}

/// What the statistics of a range read of `sample`.
pub open spec fn scope_reading(sample: MeasurementSample, origin: i64) -> ScopeReading {
    ScopeReading {
        time_us: since(charted(sample.elapsed_us), origin),
        energy_throughput: sample.energy_throughput,
        charge_throughput: sample.charge_throughput,
    }
}

/// What the statistics of a range read of `samples`.
pub open spec fn scope_readings(
    samples: Seq<MeasurementSample>,
    origin: i64,
    skipped: Option<u64>,
) -> Seq<ScopeReading>
    decreases samples.len(),
{
    if samples.len() == 0 {
        Seq::empty()
    } else {
        let before = scope_readings(samples.drop_last(), origin, skipped);
        if counts(samples.last(), origin, skipped) {
            before.push(scope_reading(samples.last(), origin))
        } else {
            before
        }
    }
}

/// Whether `sample` is the one at which the plot begins.
fn is_skipped(sample: &MeasurementSample, skipped: Option<u64>) -> (result: bool)
    ensures
        result == (Some(sample.sample_index) == skipped),
{
    match skipped {
        Some(index) => sample.sample_index == index,
        None => false,
    }
}

/// What the statistics of a range read of the live samples.
pub fn live_scope_readings(
    samples: &VecDeque<MeasurementSample>,
    origin_us: i64,
    skipped: Option<u64>,
) -> (readings: Vec<ScopeReading>)
    requires
        0 <= origin_us,
    ensures
        readings@ == scope_readings(samples@, origin_us, skipped),
{
    let mut readings: Vec<ScopeReading> = Vec::new();
    let mut index: usize = 0;
    assert(samples@.take(0) =~= Seq::<MeasurementSample>::empty());
    while index < samples.len()
        invariant
            0 <= origin_us,
            index <= samples@.len(),
            readings@ == scope_readings(samples@.take(index as int), origin_us, skipped),
        decreases samples.len() - index,
    {
        let sample = &samples[index];
        let time_us: i64 = chart_time(sample.elapsed_us);
        if !is_skipped(sample, skipped) && time_us >= origin_us {
            readings.push(
                ScopeReading {
                    time_us: display_time(time_us, origin_us),
                    energy_throughput: sample.energy_throughput,
                    charge_throughput: sample.charge_throughput,
                },
            );
        }
        assert(samples@.take(index + 1).drop_last() =~= samples@.take(index as int));
        index += 1;
    }
    assert(samples@.take(index as int) =~= samples@);
    readings
}

/// What the statistics of a range read of a loaded recording.
pub fn list_scope_readings(samples: &Vec<MeasurementSample>) -> (readings: Vec<ScopeReading>)
    ensures
        readings@ == scope_readings(samples@, 0, None),
{
    let mut readings: Vec<ScopeReading> = Vec::new();
    let mut index: usize = 0;
    assert(samples@.take(0) =~= Seq::<MeasurementSample>::empty());
    while index < samples.len()
        invariant
            index <= samples@.len(),
            readings@ == scope_readings(samples@.take(index as int), 0, None),
        decreases samples.len() - index,
    {
        let sample = &samples[index];
        readings.push(
            ScopeReading {
                time_us: chart_time(sample.elapsed_us),
                energy_throughput: sample.energy_throughput,
                charge_throughput: sample.charge_throughput,
            },
        );
        assert(samples@.take(index + 1).drop_last() =~= samples@.take(index as int));
        index += 1;
    }
    assert(samples@.take(index as int) =~= samples@);
    readings
}

/// The position of the first sample that is not the one at which the plot
/// begins: all samples before it are.
pub open spec fn is_first_counted(
    samples: Seq<MeasurementSample>,
    skipped: Option<u64>,
    index: int,
) -> bool {
    &&& 0 <= index <= samples.len()
    &&& forall|i: int| 0 <= i < index ==> Some(#[trigger] samples[i].sample_index) == skipped
    &&& index < samples.len() ==> Some(samples[index].sample_index) != skipped
}

/// Whether a range that begins at `start` begins before the first sample that
/// is still kept.
pub open spec fn begins_early(
    samples: Seq<MeasurementSample>,
    origin: i64,
    skipped: Option<u64>,
    start: i64,
) -> bool {
    exists|index: int|
        #[trigger] is_first_counted(samples, skipped, index) && (index < samples.len()
            ==> since(charted(samples[index].elapsed_us), origin) > start)
}

/// Whether a range that begins at `start` begins before the first sample that
/// is still kept.
pub fn starts_before_kept(
    samples: &VecDeque<MeasurementSample>,
    origin_us: i64,
    skipped: Option<u64>,
    start_us: i64,
) -> (early: bool)
    requires
        0 <= origin_us,
    ensures
        early == begins_early(samples@, origin_us, skipped, start_us),
{
    let mut index: usize = 0;
    while index < samples.len() && is_skipped(&samples[index], skipped)
        invariant
            index <= samples@.len(),
            forall|i: int|
                0 <= i < index ==> Some(#[trigger] samples@[i].sample_index) == skipped,
        decreases samples.len() - index,
    {
        index += 1;
    }
    assert(is_first_counted(samples@, skipped, index as int));
    assert forall|other: int| #[trigger] is_first_counted(samples@, skipped, other) implies other
        == index by {
        if other < index {
            assert(Some(samples@[other].sample_index) == skipped);
        } else if index < other {
            assert(Some(samples@[index as int].sample_index) == skipped);
        }
    }
    if index < samples.len() {
        display_time(chart_time(samples[index].elapsed_us), origin_us) > start_us
    } else {
        true
    }
}

// -- What the cursor shows --

/// The times of `samples`.
pub open spec fn times_of(samples: Seq<MeasurementSample>) -> Seq<i64> {
    samples.map_values(|sample: MeasurementSample| charted(sample.elapsed_us))
}

/// What the cursor shows of `sample` on a plot that begins at `origin`.
pub open spec fn readout_of(sample: MeasurementSample, origin: i64) -> CursorReadout {
    CursorReadout {
        time_us: since(charted(sample.elapsed_us), origin),
        values: channels_of(sample).fined(),
        approximate: false,
    }
}

/// Whether `index` is the sample next to `target`, if the samples are in order.
pub open spec fn is_next_to(samples: Seq<MeasurementSample>, target: i64, index: int) -> bool {
    &&& 0 <= index < samples.len()
    &&& in_order(times_of(samples)) ==> is_nearest(
        times_of(samples),
        if target < 0 {
            0
        } else {
            target as int
        },
        index,
    )
}

/// The live sample next to `target`.
pub fn nearest_live(samples: &VecDeque<MeasurementSample>, target_us: i64) -> (index: Option<
    usize,
>)
    ensures
        index is None <==> samples@.len() == 0,
        index matches Some(i) ==> is_next_to(samples@, target_us, i as int),
{
    let time_at = |i: usize| -> (time_us: i64)
        requires
            i < samples@.len(),
        ensures
            time_us == charted(samples@[i as int].elapsed_us),
        { chart_time(samples[i].elapsed_us) };
    let index = nearest_time_index(samples.len(), target_us, time_at);
    proof {
        assert(reports(time_at, times_of(samples@)));
    }
    index
}

/// The sample of a loaded recording next to `target`.
pub fn nearest_listed(samples: &Vec<MeasurementSample>, target_us: i64) -> (index: Option<usize>)
    ensures
        index is None <==> samples@.len() == 0,
        index matches Some(i) ==> is_next_to(samples@, target_us, i as int),
{
    let time_at = |i: usize| -> (time_us: i64)
        requires
            i < samples@.len(),
        ensures
            time_us == charted(samples@[i as int].elapsed_us),
        { chart_time(samples[i].elapsed_us) };
    let index = nearest_time_index(samples.len(), target_us, time_at);
    proof {
        assert(reports(time_at, times_of(samples@)));
    }
    index
}

/// What is drawn of one sample, and what is not: a sample from before the plot
/// or outside of the range gives no point. The voltage keeps its sign, the
/// current and the power are drawn by their size, and a quantity of the
/// analysis is drawn as it was measured.
pub proof fn law_a_sample_in_range_is_one_point(
    sample: MeasurementSample,
    quantity: Quantity,
    selection: NavigatorSelection,
    origin: i64,
)
    requires
        0 <= origin,
        sample.elapsed_us <= i64::MAX,
        sample.ibus_ua > i64::MIN,
        sample.power_uw > i64::MIN,
    ensures
        ({
            let drawn = line(seq![sample], quantity, selection, origin);
            let time = sample.elapsed_us - origin;
            let inside = sample.elapsed_us >= origin && selection.start_us <= time && time
                <= selection.end_us;
            &&& !inside ==> drawn.len() == 0
            &&& inside ==> {
                &&& drawn.len() == 1
                &&& drawn[0].time_us == time
                &&& quantity matches Quantity::Shown(Channel::Voltage) ==> drawn[0].value
                    == sample.vbus_uv * 1_000_000_000
                &&& quantity matches Quantity::Shown(Channel::Current) ==> drawn[0].value >= 0 && (
                drawn[0].value == sample.ibus_ua * 1_000_000_000 || drawn[0].value
                    == -sample.ibus_ua * 1_000_000_000)
                &&& quantity matches Quantity::Shown(Channel::Power) ==> drawn[0].value >= 0 && (
                drawn[0].value == sample.power_uw * 1_000_000_000 || drawn[0].value
                    == -sample.power_uw * 1_000_000_000)
                &&& quantity matches Quantity::Metric(metric) ==> {
                    &&& metric == PlotMetric::Voltage ==> drawn[0].value == sample.vbus_uv
                    &&& metric == PlotMetric::Current ==> drawn[0].value >= 0 && (drawn[0].value
                        == sample.ibus_ua || drawn[0].value == -sample.ibus_ua)
                    &&& metric == PlotMetric::SignedCurrent ==> drawn[0].value == sample.ibus_ua
                    &&& metric == PlotMetric::Power ==> drawn[0].value >= 0 && (drawn[0].value
                        == sample.power_uw || drawn[0].value == -sample.power_uw)
                    &&& metric == PlotMetric::SignedPower ==> drawn[0].value == sample.power_uw
                    &&& metric == PlotMetric::Charge ==> drawn[0].value == sample.charge_throughput
                    &&& metric == PlotMetric::SignedCharge ==> drawn[0].value == sample.charge
                    &&& metric == PlotMetric::Energy ==> drawn[0].value == sample.energy_throughput
                    &&& metric == PlotMetric::SignedEnergy ==> drawn[0].value == sample.energy
                    &&& metric == PlotMetric::Cc1 ==> drawn[0].value == sample.cc1_uv
                    &&& metric == PlotMetric::Cc2 ==> drawn[0].value == sample.cc2_uv
                    &&& metric == PlotMetric::DPlus ==> drawn[0].value == sample.dp_uv
                    &&& metric == PlotMetric::DMinus ==> drawn[0].value == sample.dm_uv
                }
            }
        }),
{
    let one = seq![sample];
    assert(one.last() == sample);
    assert(one.drop_last() =~= Seq::<MeasurementSample>::empty());
    assert(line(one.drop_last(), quantity, selection, origin) =~= Seq::<PlotPoint>::empty());
}

/// A line is drawn sample by sample: that of two stretches is the one followed
/// by the other.
pub proof fn law_lines_are_joined_end_to_end(
    first: Seq<MeasurementSample>,
    second: Seq<MeasurementSample>,
    quantity: Quantity,
    selection: NavigatorSelection,
    origin: i64,
)
    ensures
        line(first + second, quantity, selection, origin) == line(
            first,
            quantity,
            selection,
            origin,
        ) + line(second, quantity, selection, origin),
    decreases second.len(),
{
    if second.len() == 0 {
        assert(first + second =~= first);
        assert(line(second, quantity, selection, origin) =~= Seq::<PlotPoint>::empty());
        assert(line(first, quantity, selection, origin) =~= line(first, quantity, selection, origin)
            + Seq::<PlotPoint>::empty());
    } else {
        law_lines_are_joined_end_to_end(first, second.drop_last(), quantity, selection, origin);
        assert((first + second).drop_last() =~= first + second.drop_last());
        assert(line(first + second, quantity, selection, origin) =~= line(
            first,
            quantity,
            selection,
            origin,
        ) + line(second, quantity, selection, origin));
    }
}

/// A bucket of the overview that lies on the plot, before what is drawn
/// otherwise and in the range, is drawn from its lowest value over its average
/// to its highest; any other is not drawn.
pub proof fn law_a_bucket_in_range_is_a_bar(
    point: NavigatorOverviewPoint,
    channel: Channel,
    range: OverviewRange,
)
    requires
        0 <= range.origin_us,
    ensures
        ({
            let drawn = overview_line(seq![point], channel, range);
            let time = point.time_us - range.origin_us;
            let inside = {
                &&& point.time_us >= range.origin_us
                &&& range.before_us matches Some(before) ==> point.time_us < before
                &&& range.selection matches Some(shown) ==> shown.start_us <= time && time
                    <= shown.end_us
            };
            &&& !inside ==> drawn.len() == 0
            &&& inside ==> {
                &&& drawn.len() == 3
                &&& forall|i: int| 0 <= i < 3 ==> #[trigger] drawn[i].time_us == time
                &&& channel == Channel::Voltage ==> {
                    &&& drawn[0].value == point.minimums.voltage * 1_000_000_000
                    &&& drawn[1].value == point.values.voltage
                    &&& drawn[2].value == point.maximums.voltage * 1_000_000_000
                }
                &&& channel == Channel::Current ==> {
                    &&& drawn[0].value == point.minimums.current * 1_000_000_000
                    &&& drawn[1].value == point.values.current
                    &&& drawn[2].value == point.maximums.current * 1_000_000_000
                }
                &&& channel == Channel::Power ==> {
                    &&& drawn[0].value == point.minimums.power * 1_000_000_000
                    &&& drawn[1].value == point.values.power
                    &&& drawn[2].value == point.maximums.power * 1_000_000_000
                }
            }
        }),
{
    let one = seq![point];
    assert(one.last() == point);
    assert(one.drop_last() =~= Seq::<NavigatorOverviewPoint>::empty());
    assert(overview_line(one.drop_last(), channel, range) =~= Seq::<PlotPoint>::empty());
}

/// An overview is drawn bucket by bucket.
pub proof fn law_overview_lines_are_joined_end_to_end(
    first: Seq<NavigatorOverviewPoint>,
    second: Seq<NavigatorOverviewPoint>,
    channel: Channel,
    range: OverviewRange,
)
    ensures
        overview_line(first + second, channel, range) == overview_line(first, channel, range)
            + overview_line(second, channel, range),
    decreases second.len(),
{
    if second.len() == 0 {
        assert(first + second =~= first);
        assert(overview_line(first + second, channel, range) =~= overview_line(
            first,
            channel,
            range,
        ) + overview_line(second, channel, range));
    } else {
        law_overview_lines_are_joined_end_to_end(first, second.drop_last(), channel, range);
        assert((first + second).drop_last() =~= first + second.drop_last());
        assert(overview_line(first + second, channel, range) =~= overview_line(
            first,
            channel,
            range,
        ) + overview_line(second, channel, range));
    }
}

/// The axis of a line reaches no higher than one of its values, or than zero,
/// asks for: no value of the line is above the maximum that it is made for.
pub proof fn law_the_maximum_of_a_line_is_reached_and_not_passed(points: Seq<PlotPoint>)
    ensures
        line_maximum(points) >= 0,
        forall|i: int| 0 <= i < points.len() ==> #[trigger] points[i].value <= line_maximum(points),
        line_maximum(points) == 0 || exists|i: int|
            0 <= i < points.len() && #[trigger] points[i].value == line_maximum(points),
    decreases points.len(),
{
    if points.len() > 0 {
        let earlier = points.drop_last();
        law_the_maximum_of_a_line_is_reached_and_not_passed(earlier);
        assert forall|i: int| 0 <= i < points.len() implies #[trigger] points[i].value
            <= line_maximum(points) by {
            if i < earlier.len() {
                assert(earlier[i].value <= line_maximum(earlier));
            }
        }
        if line_maximum(points) != 0 {
            if line_maximum(points) == points.last().value {
                assert(points[points.len() - 1].value == line_maximum(points));
            } else {
                let i = choose|i: int|
                    0 <= i < earlier.len() && #[trigger] earlier[i].value == line_maximum(earlier);
                assert(points[i].value == line_maximum(points));
            }
        }
    }
}

/// The statistics read every sample of the plot but the one at which it
/// begins, with its time on the plot and its counters.
pub proof fn law_every_sample_of_the_plot_is_read(
    sample: MeasurementSample,
    origin: i64,
    skipped: Option<u64>,
)
    requires
        0 <= origin,
        sample.elapsed_us <= i64::MAX,
    ensures
        ({
            let read = scope_readings(seq![sample], origin, skipped);
            let left_out = skipped == Some(sample.sample_index) || sample.elapsed_us < origin;
            &&& left_out ==> read.len() == 0
            &&& !left_out ==> {
                &&& read.len() == 1
                &&& read[0].time_us == sample.elapsed_us - origin
                &&& read[0].energy_throughput == sample.energy_throughput
                &&& read[0].charge_throughput == sample.charge_throughput
            }
        }),
{
    let one = seq![sample];
    assert(one.last() == sample);
    assert(one.drop_last() =~= Seq::<MeasurementSample>::empty());
    assert(scope_readings(one.drop_last(), origin, skipped) =~= Seq::<ScopeReading>::empty());
}

/// The statistics read two stretches one after the other.
pub proof fn law_readings_are_joined_end_to_end(
    first: Seq<MeasurementSample>,
    second: Seq<MeasurementSample>,
    origin: i64,
    skipped: Option<u64>,
)
    ensures
        scope_readings(first + second, origin, skipped) == scope_readings(first, origin, skipped)
            + scope_readings(second, origin, skipped),
    decreases second.len(),
{
    if second.len() == 0 {
        assert(first + second =~= first);
        assert(scope_readings(first + second, origin, skipped) =~= scope_readings(
            first,
            origin,
            skipped,
        ) + scope_readings(second, origin, skipped));
    } else {
        law_readings_are_joined_end_to_end(first, second.drop_last(), origin, skipped);
        assert((first + second).drop_last() =~= first + second.drop_last());
        assert(scope_readings(first + second, origin, skipped) =~= scope_readings(
            first,
            origin,
            skipped,
        ) + scope_readings(second, origin, skipped));
    }
}

/// Without a sample to leave out, a range begins before what is kept exactly
/// where nothing is kept or the first sample that is kept lies behind the
/// start of the range.
pub proof fn law_a_range_is_approximate_before_the_first_sample(
    samples: Seq<MeasurementSample>,
    origin: i64,
    start: i64,
)
    requires
        0 <= origin,
        0 <= start,
        samples.len() > 0 ==> samples[0].elapsed_us <= i64::MAX,
    ensures
        begins_early(samples, origin, None, start) <==> (samples.len() == 0
            || samples[0].elapsed_us - origin > start),
{
    assert(is_first_counted(samples, None, 0));
    assert forall|index: int| #[trigger] is_first_counted(samples, None, index) implies index
        == 0 by {
        if index > 0 {
            assert(Some(samples[0].sample_index) == None::<u64>);
        }
    }
}

/// What the cursor shows of a sample: its time on the plot, its voltage, and
/// the size of its current and of its power, all exact.
pub proof fn law_the_cursor_shows_what_was_measured(sample: MeasurementSample, origin: i64)
    requires
        0 <= origin <= sample.elapsed_us <= i64::MAX,
        sample.ibus_ua > i64::MIN,
        sample.power_uw > i64::MIN,
    ensures
        ({
            let shown = readout_of(sample, origin);
            &&& shown.time_us == sample.elapsed_us - origin
            &&& !shown.approximate
            &&& shown.values.voltage == sample.vbus_uv * 1_000_000_000
            &&& shown.values.current >= 0
            &&& shown.values.current == sample.ibus_ua * 1_000_000_000 || shown.values.current
                == -sample.ibus_ua * 1_000_000_000
            &&& shown.values.power >= 0
            &&& shown.values.power == sample.power_uw * 1_000_000_000 || shown.values.power
                == -sample.power_uw * 1_000_000_000
        }),
{
}

} // verus!
