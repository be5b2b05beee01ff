//! Statistics of a recording and of the part of it that is shown.
use vstd::prelude::*;

use crate::chart::{larger, smaller, NavigatorSelection};
use crate::measurement::MeasurementSample;
use crate::navigator::{channels_of, ChannelValues};
use crate::recording::{amount_difference, amount_sum, in_amount, in_counter};

verus! {

/// Extremes and average of the values seen.
#[derive(Debug, Clone, Copy, PartialEq, Eq, Structural)]
pub struct MetricStatistics {
    pub minimum: i64,
    /// The sum of the values: the average is this over `count`.
    pub sum: i128,
    pub count: u64,
    pub maximum: i64,
}

/// Extremes and sum of the values seen so far.
#[derive(Debug, Clone, Copy, PartialEq, Eq, Structural)]
pub struct RunningMetricStatistics {
    pub count: u64,
    pub minimum: i64,
    pub maximum: i64,
    pub sum: i128,
}

impl RunningMetricStatistics {
    /// No value has been seen.
    pub open spec fn none() -> RunningMetricStatistics {
        RunningMetricStatistics { count: 0, minimum: i64::MAX, maximum: i64::MIN, sum: 0 }
    }

    /// The statistics with `value`.
    pub open spec fn with(self, value: i64) -> RunningMetricStatistics {
        RunningMetricStatistics {
            count: in_counter(self.count + 1),
            minimum: smaller(self.minimum as int, value as int) as i64,
            maximum: larger(self.maximum as int, value as int) as i64,
            sum: in_amount(self.sum + value),
        }
    }

    /// The statistics with all of `values`.
    pub open spec fn with_all(self, values: Seq<i64>) -> RunningMetricStatistics
        decreases values.len(),
    {
        if values.len() == 0 {
            self
        } else {
            self.with_all(values.drop_last()).with(values.last())
        }
    }

    /// Takes `value` into account.
    pub fn push(&mut self, value: i64)
        ensures
            *final(self) == old(self).with(value),
    {
        self.count = self.count.saturating_add(1);
        if value < self.minimum {
            self.minimum = value;
        }
        if value > self.maximum {
            self.maximum = value;
        }
        self.sum = amount_sum(self.sum, value as i128);
    }

    /// What is shown of the statistics, once there is a value.
    pub fn readout(self) -> (readout: Option<MetricStatistics>)
        ensures
            readout == (if self.count > 0 {
                Some(
                    MetricStatistics {
                        minimum: self.minimum,
                        sum: self.sum,
                        count: self.count,
                        maximum: self.maximum,
                    },
                )
            } else {
                None
            }),
    {
        if self.count > 0 {
            Some(
                MetricStatistics {
                    minimum: self.minimum,
                    sum: self.sum,
                    count: self.count,
                    maximum: self.maximum,
                },
            )
        } else {
            None
        }
    }
}

impl Default for RunningMetricStatistics {
    fn default() -> (statistics: RunningMetricStatistics)
        ensures
            statistics == RunningMetricStatistics::none(),
    {
        RunningMetricStatistics { count: 0, minimum: i64::MAX, maximum: i64::MIN, sum: 0 }
    }
}

/// The sum of `values`.
pub open spec fn sum_of(values: Seq<i64>) -> int
    decreases values.len(),
{
    if values.len() == 0 {
        0
    } else {
        sum_of(values.drop_last()) + values.last()
    }
}

proof fn lemma_sum_bound(values: Seq<i64>)
    ensures
        -0x8000_0000_0000_0000 * values.len() <= sum_of(values) <= 0x8000_0000_0000_0000
            * values.len(),
    decreases values.len(),
{
    if values.len() > 0 {
        lemma_sum_bound(values.drop_last());
    }
}

/// The statistics of a run of values are what they are called: their number,
/// their extremes, each of which occurs, and their sum.
pub proof fn law_statistics_describe_their_values(values: Seq<i64>)
    requires
        0 < values.len() < u64::MAX,
    ensures
        ({
            let statistics = RunningMetricStatistics::none().with_all(values);
            &&& statistics.count == values.len()
            &&& statistics.sum == sum_of(values)
            &&& values.contains(statistics.minimum)
            &&& values.contains(statistics.maximum)
            &&& forall|i: int|
                0 <= i < values.len() ==> statistics.minimum <= #[trigger] values[i]
                    <= statistics.maximum
        }),
    decreases values.len(),
{
    let front = values.drop_last();
    let statistics = RunningMetricStatistics::none().with_all(values);
    lemma_sum_bound(values);
    assert(values[values.len() - 1] == values.last());
    if front.len() == 0 {
        assert(RunningMetricStatistics::none().with_all(front) == RunningMetricStatistics::none());
        assert(sum_of(front) == 0);
    } else {
        law_statistics_describe_their_values(front);
        let earlier = RunningMetricStatistics::none().with_all(front);
        let low = choose|i: int| 0 <= i < front.len() && front[i] == earlier.minimum;
        let high = choose|i: int| 0 <= i < front.len() && front[i] == earlier.maximum;
        assert(values[low] == earlier.minimum);
        assert(values[high] == earlier.maximum);
        assert(values.contains(statistics.minimum));
        assert(values.contains(statistics.maximum));
        assert forall|i: int| 0 <= i < values.len() implies statistics.minimum
            <= #[trigger] values[i] <= statistics.maximum by {
            if i < front.len() {
                assert(front[i] == values[i]);
            }
        }
    }
}

/// Statistics of the three channels of a recording.
#[derive(Debug, Clone, Copy, PartialEq, Eq, Structural)]
pub struct RecordingSessionStatistics {
    pub voltage: RunningMetricStatistics,
    pub current: RunningMetricStatistics,
    pub power: RunningMetricStatistics,
}

impl RecordingSessionStatistics {
    /// No sample has been recorded.
    pub open spec fn none() -> RecordingSessionStatistics {
        RecordingSessionStatistics {
            voltage: RunningMetricStatistics::none(),
            current: RunningMetricStatistics::none(),
            power: RunningMetricStatistics::none(),
        }
    }

    /// The statistics with the values of one sample.
    pub open spec fn with(self, values: ChannelValues) -> RecordingSessionStatistics {
        RecordingSessionStatistics {
            voltage: self.voltage.with(values.voltage),
            current: self.current.with(values.current),
            power: self.power.with(values.power),
        }
    }

    /// The statistics with all of `samples`.
    pub open spec fn with_all(self, samples: Seq<MeasurementSample>) -> RecordingSessionStatistics
        decreases samples.len(),
    {
        if samples.len() == 0 {
            self
        } else {
            self.with_all(samples.drop_last()).with(channels_of(samples.last()))
        }
    }

    /// Takes `sample` into account.
    pub fn push(&mut self, sample: &MeasurementSample)
        ensures
            *final(self) == old(self).with(channels_of(*sample)),
    {
        let values = ChannelValues::of(sample);
        self.voltage.push(values.voltage);
        self.current.push(values.current);
        self.power.push(values.power);
    }

    /// The statistics of `samples`.
    pub fn from_measurements(samples: &Vec<MeasurementSample>) -> (statistics:
        RecordingSessionStatistics)
        ensures
            statistics == RecordingSessionStatistics::none().with_all(samples@),
    {
        let mut statistics = RecordingSessionStatistics::default();
        let mut index: usize = 0;
        assert(samples@.take(0) =~= Seq::<MeasurementSample>::empty());
        while index < samples.len()
            invariant
                index <= samples@.len(),
                statistics == RecordingSessionStatistics::none().with_all(
                    samples@.take(index as int),
                ),
            decreases samples.len() - index,
        {
            statistics.push(&samples[index]);
            assert(samples@.take(index + 1).drop_last() =~= samples@.take(index as int));
            index += 1;
        }
        assert(samples@.take(index as int) =~= samples@);
        statistics
    }
}

impl Default for RecordingSessionStatistics {
    fn default() -> (statistics: RecordingSessionStatistics)
        ensures
            statistics == RecordingSessionStatistics::none(),
    {
        RecordingSessionStatistics {
            voltage: RunningMetricStatistics::default(),
            current: RunningMetricStatistics::default(),
            power: RunningMetricStatistics::default(),
        }
    }
}

/// A part of the time axis in which nothing was recorded.
#[derive(Debug, Clone, Copy, PartialEq, Eq, Structural)]
pub struct PauseInterval {
    pub start_us: i64,
    pub end_us: i64,
}

/// What the statistics of a range read of a sample.
#[derive(Debug, Clone, Copy, PartialEq, Eq, Structural)]
pub struct ScopeReading {
    pub time_us: i64,
    pub energy_throughput: i128,
    pub charge_throughput: i128,
}

/// Statistics of a range of a recording.
#[derive(Debug, Clone, Copy, PartialEq, Eq, Structural)]
pub struct ScopeStatistics {
    pub duration_us: u64,
    pub cumulative_energy: i128,
    pub capacity: i128,
    pub points: u64,
    pub approximate: bool,
}

impl ScopeStatistics {
    /// Nothing lies in the range.
    pub open spec fn none() -> ScopeStatistics {
        ScopeStatistics {
            duration_us: 0,
            cumulative_energy: 0,
            capacity: 0,
            points: 0,
            approximate: false,
        }
    }
}

impl Default for ScopeStatistics {
    fn default() -> (statistics: ScopeStatistics)
        ensures
            statistics == ScopeStatistics::none(),
    {
        ScopeStatistics {
            duration_us: 0,
            cumulative_energy: 0,
            capacity: 0,
            points: 0,
            approximate: false,
        }
    }
}

/// Whether `time` lies in one of `intervals`.
pub open spec fn is_excluded(time: i64, intervals: Seq<PauseInterval>) -> bool {
    exists|i: int|
        0 <= i < intervals.len() && #[trigger] intervals[i].start_us <= time
            <= intervals[i].end_us
}

/// Whether `time` lies in one of `intervals`.
fn lies_in_one(time: i64, intervals: &Vec<PauseInterval>) -> (excluded: bool)
    ensures
        excluded == is_excluded(time, intervals@),
{
    let mut index: usize = 0;
    while index < intervals.len()
        invariant
            index <= intervals@.len(),
            forall|i: int|
                0 <= i < index ==> !(#[trigger] intervals@[i].start_us <= time
                    <= intervals@[i].end_us),
        decreases intervals.len() - index,
    {
        if time >= intervals[index].start_us && time <= intervals[index].end_us {
            return true;
        }
        index += 1;
    }
    false
}

/// What is known after some of the readings of a range: the statistics and the
/// reading that the next one is counted against.
pub ghost struct ScopeProgress {
    pub statistics: ScopeStatistics,
    pub previous: Option<ScopeReading>,
}

impl ScopeProgress {
    /// The statistics with a reading that counts.
    pub open spec fn counted(self, reading: ScopeReading) -> ScopeProgress {
        let points = in_counter(self.statistics.points + 1);
        ScopeProgress {
            statistics: match self.previous {
                Some(previous) => ScopeStatistics {
                    duration_us: in_counter(
                        self.statistics.duration_us + larger(
                            reading.time_us - previous.time_us,
                            0,
                        ),
                    ),
                    cumulative_energy: in_amount(
                        self.statistics.cumulative_energy + larger(
                            in_amount(reading.energy_throughput - previous.energy_throughput) as int,
                            0,
                        ),
                    ),
                    capacity: in_amount(
                        self.statistics.capacity + larger(
                            in_amount(reading.charge_throughput - previous.charge_throughput) as int,
                            0,
                        ),
                    ),
                    points,
                    ..self.statistics
                },
                None => ScopeStatistics { points, ..self.statistics },
            },
            previous: Some(reading),
        }
    }

    /// What is known after `readings`. A reading outside the range is passed
    /// over; one in a pause breaks the count.
    pub open spec fn over(
        readings: Seq<ScopeReading>,
        selection: NavigatorSelection,
        excluded: Seq<PauseInterval>,
    ) -> ScopeProgress
        decreases readings.len(),
    {
        if readings.len() == 0 {
            ScopeProgress { statistics: ScopeStatistics::none(), previous: None }
        } else {
            let before = ScopeProgress::over(readings.drop_last(), selection, excluded);
            let reading = readings.last();
            if !selection.shows(reading.time_us as int) {
                before
            } else if is_excluded(reading.time_us, excluded) {
                ScopeProgress { previous: None, ..before }
            } else {
                before.counted(reading)
            }
        }
    }
}

/// The statistics of the readings that lie in `selection` and in none of the
/// pauses.
pub fn calculate_scope_statistics(
    readings: &Vec<ScopeReading>,
    selection: NavigatorSelection,
    excluded_intervals: &Vec<PauseInterval>,
) -> (result: ScopeStatistics)
    ensures
        result == ScopeProgress::over(readings@, selection, excluded_intervals@).statistics,
{
    let mut result = ScopeStatistics::default();
    let mut previous: Option<ScopeReading> = None;
    let mut index: usize = 0;
    assert(readings@.take(0) =~= Seq::<ScopeReading>::empty());
    while index < readings.len()
        invariant
            index <= readings@.len(),
            (ScopeProgress { statistics: result, previous }) == ScopeProgress::over(
                readings@.take(index as int),
                selection,
                excluded_intervals@,
            ),
        decreases readings.len() - index,
    {
        let reading = readings[index];
        assert(readings@.take(index + 1).drop_last() =~= readings@.take(index as int));
        index += 1;
        if !selection.contains(reading.time_us) {
            continue;
        }
        if lies_in_one(reading.time_us, excluded_intervals) {
            previous = None;
            continue;
        }
        result.points = result.points.saturating_add(1);
        match previous {
            Some(before) => {
                let step: u64 = if reading.time_us > before.time_us {
                    (reading.time_us as i128 - before.time_us as i128) as u64
                } else {
                    0
                };
                result.duration_us = result.duration_us.saturating_add(step);
                let energy: i128 = amount_difference(
                    reading.energy_throughput,
                    before.energy_throughput,
                );
                let charge: i128 = amount_difference(
                    reading.charge_throughput,
                    before.charge_throughput,
                );
                result.cumulative_energy = amount_sum(
                    result.cumulative_energy,
                    if energy > 0 {
                        energy
                    } else {
                        0
                    },
                );
                result.capacity = amount_sum(
                    result.capacity,
                    if charge > 0 {
                        charge
                    } else {
                        0
                    },
                );
            },
            None => {},
        }
        previous = Some(reading);
    }
    assert(readings@.take(index as int) =~= readings@);
    result
}

/// What passes during a pause is not counted: a reading in a pause changes no
/// statistic, and the first one after it adds a point but neither time nor
/// energy nor charge.
pub proof fn law_pauses_are_left_out(
    readings: Seq<ScopeReading>,
    selection: NavigatorSelection,
    excluded: Seq<PauseInterval>,
    paused: ScopeReading,
    next: ScopeReading,
)
    requires
        selection.shows(paused.time_us as int),
        is_excluded(paused.time_us, excluded),
        selection.shows(next.time_us as int),
        !is_excluded(next.time_us, excluded),
    ensures
        ({
            let before = ScopeProgress::over(readings, selection, excluded).statistics;
            let during = ScopeProgress::over(
                readings.push(paused),
                selection,
                excluded,
            ).statistics;
            let after = ScopeProgress::over(
                readings.push(paused).push(next),
                selection,
                excluded,
            ).statistics;
            &&& during == before
            &&& after == (ScopeStatistics { points: in_counter(before.points + 1), ..before })
        }),
{
    assert(readings.push(paused).drop_last() =~= readings);
    assert(readings.push(paused).push(next).drop_last() =~= readings.push(paused));
}

/// Whether every one of `readings` lies in `selection` and in none of the
/// pauses.
pub open spec fn all_counted(
    readings: Seq<ScopeReading>,
    selection: NavigatorSelection,
    excluded: Seq<PauseInterval>,
) -> bool {
    forall|i: int|
        0 <= i < readings.len() ==> selection.start_us <= (#[trigger] readings[i]).time_us
            <= selection.end_us && !is_excluded(readings[i].time_us, excluded)
}

/// Whether neither time nor a throughput ever falls.
pub open spec fn never_falling(readings: Seq<ScopeReading>) -> bool {
    forall|i: int, j: int|
        0 <= i <= j < readings.len() ==> {
            &&& (#[trigger] readings[i]).time_us <= (#[trigger] readings[j]).time_us
            &&& readings[i].energy_throughput <= readings[j].energy_throughput
            &&& readings[i].charge_throughput <= readings[j].charge_throughput
        }
}

/// An unbroken range amounts to the difference of its ends: the time, the energy
/// and the charge of its last reading less those of its first, and as many
/// points as it has readings.
pub proof fn law_an_unbroken_range_is_the_difference_of_its_ends(
    readings: Seq<ScopeReading>,
    selection: NavigatorSelection,
    excluded: Seq<PauseInterval>,
)
    requires
        0 < readings.len() < u64::MAX,
        all_counted(readings, selection, excluded),
        never_falling(readings),
        readings.last().energy_throughput - readings.first().energy_throughput <= i128::MAX,
        readings.last().charge_throughput - readings.first().charge_throughput <= i128::MAX,
    ensures
        ({
            let statistics = ScopeProgress::over(readings, selection, excluded).statistics;
            let first = readings.first();
            let last = readings.last();
            &&& statistics.duration_us == last.time_us - first.time_us
            &&& statistics.cumulative_energy == last.energy_throughput - first.energy_throughput
            &&& statistics.capacity == last.charge_throughput - first.charge_throughput
            &&& statistics.points == readings.len()
            &&& !statistics.approximate
        }),
        ScopeProgress::over(readings, selection, excluded).previous == Some(readings.last()),
    decreases readings.len(),
{
    let front = readings.drop_last();
    let end = readings.len() - 1;
    assert(readings[end] == readings.last());
    if front.len() > 0 {
        assert forall|i: int, j: int| 0 <= i <= j < front.len() implies {
            &&& (#[trigger] front[i]).time_us <= (#[trigger] front[j]).time_us
            &&& front[i].energy_throughput <= front[j].energy_throughput
            &&& front[i].charge_throughput <= front[j].charge_throughput
        } by {
            assert(front[i] == readings[i] && front[j] == readings[j]);
        }
        assert forall|i: int| 0 <= i < front.len() implies selection.start_us <= (
        #[trigger] front[i]).time_us <= selection.end_us && !is_excluded(
            front[i].time_us,
            excluded,
        ) by {
            assert(front[i] == readings[i]);
        }
        assert(front.last() == readings[end - 1]);
        assert(front.first() == readings.first());
        law_an_unbroken_range_is_the_difference_of_its_ends(front, selection, excluded);
    } else {
        assert(front =~= Seq::empty());
        assert(readings.first() == readings.last());
    }
}

/// Statistics are never below zero, and one more reading never takes anything
/// away from them: what falls back is not counted.
pub proof fn law_range_statistics_never_fall(
    readings: Seq<ScopeReading>,
    selection: NavigatorSelection,
    excluded: Seq<PauseInterval>,
    next: ScopeReading,
)
    ensures
        ({
            let before = ScopeProgress::over(readings, selection, excluded).statistics;
            let after = ScopeProgress::over(readings.push(next), selection, excluded).statistics;
            &&& 0 <= before.cumulative_energy <= after.cumulative_energy
            &&& 0 <= before.capacity <= after.capacity
            &&& before.duration_us <= after.duration_us
            &&& before.points <= after.points
        }),
    decreases readings.len(),
{
    assert(readings.push(next).drop_last() =~= readings);
    if readings.len() > 0 {
        law_range_statistics_never_fall(
            readings.drop_last(),
            selection,
            excluded,
            readings.last(),
        );
        assert(readings.drop_last().push(readings.last()) =~= readings);
    }
}

/// A range that pauses break into stretches amounts to the sum of its stretches:
/// what comes before a reading in a pause, and what comes after it.
pub proof fn law_stretches_of_a_range_add_up(
    first: Seq<ScopeReading>,
    paused: ScopeReading,
    second: Seq<ScopeReading>,
    selection: NavigatorSelection,
    excluded: Seq<PauseInterval>,
)
    requires
        selection.start_us <= paused.time_us <= selection.end_us,
        is_excluded(paused.time_us, excluded),
        ({
            let a = ScopeProgress::over(first, selection, excluded).statistics;
            let b = ScopeProgress::over(second, selection, excluded).statistics;
            &&& a.duration_us + b.duration_us < u64::MAX
            &&& a.cumulative_energy + b.cumulative_energy < i128::MAX
            &&& a.capacity + b.capacity < i128::MAX
            &&& a.points + b.points < u64::MAX
        }),
    ensures
        ({
            let a = ScopeProgress::over(first, selection, excluded).statistics;
            let b = ScopeProgress::over(second, selection, excluded).statistics;
            let whole = ScopeProgress::over(
                first.push(paused) + second,
                selection,
                excluded,
            ).statistics;
            &&& whole.duration_us == a.duration_us + b.duration_us
            &&& whole.cumulative_energy == a.cumulative_energy + b.cumulative_energy
            &&& whole.capacity == a.capacity + b.capacity
            &&& whole.points == a.points + b.points
        }),
        ScopeProgress::over(first.push(paused) + second, selection, excluded).previous
            == ScopeProgress::over(second, selection, excluded).previous,
    decreases second.len(),
{
    law_range_statistics_never_fall(first, selection, excluded, paused);
    if second.len() == 0 {
        assert(first.push(paused) + second =~= first.push(paused));
        assert(first.push(paused).drop_last() =~= first);
    } else {
        let front = second.drop_last();
        assert((first.push(paused) + second).drop_last() =~= first.push(paused) + front);
        assert((first.push(paused) + second).last() == second.last());
        law_range_statistics_never_fall(front, selection, excluded, second.last());
        assert(front.push(second.last()) =~= second);
        law_stretches_of_a_range_add_up(first, paused, front, selection, excluded);
    }
}

/// A reading outside the range makes no difference, wherever it stands.
pub proof fn law_readings_outside_a_range_do_not_count(
    first: Seq<ScopeReading>,
    outside: ScopeReading,
    second: Seq<ScopeReading>,
    selection: NavigatorSelection,
    excluded: Seq<PauseInterval>,
)
    requires
        outside.time_us < selection.start_us || selection.end_us < outside.time_us,
    ensures
        ScopeProgress::over(first.push(outside) + second, selection, excluded)
            == ScopeProgress::over(first + second, selection, excluded),
    decreases second.len(),
{
    if second.len() == 0 {
        assert(first.push(outside) + second =~= first.push(outside));
        assert(first.push(outside).drop_last() =~= first);
        assert(first + second =~= first);
    } else {
        let front = second.drop_last();
        assert((first.push(outside) + second).drop_last() =~= first.push(outside) + front);
        assert((first + second).drop_last() =~= first + front);
        law_readings_outside_a_range_do_not_count(first, outside, front, selection, excluded);
    }
}

/// The statistics of a recording are those of its voltages as they were read,
/// and of the sizes of its currents and powers.
pub proof fn law_session_statistics_read_the_three_channels(samples: Seq<MeasurementSample>)
    requires
        forall|i: int|
            0 <= i < samples.len() ==> (#[trigger] samples[i]).ibus_ua > i64::MIN
                && samples[i].power_uw > i64::MIN,
    ensures
        ({
            let statistics = RecordingSessionStatistics::none().with_all(samples);
            let none = RunningMetricStatistics::none();
            &&& statistics.voltage == none.with_all(
                samples.map_values(|sample: MeasurementSample| sample.vbus_uv),
            )
            &&& statistics.current == none.with_all(
                samples.map_values(
                    |sample: MeasurementSample|
                        if sample.ibus_ua < 0 {
                            (-sample.ibus_ua) as i64
                        } else {
                            sample.ibus_ua
                        },
                ),
            )
            &&& statistics.power == none.with_all(
                samples.map_values(
                    |sample: MeasurementSample|
                        if sample.power_uw < 0 {
                            (-sample.power_uw) as i64
                        } else {
                            sample.power_uw
                        },
                ),
            )
        }),
    decreases samples.len(),
{
    if samples.len() > 0 {
        let front = samples.drop_last();
        assert forall|i: int| 0 <= i < front.len() implies (#[trigger] front[i]).ibus_ua > i64::MIN
            && front[i].power_uw > i64::MIN by {
            assert(front[i] == samples[i]);
        }
        law_session_statistics_read_the_three_channels(front);
        assert(samples[samples.len() - 1] == samples.last());
        assert(samples.map_values(
            |sample: MeasurementSample| sample.vbus_uv,
        ).drop_last() =~= front.map_values(|sample: MeasurementSample| sample.vbus_uv));
        assert(samples.map_values(
            |sample: MeasurementSample|
                if sample.ibus_ua < 0 {
                    (-sample.ibus_ua) as i64
                } else {
                    sample.ibus_ua
                },
        ).drop_last() =~= front.map_values(
            |sample: MeasurementSample|
                if sample.ibus_ua < 0 {
                    (-sample.ibus_ua) as i64
                } else {
                    sample.ibus_ua
                },
        ));
        assert(samples.map_values(
            |sample: MeasurementSample|
                if sample.power_uw < 0 {
                    (-sample.power_uw) as i64
                } else {
                    sample.power_uw
                },
        ).drop_last() =~= front.map_values(
            |sample: MeasurementSample|
                if sample.power_uw < 0 {
                    (-sample.power_uw) as i64
                } else {
                    sample.power_uw
                },
        ));
    }
}

/// A pause takes in both its ends: a reading at its beginning or at its end does
/// not count, and one before or behind every pause does.
pub proof fn law_a_pause_takes_in_both_its_ends(
    intervals: Seq<PauseInterval>,
    at: int,
    time: i64,
)
    requires
        0 <= at < intervals.len(),
        intervals[at].start_us <= intervals[at].end_us,
    ensures
        is_excluded(intervals[at].start_us, intervals),
        is_excluded(intervals[at].end_us, intervals),
        intervals[at].start_us <= time <= intervals[at].end_us ==> is_excluded(time, intervals),
        (forall|i: int|
            0 <= i < intervals.len() ==> time < #[trigger] intervals[i].start_us || time
                > intervals[i].end_us) ==> !is_excluded(time, intervals),
{
    assert(intervals[at].start_us <= intervals[at].end_us);
}

} // verus!
