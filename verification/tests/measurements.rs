//! Samples of the device and what accumulates over them.
use km003c_workbench::live::{apply_recording_offsets, LiveData, LIVE_POINTS};
use km003c_workbench::measurement::{
    elapsed_ticks, GraphSampleRate, MeasurementAccumulator, MeasurementSample, PlotMetric, RawSample,
    MICRO_HOUR_UNITS,
};
use km003c_workbench::recording::RecordingOffsets;
use km003c_workbench::statistics::{RecordingSessionStatistics, RunningMetricStatistics};

fn sample(sequence: u16, voltage_v: f64, current_a: f64) -> RawSample {
    RawSample {
        sequence,
        marker: 0x1234,
        vbus_uv: (voltage_v * 1_000_000.0) as i64,
        ibus_ua: (current_a * 1_000_000.0) as i64,
        power_uw: (voltage_v * current_a * 1_000_000.0) as i64,
        cc1_uv: 1_000_000,
        cc2_uv: 2_000_000,
        dp_uv: 600_000,
        dm_uv: 500_000,
    }
}

/// An amount in microampere hours or microwatt hours.
fn micro_hours(amount: i128) -> f64 {
    amount as f64 / MICRO_HOUR_UNITS as f64
}

fn pushed(
    accumulator: &mut MeasurementAccumulator,
    raw: RawSample,
    rate: GraphSampleRate,
) -> MeasurementSample {
    accumulator.push(raw, rate).expect("the sample continues the sequence")
}

#[test]
fn integrates_charge_and_energy_from_device_time() {
    let mut accumulator = MeasurementAccumulator::default();
    pushed(&mut accumulator, sample(0, 10.0, 2.0), GraphSampleRate::Sps2);
    let second = pushed(&mut accumulator, sample(500, 10.0, 2.0), GraphSampleRate::Sps2);

    assert_eq!(second.elapsed_us, 500_000);
    assert!((micro_hours(second.charge) - 277.777_777).abs() < 0.000_001);
    assert!((micro_hours(second.energy) - 2_777.777_777).abs() < 0.000_001);
    assert!((micro_hours(second.charge_throughput) - 277.777_777).abs() < 0.000_001);
    assert!((micro_hours(second.energy_throughput) - 2_777.777_777).abs() < 0.000_001);
    assert_eq!(second.missing_samples, 0);
    // Exactly (2 A + 2 A) over half a second.
    assert_eq!(second.charge, 4_000_000 * 500_000);
}

#[test]
fn interpolates_across_gaps_and_records_their_quality() {
    let mut accumulator = MeasurementAccumulator::default();
    pushed(&mut accumulator, sample(0, 10.0, 1.0), GraphSampleRate::Sps50);
    let after_gap = pushed(&mut accumulator, sample(60, 10.0, 3.0), GraphSampleRate::Sps50);

    assert_eq!(after_gap.missing_samples, 2);
    assert_eq!(after_gap.gap_duration_us, 40_000);
    assert_eq!(after_gap.cumulative_missing_samples, 2);
    assert_eq!(after_gap.cumulative_interpolated_duration_us, 40_000);
    assert!(after_gap.interpolated);
    assert!((micro_hours(after_gap.charge) - 33.333_333).abs() < 0.000_001);
}

#[test]
fn signed_and_absolute_metrics_are_distinct() {
    let mut accumulator = MeasurementAccumulator::default();
    let measurement = pushed(&mut accumulator, sample(0, 5.0, -2.0), GraphSampleRate::Sps10);

    let shown = |metric: PlotMetric| {
        metric.value(&measurement) as f64 / metric.units_per_symbol() as f64
    };
    assert_eq!(shown(PlotMetric::Current), 2.0);
    assert_eq!(shown(PlotMetric::SignedCurrent), -2.0);
    assert_eq!(shown(PlotMetric::Power), 10.0);
    assert_eq!(shown(PlotMetric::SignedPower), -10.0);
    assert_eq!(shown(PlotMetric::Voltage), 5.0);
    assert_eq!(shown(PlotMetric::Cc2), 2.0);
}

#[test]
fn discards_duplicate_and_out_of_order_sequence_samples() {
    let mut accumulator = MeasurementAccumulator::default();
    pushed(&mut accumulator, sample(1_000, 5.0, 1.0), GraphSampleRate::Sps1000);

    assert!(accumulator.push(sample(1_000, 50.0, 10.0), GraphSampleRate::Sps1000).is_none());
    assert!(accumulator.push(sample(990, 50.0, 10.0), GraphSampleRate::Sps1000).is_none());

    let next = pushed(&mut accumulator, sample(1_001, 5.0, 1.0), GraphSampleRate::Sps1000);
    assert_eq!(next.elapsed_us, 1_000);
    assert_eq!(next.discarded_sequence_samples, 2);
    assert_eq!(next.cumulative_discarded_sequence_samples, 2);
    assert!((micro_hours(next.charge) - 0.277_777).abs() < 0.000_001);
}

#[test]
fn a_run_with_a_discarded_sample_measures_what_a_run_without_it_does() {
    let rate = GraphSampleRate::Sps1000;
    let start = [sample(10, 5.0, 1.0), sample(11, 5.0, 1.5)];
    let extra = sample(11, 50.0, 9.0);
    let later = [sample(12, 5.0, 2.0), sample(12, 9.0, 9.0), sample(15, 5.0, 2.0), sample(16, 4.0, 1.0)];

    let mut with = MeasurementAccumulator::default();
    let mut without = MeasurementAccumulator::default();
    for raw in start {
        assert_eq!(with.push(raw, rate), without.push(raw, rate));
    }
    assert!(with.push(extra, rate).is_none());
    let mut first = true;
    for raw in later {
        match (with.push(raw, rate), without.push(raw, rate)) {
            (Some(one), Some(other)) => {
                let expected = MeasurementSample {
                    discarded_sequence_samples: other.discarded_sequence_samples + u32::from(first),
                    cumulative_discarded_sequence_samples: other.cumulative_discarded_sequence_samples + 1,
                    ..other
                };
                assert_eq!(one, expected);
                first = false;
            }
            (one, other) => assert!(one.is_none() && other.is_none()),
        }
    }
    assert!(!first);
}

#[test]
fn accepts_sequence_counter_rollover() {
    let mut accumulator = MeasurementAccumulator::default();
    pushed(&mut accumulator, sample(u16::MAX, 5.0, 1.0), GraphSampleRate::Sps1000);
    let after_rollover = pushed(&mut accumulator, sample(0, 5.0, 1.0), GraphSampleRate::Sps1000);

    assert_eq!(after_rollover.elapsed_us, 1_000);
    assert_eq!(after_rollover.cumulative_discarded_sequence_samples, 0);
}

#[test]
fn throughput_stays_positive_when_direction_changes() {
    let mut accumulator = MeasurementAccumulator::default();
    pushed(&mut accumulator, sample(0, 5.0, -1.0), GraphSampleRate::Sps1000);
    let zero_crossing = pushed(&mut accumulator, sample(1, 5.0, 1.0), GraphSampleRate::Sps1000);

    assert_eq!(micro_hours(zero_crossing.charge), 0.0);
    assert_eq!(micro_hours(zero_crossing.energy), 0.0);
    assert!((micro_hours(zero_crossing.charge_throughput) - 0.277_777).abs() < 0.000_001);
    assert!((micro_hours(zero_crossing.energy_throughput) - 1.388_888).abs() < 0.000_001);
}

#[test]
fn a_new_start_keeps_the_totals_and_the_count_of_discarded_samples() {
    let mut accumulator = MeasurementAccumulator::default();
    pushed(&mut accumulator, sample(0, 10.0, 2.0), GraphSampleRate::Sps50);
    pushed(&mut accumulator, sample(20, 10.0, 2.0), GraphSampleRate::Sps50);
    assert!(accumulator.push(sample(20, 1.0, 1.0), GraphSampleRate::Sps50).is_none());
    assert_eq!(accumulator.cumulative_discarded_sequence_samples(), 1);
    accumulator.reset_continuity();
    let resumed = pushed(&mut accumulator, sample(7_000, 10.0, 2.0), GraphSampleRate::Sps50);
    // The pause takes no time and adds nothing.
    assert_eq!(resumed.elapsed_us, 20_000);
    assert_eq!(resumed.charge, 4_000_000 * 20_000);
    assert_eq!(accumulator.samples(), 3);
    accumulator.reset();
    assert_eq!(accumulator.samples(), 0);
    let first = pushed(&mut accumulator, sample(9, 1.0, 1.0), GraphSampleRate::Sps50);
    assert_eq!((first.elapsed_us, first.sample_index, first.charge), (0, 0, 0));
}

#[test]
fn rates_know_their_steps() {
    assert_eq!(GraphSampleRate::Sps2.hertz(), 2);
    assert_eq!(GraphSampleRate::Sps2.sequence_step(), 500);
    assert_eq!(GraphSampleRate::Sps10.sequence_step(), 100);
    assert_eq!(GraphSampleRate::Sps50.sequence_step(), 20);
    assert_eq!(GraphSampleRate::Sps1000.sequence_step(), 1);
    assert_eq!(elapsed_ticks(65_530, 4), 10);
    assert_eq!(GraphSampleRate::Sps1000.missing_samples(10, 13), 2);
    assert_eq!(GraphSampleRate::Sps50.missing_samples(0, 20), 0);
}

#[test]
fn running_statistics_report_minimum_average_and_maximum() {
    let mut statistics = RunningMetricStatistics::default();
    assert!(statistics.readout().is_none());
    statistics.push(9_000_000);
    statistics.push(12_000_000);
    statistics.push(6_000_000);
    let readout = statistics.readout().expect("statistics should contain values");
    assert_eq!(readout.minimum, 6_000_000);
    assert_eq!(readout.sum / readout.count as i128, 9_000_000);
    assert_eq!(readout.maximum, 12_000_000);
}

#[test]
fn session_statistics_follow_all_three_channels() {
    let mut accumulator = MeasurementAccumulator::default();
    let first = pushed(&mut accumulator, sample(0, 5.0, -2.0), GraphSampleRate::Sps50);
    let second = pushed(&mut accumulator, sample(20, 7.0, 1.0), GraphSampleRate::Sps50);
    let statistics = RecordingSessionStatistics::from_measurements(&vec![first, second]);
    assert_eq!(statistics.voltage.readout().unwrap().minimum, 5_000_000);
    // Currents and powers count by their size.
    assert_eq!(statistics.current.readout().unwrap().minimum, 1_000_000);
    assert_eq!(statistics.current.readout().unwrap().maximum, 2_000_000);
    assert_eq!(statistics.power.readout().unwrap().sum, 17_000_000);
}

#[test]
fn live_data_keep_the_newest_samples_and_count_them_all() {
    let mut live = LiveData::new();
    assert_eq!(live.max_points, LIVE_POINTS);
    live.max_points = 3;
    let mut accumulator = MeasurementAccumulator::default();
    let batch: Vec<MeasurementSample> = (0..5)
        .map(|index| pushed(&mut accumulator, sample(index * 20, 9.0, -1.0), GraphSampleRate::Sps50))
        .collect();
    // Two batches do what one does.
    live.append(&batch[..2].to_vec());
    live.append(&batch[2..].to_vec());
    assert_eq!(live.points.len(), 3);
    assert_eq!(live.points[0], batch[2]);
    assert_eq!(live.latest(), Some(batch[4]));
    assert_eq!(live.total_samples, 5);
    assert_eq!(live.reading.current_ua, -1_000_000);
    assert_eq!(live.reading.values().current, 1_000_000);
    assert_eq!(live.end_time(20_000), 60_000);

    let mut whole = LiveData::new();
    whole.max_points = 3;
    whole.append(&batch);
    assert_eq!(whole.points, live.points);
    assert_eq!(whole.history.points, live.history.points);
}

#[test]
fn samples_of_a_continued_session_go_on_from_its_end() {
    let mut accumulator = MeasurementAccumulator::default();
    pushed(&mut accumulator, sample(0, 5.0, 1.0), GraphSampleRate::Sps50);
    let second = pushed(&mut accumulator, sample(20, 5.0, 1.0), GraphSampleRate::Sps50);
    let offsets = RecordingOffsets {
        elapsed_us: 1_000_000,
        sample_index: 50,
        charge: 7,
        energy: 8,
        charge_throughput: 9,
        energy_throughput: 10,
        cumulative_missing_samples: 11,
        cumulative_interpolated_duration_us: 12,
        cumulative_discarded_sequence_samples: 13,
    };
    let shifted = apply_recording_offsets(second, offsets);
    assert_eq!(shifted.elapsed_us, 1_020_000);
    assert_eq!(shifted.sample_index, 51);
    assert_eq!(shifted.charge, second.charge + 7);
    assert_eq!(shifted.energy, second.energy + 8);
    assert_eq!(shifted.charge_throughput, second.charge_throughput + 9);
    assert_eq!(shifted.energy_throughput, second.energy_throughput + 10);
    assert_eq!(shifted.cumulative_missing_samples, 11);
    assert_eq!(shifted.cumulative_interpolated_duration_us, 12);
    assert_eq!(shifted.cumulative_discarded_sequence_samples, 13);
    assert_eq!(shifted.vbus_uv, second.vbus_uv);
}
