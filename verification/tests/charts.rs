//! Charts: viewports, lines, scales and the readouts over them.
use km003c_workbench::chart::{
    chart_time, display_time, follow, minimum_drag_width, nearest_time_index, NavigatorDrag, NavigatorSelection,
    PlotPoint,
};
use km003c_workbench::chart_state::{ChartState, VisibleSeries};
use km003c_workbench::i18n::Language;
use km003c_workbench::lines::Channel;
use km003c_workbench::measurement::MICRO_HOUR_UNITS;
use km003c_workbench::navigator::{ChannelValues, CursorReadout, FineValues, NavigatorHistory, FINE, FIRST_BUCKET_US};
use km003c_workbench::options::{ChartFollowMode, DisplayFilter, PlotSource, SampleRateOption, TimeWindow};
use km003c_workbench::presentation::{
    format_capacity, format_cumulative_energy, format_plot_time, format_recording_duration, nice_axis_ceiling,
    AxisScale, EnergyPresentation, EngineeringPresentation, MeasurementUnit,
};
use km003c_workbench::statistics::{calculate_scope_statistics, PauseInterval, ScopeReading};
use km003c_workbench::trace::{apply_display_filter, min_max_downsample};

fn selection(start_us: i64, end_us: i64) -> NavigatorSelection {
    NavigatorSelection { start_us, end_us }
}

fn point(time_us: i64, value: i128) -> PlotPoint {
    PlotPoint { time_us, value }
}

/// Millionths of a unit in the unit that keeps fractions.
fn fine(value: i64) -> i128 {
    i128::from(value) * FINE
}

fn micro_hours(amount: i128) -> i128 {
    amount * MICRO_HOUR_UNITS
}

#[test]
fn low_ranges_use_engineering_units_and_keep_distinct_ticks() {
    let current_scale = AxisScale::from_visible_max(fine(3_000));
    assert_eq!(current_scale.maximum, fine(5_000) as u128);
    // Places on the axis are counted in billionths of its length.
    assert!((current_scale.normalize(fine(4_000)) as f64 / 1e9 - 0.8).abs() < f64::EPSILON);
    assert!((current_scale.denormalize(800_000_000) as f64 / 1e15 - 0.004).abs() < f64::EPSILON);

    let current_axis = current_scale.presentation(MeasurementUnit::Current);
    assert_eq!(current_axis.symbol, "mA");
    assert_eq!(current_axis.format_value(fine(1_000)), "1.00");
    assert_eq!(current_axis.format_value(fine(4_000)), "4.00");

    let power_axis = AxisScale::from_visible_max(fine(40)).presentation(MeasurementUnit::Power);
    assert_eq!(power_axis.symbol, "µW");
    assert_ne!(power_axis.format_value(fine(10)), power_axis.format_value(fine(20)));
}

#[test]
fn axis_ceilings_are_one_two_or_five_with_zeros() {
    let ceiling = |value: i64| nice_axis_ceiling(fine(value) as u128) / FINE as u128;
    assert_eq!(ceiling(0), 1_000_000);
    assert_eq!(ceiling(1), 1);
    assert_eq!(ceiling(1_000_001), 2_000_000);
    assert_eq!(ceiling(2_100_000), 5_000_000);
    assert_eq!(ceiling(5_000_000), 5_000_000);
    assert_eq!(ceiling(5_000_001), 10_000_000);
    assert_eq!(ceiling(9_500_000), 10_000_000);
    // On an axis six per cent stay free above the line.
    let end = |value: i64| AxisScale::from_visible_max(fine(value)).maximum / FINE as u128;
    assert_eq!((end(4_700_000), end(5_000_000)), (5_000_000, 10_000_000));
    assert_eq!((end(9_000_000), end(9_500_000)), (10_000_000, 20_000_000));
    assert_eq!((end(0), end(-1)), (1_000_000, 1_000_000));
    let scale = AxisScale::from_visible_max(fine(9_000_000));
    assert_eq!((scale.normalize(-1), scale.normalize(fine(11_000_000))), (0, FINE as u128));
}

#[test]
fn values_are_told_in_the_unit_that_suits_them() {
    let volts = EngineeringPresentation::for_value(fine(9_012_345), MeasurementUnit::Voltage);
    assert_eq!(volts.symbol, "V");
    let milliamps = EngineeringPresentation::for_value(fine(12_345), MeasurementUnit::Current);
    assert_eq!(milliamps.symbol, "mA");
    assert_eq!(MeasurementUnit::Power.milli_symbol(), "mW");
    assert_eq!(MeasurementUnit::Voltage.micro_symbol(), "µV");
    let volts = EngineeringPresentation { multiplier: 1, symbol: "V", decimals: 2 };
    assert_eq!(volts.format_value(fine(-9_012_345)), "-9.01");
    // Fractions of a millionth count.
    let microvolts = EngineeringPresentation { multiplier: 1_000_000, symbol: "µV", decimals: 2 };
    assert_eq!(microvolts.format_value(fine(3) / 2), "1.50");
    assert_eq!(microvolts.format_value(-fine(1) / 3), "-0.33");
}

#[test]
fn recording_summary_formats_match_instrument_toolbar() {
    assert_eq!(format_recording_duration(6_800), "00:00:06.8");
    assert_eq!(format_recording_duration(3_661_000), "01:01:01.0");
    assert_eq!(format_cumulative_energy(micro_hours(17_300)), "17.300 mWh");
    assert_eq!(format_cumulative_energy(micro_hours(1_234_567)), "1.2346 Wh");
    assert_eq!(format_capacity(micro_hours(93_070)), "93.070 mAh");
    let energy = EnergyPresentation::for_values(&vec![micro_hours(-856_100)]);
    assert_eq!(energy.format_directional(micro_hours(-856_100)), "↓ 856.100 mWh");
    let shared_energy = EnergyPresentation::for_values(&vec![micro_hours(17_300), micro_hours(-856_100)]);
    assert_eq!(shared_energy.format(micro_hours(17_300)), "17.300 mWh");
    assert_eq!(shared_energy.format_directional(micro_hours(-856_100)), "↓ 856.100 mWh");
}

#[test]
fn amounts_read_like_the_doubles_nearest_to_them() {
    // 1.0635 lies just below the tie as a double.
    assert_eq!(format_capacity(micro_hours(2_127) / 2), "1.063 mAh");
    assert_eq!(format_capacity(-micro_hours(2_127) / 2), "-1.063 mAh");
    assert_eq!(format_cumulative_energy(micro_hours(2_127) / 2), "1.063 mWh");
    // A tie that a double holds exactly goes to the even digit.
    assert_eq!(format_cumulative_energy(micro_hours(1) / 4), "0.2 µWh");
    assert_eq!(format_cumulative_energy(0), "0.0 µWh");
    assert_eq!(format_cumulative_energy(micro_hours(-5)), "0.0 µWh");
    // One unit short of a watt hour is still told in milliwatt hours.
    assert_eq!(format_cumulative_energy(micro_hours(1_000_000) - 1), "1000.000 mWh");
    assert_eq!(format_cumulative_energy(micro_hours(1_000_000)), "1.0000 Wh");
    assert_eq!(format_capacity(i128::MAX), "23630719925065168715776.0000 Ah");
}

#[test]
fn plot_times_are_told_to_the_tenth() {
    assert_eq!(format_plot_time(12_340_000), "00:00:12.3");
    assert_eq!(format_plot_time(3_661_990_000), "01:01:01.9");
    assert_eq!(format_plot_time(360_000_000_000), "100:00:00.0");
}

#[test]
fn navigator_selection_clamps_without_losing_its_range() {
    let clamped = selection(8_000_000, 14_000_000).clamped(10_000_000);
    assert_eq!(clamped.start_us, 4_000_000);
    assert_eq!(clamped.end_us, 10_000_000);
}

#[test]
fn selections_move_and_zoom_inside_the_whole() {
    let shown = selection(2_000_000, 4_000_000);
    assert_eq!(shown.width(), 2_000_000);
    assert!(shown.contains(2_000_000) && shown.contains(4_000_000) && !shown.contains(4_000_001));
    assert_eq!(shown.shifted(1_000_000, 10_000_000), selection(3_000_000, 5_000_000));
    assert_eq!(shown.shifted(-9_000_000, 10_000_000), selection(0, 2_000_000));
    assert_eq!(shown.with_start(3_000_000, 20_000, 10_000_000), selection(3_000_000, 4_000_000));
    assert_eq!(shown.with_end(1_000_000, 20_000, 10_000_000), selection(2_000_000, 2_020_000));
    // The point under the pointer stays where it is.
    assert_eq!(shown.zoomed(3_000_000, 1_000_000, 10_000_000), selection(2_500_000, 3_500_000));
    assert_eq!(NavigatorDrag::begun(true, false), NavigatorDrag::Start);
    assert_eq!(NavigatorDrag::begun(false, true), NavigatorDrag::End);
    assert_eq!(NavigatorDrag::begun(false, false), NavigatorDrag::Range);
    assert_eq!(
        NavigatorDrag::Range.dragged(shown, 0, 500_000, 20_000, 10_000_000),
        selection(2_500_000, 4_500_000)
    );
    assert!(minimum_drag_width(SampleRateOption::Sps2) > minimum_drag_width(SampleRateOption::Sps1000));
    assert_eq!(chart_time(u64::MAX), i64::MAX);
    assert_eq!(display_time(5, 7), 0);
}

#[test]
fn following_shows_the_end_of_the_recording() {
    assert_eq!(
        follow(ChartFollowMode::FullSession, TimeWindow::Sec10, None, 60_000_000),
        selection(0, 60_000_000)
    );
    assert_eq!(
        follow(ChartFollowMode::LatestWindow, TimeWindow::Sec10, None, 60_000_000),
        selection(50_000_000, 60_000_000)
    );
    assert_eq!(
        follow(ChartFollowMode::Manual, TimeWindow::Sec10, Some(selection(1_000_000, 3_000_000)), 60_000_000),
        selection(1_000_000, 3_000_000)
    );
}

#[test]
fn display_filter_rejects_single_sample_spikes_without_touching_raw_points() {
    let points = vec![point(0, 1), point(1, 1), point(2, 99), point(3, 1), point(4, 1)];
    let raw = apply_display_filter(points.clone(), DisplayFilter::Raw);
    let filtered = apply_display_filter(points.clone(), DisplayFilter::Median5);
    assert_eq!(raw, points);
    assert_eq!(filtered[2], point(2, 1));
    assert_eq!(filtered.first(), Some(&point(0, 1)));
    assert_eq!(filtered.last(), Some(&point(4, 1)));
}

#[test]
fn window_statistics_exclude_pause_intervals() {
    let readings: Vec<ScopeReading> = (0..=5)
        .map(|second| ScopeReading {
            time_us: second * 1_000_000,
            energy_throughput: micro_hours(second as i128 * 10),
            charge_throughput: micro_hours(second as i128),
        })
        .collect();
    let statistics = calculate_scope_statistics(
        &readings,
        selection(1_000_000, 5_000_000),
        &vec![PauseInterval { start_us: 2_000_000, end_us: 3_000_000 }],
    );
    assert_eq!(statistics.points, 3);
    assert_eq!(statistics.duration_us, 1_000_000);
    assert_eq!(statistics.cumulative_energy, micro_hours(10));
    assert_eq!(statistics.capacity, micro_hours(1));
}

#[test]
fn navigator_history_compacts_but_keeps_the_whole_time_span() {
    let mut history = NavigatorHistory::with_limit(4);
    for index in 0..40_i64 {
        history.push_values(
            index * 110_000,
            ChannelValues { voltage: 9_000_000, current: (1 + index) * 1_000_000, power: (9 + index) * 1_000_000 },
        );
    }
    assert!(history.points.len() <= 4);
    assert!(history.bucket_width_us > FIRST_BUCKET_US);
    assert_eq!(history.points.last().unwrap().time_us, 39 * 110_000);
    assert!(history.points.first().unwrap().time_us < history.points.last().unwrap().time_us);
}

#[test]
fn buckets_are_divided_as_seconds() {
    let mut history = NavigatorHistory::with_limit(8);
    let values = ChannelValues { voltage: 1, current: 2, power: 3 };
    // 0.3 / 0.1 lies just below 3.
    history.push_values(250_000, values);
    history.push_values(300_000, values);
    assert_eq!(history.points.len(), 1);
    assert_eq!(history.active_bucket, Some(2));
    history.push_values(300_001, values);
    assert_eq!(history.active_bucket, Some(3));
    history.push_values(400_000, values);
    assert_eq!(history.active_bucket, Some(4));
    for time_us in [0_i64, 1, 100_000, 600_000, 700_000, 1_200_000, 86_400_000_000, i64::MAX] {
        let mut history = NavigatorHistory::with_limit(4);
        history.push_values(time_us, values);
        let expected = (time_us as f64 / 1_000_000.0 / 0.1).floor() as i64;
        assert_eq!(history.active_bucket, Some(expected), "{time_us}");
    }
}

#[test]
fn overviews_start_anew_when_time_goes_back() {
    let mut history = NavigatorHistory::with_limit(8);
    let values = ChannelValues { voltage: 1, current: 2, power: 3 };
    history.push_values(5_000_000, values);
    history.push_values(1_000_000, values);
    assert_eq!(history.points.len(), 1);
    assert_eq!(history.points[0].time_us, 1_000_000);
    assert_eq!(
        history.readout_at(9),
        Some(CursorReadout { time_us: 1_000_000, values: values.fine(), approximate: true })
    );
    history.clear();
    assert!(history.readout_at(9).is_none());
}

#[test]
fn averages_keep_their_fractions_through_every_merge() {
    let mut history = NavigatorHistory::with_limit(4);
    let values = |voltage: i64| ChannelValues { voltage, current: 0, power: 0 };
    // Two samples share a bucket.
    history.push_values(0, values(1));
    history.push_values(1, values(2));
    assert_eq!(history.points[0].values.voltage, fine(3) / 2);
    // Three more buckets fill the overview, the next one halves it.
    for (index, voltage) in [4, 1, 1, 7].into_iter().enumerate() {
        history.push_values((index as i64 + 1) * 110_000, values(voltage));
    }
    let averages: Vec<i128> = history.points.iter().map(|point| point.values.voltage).collect();
    assert_eq!(averages, vec![fine(11) / 4, fine(1), fine(7)]);
    assert_eq!(history.readout_at(0).unwrap().values.voltage, 2_750_000_000);
    assert_eq!(history.points[0].minimums.voltage, 1);
    assert_eq!(history.points[0].maximums.voltage, 4);
}

#[test]
fn reduced_lines_keep_the_order_of_their_points_whatever_their_times() {
    // Times that go back and forth.
    let points: Vec<PlotPoint> =
        (0..500_i64).map(|index| point(index * 37 % 101, i128::from(index * 53 % 97))).collect();
    let reduced = min_max_downsample(points.clone(), 60);
    assert!(reduced.len() <= 60);
    let mut rest = points.iter();
    assert!(reduced.iter().all(|kept| rest.any(|point| point == kept)));
}

#[test]
fn nearest_time_lookup_uses_sorted_data_and_prefers_earlier_ties() {
    let times = [0, 1_000_000, 2_000_000, 3_000_000, 4_000_000];
    assert_eq!(nearest_time_index(times.len(), 2_600_000, |index| times[index]), Some(3));
    assert_eq!(nearest_time_index(times.len(), 1_500_000, |index| times[index]), Some(1));
    assert_eq!(nearest_time_index(times.len(), 99_000_000, |index| times[index]), Some(4));
    assert_eq!(nearest_time_index(0, 0, |_| 0), None);
}

#[test]
fn pixel_downsampling_preserves_endpoints_and_short_spikes() {
    let mut points: Vec<PlotPoint> = (0..1_000).map(|index| point(index, 1)).collect();
    points[501].value = 99;
    let reduced = min_max_downsample(points, 100);
    assert!(reduced.len() <= 100);
    assert_eq!(reduced.first(), Some(&point(0, 1)));
    assert_eq!(reduced.last(), Some(&point(999, 1)));
    assert!(reduced.contains(&point(501, 99)));
    assert!(reduced.windows(2).all(|pair| pair[0].time_us <= pair[1].time_us));
}

#[test]
fn short_lines_are_drawn_whole() {
    let points = vec![point(0, 3), point(1, 1), point(2, 2)];
    assert_eq!(min_max_downsample(points.clone(), 100), points);
}

#[test]
fn some_line_is_always_drawn() {
    let mut series = VisibleSeries::all();
    series.toggle(Channel::Voltage);
    series.toggle(Channel::Current);
    series.toggle(Channel::Power);
    assert!(!series.shows(Channel::Voltage) && !series.shows(Channel::Current) && series.shows(Channel::Power));
    let nothing = VisibleSeries { voltage: false, current: false, power: false };
    assert_eq!(nothing.or_all(), VisibleSeries::all());
}

#[test]
fn manual_views_stay_until_they_are_left() {
    let mut chart = ChartState::new();
    chart.follow_window(TimeWindow::Sec10);
    assert_eq!(chart.ensure_chart_selection(60_000_000), selection(50_000_000, 60_000_000));
    chart.pan(selection(50_000_000, 60_000_000), -5_000_000, 60_000_000);
    assert_eq!(chart.mode, ChartFollowMode::Manual);
    assert_eq!(chart.ensure_chart_selection(90_000_000), selection(45_000_000, 55_000_000));
    chart.back_to_latest();
    assert_eq!(chart.ensure_chart_selection(90_000_000), selection(80_000_000, 90_000_000));
    chart.show_full_session(90_000_000);
    assert!(chart.is_everything(selection(0, 90_000_000), 90_000_000));
    chart.show_loaded(PlotSource::Offline);
    assert_eq!((chart.source, chart.window), (PlotSource::Offline, TimeWindow::All));
    chart.hover(CursorReadout {
        time_us: 5,
        values: FineValues { voltage: 1, current: 1, power: 1 },
        approximate: false,
    });
    assert_eq!(chart.pin_label(Language::English, true), "Pin");
    chart.toggle_pin();
    assert_eq!(chart.pin_label(Language::SimplifiedChinese, false), "取消固定游标");
    // A pinned cursor keeps what it reads.
    chart.hover(CursorReadout {
        time_us: 9,
        values: FineValues { voltage: 2, current: 2, power: 2 },
        approximate: false,
    });
    assert_eq!(chart.cursor.unwrap().time_us, 5);
}
