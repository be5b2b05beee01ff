//! The workbench as a whole: messages, sources, readouts and preferences.
use km003c_workbench::cards::{
    bus_label, compact_signal_value, cursor_time_label, cursor_value_label, instrument_card, legend_label, scope_energy_unit, scope_row,
    signal_value, totals_card,
};
use km003c_workbench::chart::NavigatorSelection;
use km003c_workbench::connection::ConnectionPhase;
use km003c_workbench::demo::{demo_device, demo_due, demo_log, demo_sample, DemoReading};
use km003c_workbench::i18n::Language;
use km003c_workbench::imports::ImportedRecording;
use km003c_workbench::lines::{axis_for, Channel};
use km003c_workbench::measurement::{GraphSampleRate, MeasurementSample, PlotMetric, MICRO_HOUR_UNITS};
use km003c_workbench::navigator::{ChannelValues, CursorReadout, FineValues, NavigatorHistory, FINE};
use km003c_workbench::offline::{CatalogEntry, OfflineRecording};
use km003c_workbench::options::{
    AutoCaptureRule, ChartFollowMode, DisplayFilter, PlotSource, RecordingPhase, SampleRateOption, TimeWindow,
};
use km003c_workbench::preferences::AppPreferences;
use km003c_workbench::presentation::{AxisScale, MeasurementUnit};
use km003c_workbench::pd_decoder::PdEvent;
use km003c_workbench::port::{PortNotice, PortStatus};
use km003c_workbench::recording::RecordingMetadata;
use km003c_workbench::recording_session::RecordingSessionMetadataV1;
use km003c_workbench::sources::AccumulatedReadout;
use km003c_workbench::statistics::{MetricStatistics, ScopeStatistics};
use km003c_workbench::streaming::UsbCommand;
use km003c_workbench::utc::UtcInstant;
use km003c_workbench::workbench::{
    repaint_delay_ms, Clock, UsbMessage, Workbench, MAX_USB_MESSAGES_PER_FRAME,
};

fn micro_hours(amount: i128) -> i128 {
    amount * MICRO_HOUR_UNITS
}

fn clock(now_us: u64) -> Clock {
    Clock { now_us, utc: UtcInstant { seconds: 1_788_000_000, nanos: 0 } }
}

fn test_measurement(energy_throughput_uwh: i128) -> MeasurementSample {
    MeasurementSample {
        elapsed_us: 1_000,
        sample_index: 0,
        sequence: 0,
        marker: 0xD3,
        sample_rate_hz: 50,
        missing_samples: 0,
        gap_duration_us: 0,
        interpolated: false,
        cumulative_missing_samples: 0,
        cumulative_interpolated_duration_us: 0,
        discarded_sequence_samples: 0,
        cumulative_discarded_sequence_samples: 0,
        vbus_uv: 9_000_000,
        ibus_ua: 1_000_000,
        power_uw: 9_000_000,
        charge: micro_hours(1),
        energy: micro_hours(energy_throughput_uwh),
        charge_throughput: micro_hours(1),
        energy_throughput: micro_hours(energy_throughput_uwh),
        cc1_uv: 620_000,
        cc2_uv: 40_000,
        dp_uv: 540_000,
        dm_uv: 510_000,
    }
}

/// A stored recording of three samples.
fn stored() -> OfflineRecording {
    OfflineRecording {
        filename: "A01.d".to_string(),
        samples: (0..3)
            .map(|index| MeasurementSample {
                elapsed_us: index * 1_000_000,
                sample_index: index,
                ..test_measurement(0)
            })
            .collect(),
    }
}

fn selection(start_us: i64, end_us: i64) -> NavigatorSelection {
    NavigatorSelection { start_us, end_us }
}

#[test]
fn live_waveform_is_only_visible_during_an_explicit_recording() {
    let mut workbench = Workbench::new(false, 0);
    workbench.live.points.push_back(test_measurement(0));
    assert!(!workbench.monitor_chart_visible());

    workbench.control.core.session = true;
    assert!(workbench.monitor_chart_visible());
    workbench.control.core.session = false;
    workbench.control.core.last.duration_us = Some(10_000_000);
    assert!(!workbench.monitor_chart_visible());

    workbench.chart.source = PlotSource::Offline;
    workbench.offline.recording = Some(stored());
    assert!(workbench.monitor_chart_visible());
}

#[test]
fn navigator_history_keeps_short_spikes_after_progressive_compaction() {
    let mut history = NavigatorHistory::with_limit(4);
    for index in 0..40_i64 {
        let spike = if index == 17 { 99 } else { 1 };
        history.push_values(
            index * 110_000,
            ChannelValues {
                voltage: 9_000_000,
                current: spike * 1_000_000,
                power: 9 * spike * 1_000_000,
            },
        );
    }
    assert!(history.points.iter().any(|point| point.maximums.current == 99_000_000));

    let mut workbench = Workbench::new(false, 0);
    workbench.live.history = history;
    let overview = workbench.navigator_vip_points(Channel::Current, 100);
    assert!(overview.iter().any(|point| point.value == 99_000_000 * FINE));
}

#[test]
fn recording_full_session_follow_uses_a_zero_origin_and_expands_each_frame() {
    let mut workbench = Workbench::new(false, 0);
    let mut origin = test_measurement(0);
    origin.elapsed_us = 80_000_000;
    let mut later = test_measurement(1);
    later.elapsed_us = 100_000_000;
    workbench.live.points.extend([origin, later]);
    workbench.control.core.plot_origin_us = 80_000_000;
    workbench.control.core.session = true;
    workbench.chart.mode = ChartFollowMode::FullSession;

    assert_eq!(workbench.source_end_time(), 20_000_000);
    let first_selection = workbench.ensure_chart_selection();
    assert_eq!(first_selection.start_us, 0);
    assert_eq!(first_selection.end_us, 20_000_000);
    assert_eq!(workbench.cursor_readout_at(0).unwrap().time_us, 0);

    let mut newest = test_measurement(2);
    newest.elapsed_us = 110_000_000;
    workbench.live.points.push_back(newest);
    let expanded = workbench.ensure_chart_selection();
    assert_eq!(expanded.start_us, 0);
    assert_eq!(expanded.end_us, 30_000_000);

    workbench.chart.mode = ChartFollowMode::Manual;
    workbench.chart.viewport.selection = Some(selection(5_000_000, 12_000_000));
    let mut while_reviewing = test_measurement(3);
    while_reviewing.elapsed_us = 120_000_000;
    workbench.live.points.push_back(while_reviewing);
    assert_eq!(workbench.ensure_chart_selection(), selection(5_000_000, 12_000_000));

    workbench.chart.resume_chart_following();
    assert_eq!(workbench.chart.mode, ChartFollowMode::LatestWindow);
    assert_eq!(workbench.ensure_chart_selection().end_us, 40_000_000);
}

#[test]
fn downloaded_offline_log_becomes_the_active_plot_source() {
    let mut workbench = Workbench::new(false, 0);
    workbench.metrics[0] = PlotMetric::Cc1;
    workbench.offline.busy = true;
    workbench.process_message(UsbMessage::OfflineLogDownloaded(stored()), true, clock(0));

    assert_eq!(workbench.chart.source, PlotSource::Offline);
    assert_eq!(workbench.chart.window, TimeWindow::All);
    assert_eq!(workbench.metrics[0], PlotMetric::Voltage);
    assert_eq!(workbench.offline.recording.as_ref().unwrap().samples.len(), 3);
    assert!(!workbench.offline.busy);
}

#[test]
fn empty_offline_catalog_clears_selection() {
    let mut workbench = Workbench::new(false, 0);
    workbench.offline.selected = Some(2);
    workbench.process_message(UsbMessage::OfflineCatalog(Vec::new()), true, clock(0));

    assert!(workbench.offline.catalog.is_empty());
    assert_eq!(workbench.offline.selected, None);
    assert!(workbench.offline.status.contains("没有离线记录"));
}

#[test]
fn catalogs_are_fetched_and_downloaded_one_at_a_time() {
    let mut workbench = Workbench::new(false, 0);
    assert_eq!(workbench.offline.request_offline_catalog(false, false), None);
    assert_eq!(
        workbench.offline.request_offline_catalog(true, false),
        Some(UsbCommand::RequestOfflineCatalog)
    );
    assert_eq!(workbench.offline.request_offline_catalog(true, false), None);
    workbench.process_message(
        UsbMessage::OfflineCatalog(vec![CatalogEntry { filename: "A01.d".to_string(), sample_count: 3 }]),
        true,
        clock(0),
    );
    assert_eq!(workbench.offline.selected, Some(0));
    assert_eq!(workbench.offline.download_selected_offline_log(true, true), None);
    assert_eq!(
        workbench.offline.download_selected_offline_log(true, false),
        Some(UsbCommand::DownloadOfflineLog(0))
    );
    workbench.process_message(UsbMessage::OfflineOperationFailed("timeout".to_string()), true, clock(0));
    assert!(!workbench.offline.busy);
    assert!(workbench.offline.status.contains("timeout"));
}

#[test]
fn preferences_keep_only_user_interface_choices() {
    let mut workbench = Workbench::new(false, 0);
    workbench.link.selected_rate = SampleRateOption::Sps1000;
    workbench.chart.window = TimeWindow::Min5;
    workbench.pd.panel_visible = false;
    workbench.control.rule = AutoCaptureRule {
        enabled: true,
        threshold_milli: 250,
        sustain_ms: 4_500,
        ..AutoCaptureRule::default()
    };
    workbench.chart.filter = DisplayFilter::Raw;
    let prefs = workbench.preferences();
    assert_eq!(prefs.selected_rate, SampleRateOption::Sps1000);
    assert_eq!(prefs.time_window, TimeWindow::Min5);
    assert!(!prefs.pd_panel_visible);
    assert!(prefs.auto_pause_enabled);
    assert_eq!(prefs.auto_pause_threshold_mw, 250);
    assert_eq!(prefs.auto_pause_delay_ms, 4_500);
    assert_eq!(prefs.display_filter, DisplayFilter::Raw);
    assert!(prefs.plot_metrics.iter().all(|metric| metric.supports_offline()));

    // Another workbench takes the choices over.
    let mut restored = Workbench::new(false, 0);
    restored.apply_preferences(prefs);
    let again = restored.preferences();
    assert_eq!(again.selected_rate, SampleRateOption::Sps1000);
    assert_eq!(again.time_window, TimeWindow::Min5);
    assert!(!again.pd_panel_visible && again.auto_pause_enabled);
    assert_eq!((again.auto_pause_threshold_mw, again.auto_pause_delay_ms), (250, 4_500));
    assert_eq!(again.display_filter, DisplayFilter::Raw);
}

#[test]
fn preferences_begin_with_safe_auto_pause_defaults() {
    let defaults = AppPreferences::default();
    assert!(!defaults.auto_pause_enabled);
    assert_eq!(defaults.auto_pause_threshold_mw, 100);
    assert_eq!(defaults.auto_pause_delay_ms, 3_000);
    assert_eq!(defaults.display_filter, DisplayFilter::Median5);
}

#[test]
fn demo_mode_has_obvious_deterministic_measurements() {
    let mut workbench = Workbench::new(true, 0);
    workbench.enable_demo_device(demo_device(), 0);
    let elapsed_us = 10_000_000_u64;
    assert!(demo_due(elapsed_us, elapsed_us - 1_000_000));
    assert!(!demo_due(elapsed_us, elapsed_us - 19_999));
    let t = elapsed_us as f64 / 1_000_000.0;
    let voltage = 9.0 + 0.22 * (t * 1.2).sin() + 0.04 * (t * 11.0).sin();
    let current = 1.35 + 0.18 * (t * 0.8).cos() + 0.03 * (t * 17.0).sin();
    let sample = demo_sample(
        workbench.live.latest(),
        DemoReading {
            elapsed_us,
            sequence: 0,
            vbus_uv: (voltage * 1_000_000.0) as i64,
            ibus_ua: (current * 1_000_000.0) as i64,
            power_uw: (voltage * current * 1_000_000.0) as i64,
        },
    );
    workbench.pending.push(sample);
    workbench.flush(clock(elapsed_us));

    assert!(workbench.link.demo);
    assert_eq!(workbench.link.phase, ConnectionPhase::Streaming);
    assert!(workbench.link.status.contains("演示数据"));
    assert_eq!(workbench.live.points.len(), 1);
    let shown = workbench.displayed_current_readout().values.voltage;
    assert!(shown > 8_000_000 * FINE && shown < 10_000_000 * FINE);
    let sample = workbench.live.points.back().unwrap();
    assert!(sample.charge_throughput > micro_hours(3_000));
    assert!(sample.energy_throughput > micro_hours(25_000));
    assert_eq!(demo_log()[0].summary, "Type-C attached (demo)");
    // Demonstrations never ask for a device.
    assert_eq!(workbench.link.request_connect(0), None);
    assert_eq!(workbench.link.maybe_retry_connection(u64::MAX), None);
}

#[test]
fn live_vip_readouts_do_not_require_a_recording() {
    let mut workbench = Workbench::new(false, 0);
    workbench.link.streaming = true;
    workbench.link.phase = ConnectionPhase::Streaming;
    let sample = test_measurement(0);
    workbench.pending.push(sample);
    workbench.flush(clock(0));

    assert!(!workbench.control.core.session);
    assert_eq!(workbench.instrument_readout_status(), "实时");
    let readout = workbench.displayed_current_readout();
    assert_eq!(readout.values.voltage, i128::from(sample.vbus_uv) * FINE);
    assert_eq!(readout.values.current, i128::from(sample.ibus_ua.abs()) * FINE);
    assert_eq!(readout.values.power, i128::from(sample.power_uw.abs()) * FINE);

    workbench.link.streaming = false;
    workbench.link.phase = ConnectionPhase::Disconnected;
    assert_eq!(workbench.instrument_readout_status(), "最后读数");
}

#[test]
fn usb_unlock_backlog_is_bounded_per_ui_frame() {
    let mut workbench = Workbench::new(false, 0);
    let mut queue: Vec<UsbMessage> = (0..MAX_USB_MESSAGES_PER_FRAME + 5)
        .map(|index| UsbMessage::ConnectionFailed(format!("queued-{index}")))
        .collect();
    workbench.begin_frame();
    while workbench.wants_message() {
        let Some(message) = queue.pop() else { break };
        workbench.process_message(message, true, clock(0));
    }

    assert!(workbench.has_backlog());
    assert!(!queue.is_empty());
    assert_eq!(queue.len(), 5);
    assert!(repaint_delay_ms(true, false, PlotSource::Live) < repaint_delay_ms(false, false, PlotSource::Live));
}

#[test]
fn cursor_readout_joins_voltage_current_and_power_at_nearest_sample() {
    let mut workbench = Workbench::new(false, 0);
    let mut first = test_measurement(1_000);
    first.elapsed_us = 1_000_000;
    let mut later = test_measurement(2_000);
    later.elapsed_us = 2_000_000;
    workbench.live.points.push_back(first);
    workbench.live.points.push_back(later);

    let readout = workbench.cursor_readout_at(1_800_000).expect("cursor should find a sample");
    assert_eq!(readout.time_us, 2_000_000);
    assert_eq!(readout.values.voltage, 9_000_000 * FINE);
    assert_eq!(readout.values.current, 1_000_000 * FINE);
    assert_eq!(readout.values.power, 9_000_000 * FINE);
    assert!(!readout.approximate);

    let accumulated = workbench.accumulated_readout().expect("accumulated metrics should be present");
    assert_eq!(accumulated.cumulative_energy, micro_hours(2_000));
    assert_eq!(accumulated.capacity, micro_hours(1));
    assert_eq!(accumulated.net_energy, micro_hours(2_000));
}

#[test]
fn cumulative_energy_remains_visible_for_reverse_power_flow() {
    let mut workbench = Workbench::new(false, 0);
    let mut sample = test_measurement(1_066_400);
    sample.energy = micro_hours(-1_066_400);
    sample.power_uw = -9_000_000;
    sample.ibus_ua = -1_000_000;
    sample.charge_throughput = micro_hours(116_622);
    workbench.live.points.push_back(sample);

    let accumulated =
        workbench.accumulated_readout().expect("reverse-flow sample should still expose cumulative totals");
    assert_eq!(accumulated.cumulative_energy, micro_hours(1_066_400));
    assert_eq!(accumulated.capacity, micro_hours(116_622));
    assert_eq!(accumulated.net_energy, micro_hours(-1_066_400));
}

#[test]
fn evicted_live_samples_remain_visible_as_an_explicit_history_overview() {
    let mut workbench = Workbench::new(false, 0);
    workbench.live.history.push_values(
        1_000_000,
        ChannelValues { voltage: 5_000_000, current: 500_000, power: 2_500_000 },
    );
    let mut recent = test_measurement(2_000);
    recent.elapsed_us = 10_000_000;
    workbench.live.points.push_back(recent);

    let historical = workbench.cursor_readout_at(1_000_000).expect("history cursor should remain available");
    assert!(historical.approximate);
    assert_eq!(historical.time_us, 1_000_000);
    assert_eq!(historical.values.power, 2_500_000 * FINE);

    let points =
        workbench.source_vip_points(Channel::Voltage, selection(0, 10_000_000), 100, DisplayFilter::Raw);
    let first = points.first().unwrap();
    assert_eq!((first.time_us, first.value), (1_000_000, 5_000_000 * FINE));
    let last = points.last().unwrap();
    assert_eq!((last.time_us, last.value), (10_000_000, 9_000_000 * FINE));
    assert_eq!(axis_for(&points).maximum, 10_000_000 * FINE as u128);
}

#[test]
fn connections_are_sought_until_they_are_refused() {
    let mut workbench = Workbench::new(false, 0);
    assert_eq!(
        workbench.link.request_connect(0),
        Some(UsbCommand::Connect(GraphSampleRate::Sps50, workbench.link.usb_reset))
    );
    workbench.process_message(UsbMessage::ConnectionFailed("Device not found".to_string()), true, clock(0));
    assert_eq!(workbench.link.phase, ConnectionPhase::NoDevice);
    assert!(workbench.link.maybe_retry_connection(1_000_000).is_none());
    assert!(workbench.link.maybe_retry_connection(3_000_000).is_some());
    workbench.process_message(UsbMessage::ConnectionFailed("resource busy".to_string()), true, clock(0));
    assert_eq!(workbench.link.phase, ConnectionPhase::DeviceBusy);
    assert!(workbench.link.maybe_retry_connection(u64::MAX).is_none());
    // A disconnection that was asked for is final.
    assert_eq!(workbench.link.request_disconnect(), UsbCommand::Disconnect);
    workbench.process_message(UsbMessage::Disconnected, true, clock(0));
    assert_eq!(workbench.link.phase, ConnectionPhase::Disconnected);
    assert!(workbench.link.maybe_retry_connection(u64::MAX).is_none());
}

#[test]
fn loaded_files_are_shown_and_left_again() {
    let mut workbench = Workbench::new(false, 0);
    workbench.show_imported(ImportedRecording {
        path: "/home/a.csv".to_string(),
        file_name: Some("a.csv".to_string()),
        samples: stored().samples,
        metadata: Some(RecordingSessionMetadataV1::new(clock(0).utc, demo_device(), 50, 7)),
    });
    // What the file says of its session stays with it.
    let kept = workbench.shelf.recording.as_ref().unwrap().metadata.as_ref().unwrap();
    assert_eq!((kept.sample_rate_hz, kept.device.serial == demo_device().serial), (50, true));
    assert_eq!(workbench.chart.source, PlotSource::Imported);
    assert_eq!(workbench.source_end_time(), 2_000_000);
    assert_eq!(workbench.source_sample_count(), 3);
    assert!(workbench.source_label().contains("a.csv"));
    assert!(workbench.shelf.status.contains("a.csv"), "{}", workbench.shelf.status);
    workbench.shelf.copy_finished(Ok(()), "/home/b.csv");
    assert_eq!(workbench.shelf.status, "/home/b.csv");
    workbench.shelf.copy_finished(Err("exists".to_string()), "/home/b.csv");
    assert_eq!(workbench.shelf.status, "exists");
    workbench.close_imported_recording();
    assert_eq!(workbench.chart.source, PlotSource::Live);
    assert!(workbench.shelf.recording.is_none());
}

#[test]
fn clearing_takes_everything_that_was_measured() {
    let mut workbench = Workbench::new(false, 0);
    workbench.pending.push(test_measurement(5));
    workbench.flush(clock(0));
    assert_eq!(workbench.live.points.len(), 1);
    workbench.clear_data();
    assert!(workbench.live.points.is_empty());
    assert!(workbench.live.history.points.is_empty());
    assert_eq!(workbench.source_sample_count(), 0);
    assert!(workbench.accumulated_readout().is_none());
}

#[test]
fn a_connected_device_is_told_of_the_trace() {
    let mut workbench = Workbench::new(false, 0);
    workbench.pd.trace_enabled = true;
    let device = RecordingMetadata {
        model: "KM003C".to_string(),
        firmware: "1".to_string(),
        serial: "s".to_string(),
    };
    assert_eq!(
        workbench.process_message(UsbMessage::Connected(device), true, clock(0)),
        Some(UsbCommand::SetPdTraceEnabled(true))
    );
    workbench.process_message(UsbMessage::StreamingStarted(GraphSampleRate::Sps1000), true, clock(0));
    assert_eq!(workbench.link.current_rate, SampleRateOption::Sps1000);
    assert!(workbench.link.streaming);
    workbench.process_message(UsbMessage::StreamingStopped, true, clock(0));
    assert!(!workbench.link.streaming);
    workbench.process_message(UsbMessage::Error("stall".to_string()), true, clock(0));
    assert!(workbench.link.last_error.is_some());
}

#[test]
fn the_port_is_reported_and_its_tracker_told_in_order() {
    let mut workbench = Workbench::new(false, 0);
    let device = RecordingMetadata {
        model: "KM003C".to_string(),
        firmware: "1".to_string(),
        serial: "s".to_string(),
    };
    let status =
        PortStatus { timestamp_ms: 7, vbus_uv: 5_000_000, ibus_ua: 0, cc1_uv: 1_640_000, cc2_uv: 30_000 };
    workbench.process_message(UsbMessage::PdStatusUpdate(status), true, clock(1));
    assert_eq!(workbench.port.status, Some(status));
    // A new device does not take the last voltages away; a lost one does.
    workbench.process_message(UsbMessage::Connected(device), true, clock(2));
    assert_eq!(workbench.port.status, Some(status));
    workbench.process_message(
        UsbMessage::PdEvents(vec![
            PdEvent::Connect { timestamp_ms: 8 },
            PdEvent::Disconnect { timestamp_ms: 9 },
        ]),
        true,
        clock(3),
    );
    assert!(workbench.end_frame(clock(4)).is_none());
    workbench.process_message(UsbMessage::Disconnected, true, clock(5));
    assert_eq!(workbench.port.status, None);
    assert_eq!(
        workbench.port.take_notices(),
        vec![
            PortNotice::Status { status, now_us: 1 },
            PortNotice::Forget,
            PortNotice::Event { connected: true, now_us: 3 },
            PortNotice::Event { connected: false, now_us: 3 },
            PortNotice::Tick { now_us: 4 },
            PortNotice::Forget,
        ]
    );
    assert!(workbench.port.take_notices().is_empty());
    // A device that was lost is sought again in time.
    assert!(workbench.end_frame(clock(u64::MAX)).is_some());
}

#[test]
fn cards_tell_the_readings_and_their_statistics() {
    let card = instrument_card(
        "电压",
        9_012_345 * FINE,
        MeasurementUnit::Voltage,
        Some(MetricStatistics { minimum: 8_000_000, sum: 18_000_000, count: 2, maximum: 10_000_000 }),
    );
    assert_eq!(card.symbol, "V");
    assert!(card.heading.contains("电压"));
    assert!(card.value.starts_with("9.01"), "{}", card.value);
    let statistics = card.statistics.unwrap();
    assert!(statistics.average.contains("9.0"), "{}", statistics.average);
    assert!(statistics.minimum.contains("8.0") && statistics.maximum.contains("10.0"));
    assert!(instrument_card("电流", 0, MeasurementUnit::Current, None).statistics.is_none());

    // An average reads like the readings that it stands for.
    let reading = MetricStatistics { minimum: 5_015_000, sum: 5_015_000, count: 1, maximum: 5_015_000 };
    let card = instrument_card("电压", 5_015_000 * FINE, MeasurementUnit::Voltage, Some(reading));
    let statistics = card.statistics.unwrap();
    assert_eq!(card.value, "5.01");
    assert_eq!((statistics.minimum.as_str(), statistics.maximum.as_str()), ("5.01", "5.01"));
    assert_eq!(statistics.average, "5.01");
    let falling = MetricStatistics { minimum: -3, sum: -4, count: 3, maximum: 1 };
    let card = instrument_card("电流", 0, MeasurementUnit::Current, Some(falling));
    assert_eq!(card.statistics.unwrap().average, "-1.333");
    let rare = MetricStatistics { minimum: 0, sum: 1, count: u64::MAX, maximum: 1 };
    let card = instrument_card("电流", 0, MeasurementUnit::Current, Some(rare));
    assert_eq!(card.statistics.unwrap().average, "0.000");

    assert_eq!(signal_value(Some(620_000)), "0.62 V");
    assert_eq!(signal_value(None), "—");
    assert_eq!(compact_signal_value("CC1", Some(620_000)), "CC1 0.62");
    assert_eq!(bus_label(9_000_000 * FINE, None), "VBUS 9.00 V · D+ — · D− —");

    let totals = AccumulatedReadout {
        cumulative_energy: micro_hours(17_300),
        capacity: micro_hours(93_070),
        net_energy: micro_hours(-17_300),
    };
    let card = totals_card(true, 6_800_000, totals);
    assert_eq!(card.duration, "00:00:06.8");
    assert_eq!(card.energy, "17.300 mWh");
    assert_eq!(card.capacity, "93.070 mAh");
    assert_eq!(card.net_energy, "↓ 17.300 mWh");
    assert_ne!(totals_card(false, 0, totals).energy, "17.300 mWh");

    let scope = ScopeStatistics {
        duration_us: 1_000_000,
        cumulative_energy: micro_hours(10_000),
        capacity: micro_hours(1_000),
        points: 3,
        approximate: true,
    };
    let row = scope_row("窗口", scope, scope_energy_unit(scope, ScopeStatistics::default()));
    assert_eq!(row.energy, "10.000 mWh");
    assert!(row.points.contains('3'));
    let label = cursor_time_label(
        CursorReadout {
            time_us: 1_000_000,
            values: FineValues { voltage: 0, current: 0, power: 0 },
            approximate: false,
        },
        Language::English,
    );
    assert!(label.contains("00:00:01.0"), "{label}");
    let legend = legend_label("●", "电流", AxisScale { maximum: 5_000 * FINE as u128 }, MeasurementUnit::Current, false);
    assert!(legend.contains("5") && legend.contains("mA"), "{legend}");
    // Averages of the overview are told with their fractions.
    assert_eq!(cursor_value_label("电流", 3 * FINE / 2, MeasurementUnit::Current), "电流  1.500 µA");
    assert_eq!(cursor_value_label("电流", 1_250_000 * FINE, MeasurementUnit::Current), "电流  1.250 A");
}

#[test]
fn statistics_of_the_whole_and_of_the_window_agree_on_what_they_share() {
    let mut workbench = Workbench::new(false, 0);
    workbench.chart.show_loaded(PlotSource::Offline);
    let mut recording = stored();
    for (index, sample) in recording.samples.iter_mut().enumerate() {
        sample.energy_throughput = micro_hours(10 * index as i128);
        sample.charge_throughput = micro_hours(index as i128);
    }
    workbench.offline.recording = Some(recording);
    let whole = workbench.full_scope_statistics(clock(0));
    assert_eq!((whole.points, whole.duration_us), (3, 2_000_000));
    assert_eq!(whole.cumulative_energy, micro_hours(20));
    workbench.chart.enter_manual_chart_view();
    let window = workbench.window_scope_statistics(selection(0, 1_000_000), clock(0));
    assert_eq!((window.points, window.capacity), (2, micro_hours(1)));
    assert_eq!(workbench.source_statistics().voltage.readout().unwrap().count, 3);
    assert_eq!(workbench.displayed_source_duration(clock(0)), 2_000_000);
    assert!(workbench.totals_available());
    assert_eq!(workbench.displayed_totals().cumulative_energy, micro_hours(20));
    assert!(workbench.source_signal_values().is_none());
    let points = workbench.source_metric_points(PlotMetric::Energy, selection(0, 2_000_000), 10);
    assert_eq!(points.len(), 3);
    assert_eq!(workbench.control.core.phase, RecordingPhase::Idle);
}
