//! Recording sessions from their first sample to their file.
use km003c_workbench::control_model::{Stage, SEGMENT_ROWS};
use km003c_workbench::control_poll::{PollStep, WriterReports};
use km003c_workbench::control_replies::{buffer_rows, offsets_from};
use km003c_workbench::i18n::Language;
use km003c_workbench::measurement::{GraphSampleRate, MeasurementSample, RawSample, MICRO_HOUR_UNITS};
use km003c_workbench::options::{
    AutoCaptureMetric, AutoCaptureRule, PauseReason, RecordingPhase, SampleRateOption,
};
use km003c_workbench::recording::{
    Recorder, RecordingEvent, RecordingFormat, RecordingMetadata, RecordingOffsets, RecordingSummary,
    RecordingTotals,
};
use km003c_workbench::recording_control::{MergeReport, RecordingControl};
use km003c_workbench::recording_session::{RecordingSessionManifestV1, RecordingSessionMetadataV1, SessionState};
use km003c_workbench::session_core::{
    auto_capture_hysteresis_micro, auto_capture_value_micro, recovery_threshold_micro, Context,
};
use km003c_workbench::session_text::{segment_file_name, written_status};
use km003c_workbench::streaming::UsbCommand;
use km003c_workbench::utc::UtcInstant;
use km003c_workbench::workbench::{Clock, UsbMessage, Workbench};

fn micro_hours(amount: i128) -> i128 {
    amount * MICRO_HOUR_UNITS
}

fn test_measurement(energy_throughput_uwh: i128) -> MeasurementSample {
    MeasurementSample {
        elapsed_us: 1_000,
        sample_index: 0,
        sequence: 0,
        marker: 0xD3,
        sample_rate_hz: 50,
        missing_samples: 0,
        gap_duration_us: 0,
        interpolated: false,
        cumulative_missing_samples: 0,
        cumulative_interpolated_duration_us: 0,
        discarded_sequence_samples: 0,
        cumulative_discarded_sequence_samples: 0,
        vbus_uv: 9_000_000,
        ibus_ua: 1_000_000,
        power_uw: 9_000_000,
        charge: micro_hours(1),
        energy: micro_hours(energy_throughput_uwh),
        charge_throughput: micro_hours(1),
        energy_throughput: micro_hours(energy_throughput_uwh),
        cc1_uv: 620_000,
        cc2_uv: 40_000,
        dp_uv: 540_000,
        dm_uv: 510_000,
    }
}

fn utc(seconds: i64) -> UtcInstant {
    UtcInstant { seconds: 1_788_000_000 + seconds, nanos: 0 }
}

fn context(now_us: u64, latest: Option<MeasurementSample>) -> Context {
    Context {
        language: Language::SimplifiedChinese,
        now_us,
        utc: utc(now_us as i64 / 1_000_000),
        rate: SampleRateOption::Sps50,
        latest,
    }
}

fn clock(now_us: u64) -> Clock {
    Clock { now_us, utc: utc(now_us as i64 / 1_000_000) }
}

fn device(serial: &str) -> RecordingMetadata {
    RecordingMetadata {
        model: "KM003C".to_string(),
        firmware: "1.9.9".to_string(),
        serial: serial.to_string(),
    }
}

/// Grants everything that a session asks for until it asks for nothing more.
fn grant(workbench: &mut Workbench, clock: Clock) {
    while workbench.control.stage != Stage::Rest {
        let reply = match workbench.control.stage {
            Stage::Creating => "/sessions/1".to_string(),
            Stage::Starting(_) => {
                format!("/sessions/1/segments/{}", workbench.control.next_file_name().unwrap())
            }
            _ => String::new(),
        };
        workbench.proceed(Ok(reply), clock);
    }
}

/// Handles a message as a frame would.
fn receive(workbench: &mut Workbench, message: UsbMessage, clock: Clock) -> Option<UsbCommand> {
    workbench.begin_frame();
    if workbench.must_flush(&message) {
        workbench.flush(clock);
        grant(workbench, clock);
    }
    let command = workbench.process_message(message, true, clock);
    grant(workbench, clock);
    command
}

fn raw(sequence: u16) -> RawSample {
    RawSample {
        sequence,
        marker: 1,
        vbus_uv: 9_000_000,
        ibus_ua: 1_000_000,
        power_uw: 9_000_000,
        cc1_uv: 0,
        cc2_uv: 0,
        dp_uv: 0,
        dm_uv: 0,
    }
}

/// A workbench whose device streams.
fn streaming() -> Workbench {
    let mut workbench = Workbench::new(false, 0);
    receive(&mut workbench, UsbMessage::Connected(device("A1")), clock(0));
    receive(&mut workbench, UsbMessage::StreamingStarted(GraphSampleRate::Sps50), clock(0));
    workbench
}

/// Feeds samples `from..to` of fifty a second.
fn feed(workbench: &mut Workbench, from: u16, to: u16, clock: Clock) {
    let batch: Vec<RawSample> = (from..to).map(|index| raw(index * 20)).collect();
    receive(workbench, UsbMessage::Samples(batch), clock);
    workbench.flush(clock);
    grant(workbench, clock);
}

/// The writers of all closed files report that they are done.
fn files_ended(workbench: &mut Workbench, clock: Clock) {
    let events: Vec<Option<RecordingEvent>> = workbench
        .control
        .finalizing
        .iter()
        .map(|segment| Some(RecordingEvent::Finished(segment.recorder.summary_snapshot())))
        .collect();
    let ctx = workbench.context(clock);
    workbench.control.poll_finalizing_recording_segments(events, ctx);
    grant(workbench, clock);
}

#[test]
fn auto_pause_requires_sustained_low_power_and_keeps_session_resumable() {
    let mut control = RecordingControl::new();
    control.recorder = Some(Recorder::start("auto-pause.csv".to_string(), None));
    control.core.session = true;
    control.core.phase = RecordingPhase::Recording;
    control.core.anchor_us = Some(0);
    control.rule = AutoCaptureRule {
        enabled: true,
        metric: AutoCaptureMetric::Power,
        threshold_milli: 100,
        sustain_ms: 1_000,
    };

    let mut first = test_measurement(0);
    first.elapsed_us = 2_000_000;
    first.power_uw = 50_000;
    let ctx = context(1, Some(first));
    assert!(control.append_measurements(vec![first], true, ctx).is_some());
    while control.stage != Stage::Rest {
        control.proceed(Ok(String::new()), ctx);
    }
    assert!(!control.core.paused);

    let mut later_sample = test_measurement(1);
    later_sample.elapsed_us = 3_000_000;
    later_sample.power_uw = 50_000;
    let ctx = context(2, Some(later_sample));
    control.append_measurements(vec![later_sample], true, ctx);
    while control.stage != Stage::Rest {
        control.proceed(Ok(String::new()), ctx);
    }
    assert!(control.core.paused);
    assert!(control.core.session);
    assert!(control.status.contains("自动暂停"));
}

#[test]
fn automatic_pauses_end_above_the_threshold_and_its_margin() {
    let rule = AutoCaptureRule {
        enabled: true,
        metric: AutoCaptureMetric::Current,
        threshold_milli: 100,
        sustain_ms: 1_000,
    };
    let sample = MeasurementSample { ibus_ua: -70_000, ..test_measurement(0) };
    assert_eq!(auto_capture_value_micro(AutoCaptureMetric::Current, &sample), 70_000);
    assert_eq!(
        recovery_threshold_micro(rule),
        100_000 + auto_capture_hysteresis_micro(rule)
    );
}

#[test]
fn missing_writer_can_never_leave_the_ui_claiming_recording() {
    let mut control = RecordingControl::new();
    control.core.session = true;
    control.core.phase = RecordingPhase::Recording;
    control.core.paused = false;
    control.core.anchor_us = Some(0);

    let mut step = PollStep::CheckWriter;
    while step != PollStep::Done {
        let reports = WriterReports { segments: vec![], file: None };
        step = control.poll_recording(step, reports, context(25_000_000, None));
        while control.stage != Stage::Rest {
            control.proceed(Ok(String::new()), context(25_000_000, None));
        }
    }

    assert_eq!(control.core.phase, RecordingPhase::Interrupted);
    assert!(control.core.paused);
    assert!(control.status.contains("录制器已退出"));
}

#[test]
fn recording_clock_reanchors_to_captured_samples_after_ui_suspension() {
    let mut control = RecordingControl::new();
    control.core.session = true;
    control.core.phase = RecordingPhase::Recording;
    control.core.elapsed_before_us = 5_000_000;
    control.core.anchor_us = Some(1_000_000);

    control.core.sync_recording_clock_to_samples(38_000_000, 31_000_000);

    let elapsed = control.core.recording_elapsed(31_000_000, SampleRateOption::Sps50, control.is_writing());
    assert!(elapsed >= 38_000_000);
    assert!(elapsed < 38_100_000);
}

#[test]
fn paused_recording_excludes_samples_and_pause_time_from_totals() {
    let mut control = RecordingControl::new();
    control.core.session = true;
    control.core.anchor_us = Some(0);
    control.core.tallies.energy.origin = micro_hours(10);
    control.core.tallies.capacity.origin = micro_hours(1);
    control.core.tallies.capacity.total = micro_hours(4);
    control.core.tallies.net_energy.origin = micro_hours(8);
    control.core.tallies.net_energy.total = micro_hours(12);
    let mut first_segment = test_measurement(20);
    first_segment.charge_throughput = micro_hours(5);
    control.core.tallies.energy.total = micro_hours(10);

    let ctx = context(2_000_000, Some(first_segment));
    control.pause_recording(ctx);
    while control.stage != Stage::Rest {
        control.proceed(Ok(String::new()), ctx);
    }
    assert!(control.core.paused);
    assert!(control.core.anchor_us.is_none());
    assert!(control.core.recording_elapsed(2_000_000, SampleRateOption::Sps50, false) >= 1_000_000);
    assert_eq!(control.core.tallies.energy.origin, micro_hours(20));
    assert_eq!(control.core.tallies.energy.completed, micro_hours(10));
    assert_eq!(control.core.tallies.capacity.origin, micro_hours(5));
    assert_eq!(control.core.tallies.capacity.completed, micro_hours(4));
    assert_eq!(control.core.tallies.net_energy.origin, micro_hours(20));
    assert_eq!(control.core.tallies.net_energy.completed, micro_hours(12));

    // Live plots still receive samples, but the paused stretch does not change
    // what the recording comes to.
    let mut paused_sample = test_measurement(100);
    paused_sample.charge_throughput = micro_hours(100);
    control.append_measurements(vec![paused_sample], true, context(3_000_000, Some(paused_sample)));
    assert_eq!(control.core.tallies.energy.total, micro_hours(10));
    assert_eq!(control.core.tallies.capacity.total, micro_hours(4));
    assert_eq!(control.core.tallies.net_energy.total, micro_hours(12));

    // Going on starts every tally at the last paused sample, so that the next
    // stretch adds only what came after.
    control.core.tallies = control.core.tallies.rebase(Some(paused_sample));
    control.core.paused = false;
    let mut active_sample = test_measurement(105);
    active_sample.charge_throughput = micro_hours(103);
    control.append_measurements(vec![active_sample], true, context(4_000_000, Some(active_sample)));
    assert_eq!(control.core.tallies.energy.total, micro_hours(15));
    assert_eq!(control.core.tallies.capacity.total, micro_hours(7));
    assert_eq!(control.core.tallies.net_energy.total, micro_hours(17));
}

#[test]
fn a_session_records_pauses_goes_on_and_is_saved() {
    let mut workbench = streaming();
    workbench.control.format = RecordingFormat::Csv;
    let at = clock(1_000_000);
    let ctx = workbench.context(at);
    workbench.control.start_recording(Some(device("A1")), 7, ctx);
    grant(&mut workbench, at);
    assert_eq!(workbench.control.core.phase, RecordingPhase::Recording);
    assert_eq!(
        workbench.control.recorder.as_ref().unwrap().summary_snapshot().path,
        "/sessions/1/segments/segment-000000.csv"
    );
    feed(&mut workbench, 0, 50, clock(2_000_000));
    assert_eq!(workbench.control.recorder.as_ref().unwrap().totals().rows, 50);

    // The user pauses; the file is sealed and the manifest says so.
    let at = clock(2_100_000);
    let ctx = workbench.context(at);
    workbench.control.pause_recording(ctx);
    grant(&mut workbench, at);
    assert_eq!(workbench.control.core.phase, RecordingPhase::Paused);
    let manifest = workbench.control.manifest().unwrap();
    assert_eq!(manifest.state, SessionState::Paused);
    assert_eq!((manifest.segments.len(), manifest.segments[0].end_row), (1, 50));
    assert_eq!(workbench.control.finalizing.len(), 1);

    // The writer of the sealed file ends.
    files_ended(&mut workbench, clock(2_200_000));

    // Samples of the pause are not recorded.
    feed(&mut workbench, 50, 100, clock(3_000_000));
    assert!(workbench.control.recorder.is_none());

    // The session goes on in the next file, from the next row.
    let at = clock(4_000_000);
    let ctx = workbench.context(at);
    workbench.control.resume_recording(
        true,
        km003c_workbench::control_model::ResumeFollowUp::Plain,
        ctx,
    );
    grant(&mut workbench, at);
    feed(&mut workbench, 100, 150, clock(5_000_000));
    let totals = workbench.control.recorder.as_ref().unwrap().totals();
    assert_eq!(totals.rows, 100);
    assert_eq!(workbench.control.pauses.len(), 1);

    // It is paused once more and saved.
    let at = clock(5_100_000);
    let ctx = workbench.context(at);
    workbench.control.pause_recording(ctx);
    grant(&mut workbench, at);
    assert!(workbench.control.can_be_saved());
    let ctx = workbench.context(at);
    let name = workbench.control.suggested_filename(ctx);
    assert!(name.starts_with("KM003C_") && name.ends_with("_50SPS.csv"), "{name}");
    workbench.control.save_recording(Some("/home/saved.csv".to_string()), ctx);
    while workbench.control.stage != Stage::Rest {
        workbench.proceed(Ok(String::new()), at);
    }
    files_ended(&mut workbench, at);
    assert!(workbench.control.finalizing.is_empty());
    workbench.control.finalize_saved_recording_session();
    assert_eq!(workbench.control.stage, Stage::Merging);
    let session_id = workbench.control.metadata.as_ref().unwrap().session_id.clone();
    let ctx = workbench.context(at);
    workbench.control.session_merged(
        MergeReport { totals, imported_rows: 100, session_id: Some(session_id) },
        ctx,
    );
    assert_eq!(workbench.control.core.phase, RecordingPhase::Saved);
    assert!(!workbench.control.core.session);
    assert!(workbench.control.status.contains("/home/saved.csv"), "{}", workbench.control.status);
}

#[test]
fn the_machine_may_sleep_once_a_session_is_saved() {
    let mut workbench = merging();
    assert!(workbench.control.core.sleep_held);
    let at = clock(2_000_000);
    let ctx = workbench.context(at);
    let facts = workbench.control.metadata.as_ref().unwrap();
    let (session_id, totals) = (facts.session_id.clone(), facts.totals());
    workbench.control.session_merged(
        MergeReport { totals, imported_rows: 50, session_id: Some(session_id) },
        ctx,
    );
    assert_eq!(workbench.control.core.phase, RecordingPhase::Saved);
    assert!(!workbench.control.core.sleep_held);
}

#[test]
fn samples_of_a_frame_are_handed_over_together() {
    let batch: Vec<RawSample> = [0, 20, 60, 60, 80].into_iter().map(raw).collect();
    let mut parts = streaming();
    receive(&mut parts, UsbMessage::Samples(batch[..2].to_vec()), clock(1_000_000));
    receive(&mut parts, UsbMessage::Samples(batch[2..].to_vec()), clock(1_000_000));
    let mut whole = streaming();
    receive(&mut whole, UsbMessage::Samples(batch), clock(1_000_000));
    assert_eq!(parts.pending.len(), 4);
    assert_eq!(parts.pending, whole.pending);
}

/// A paused session of fifty rows whose files are complete and which is about
/// to be merged.
fn merging() -> Workbench {
    let mut workbench = streaming();
    let at = clock(1_000_000);
    let ctx = workbench.context(at);
    workbench.control.start_recording(Some(device("A1")), 7, ctx);
    grant(&mut workbench, at);
    feed(&mut workbench, 0, 50, at);
    let ctx = workbench.context(at);
    workbench.control.pause_recording(ctx);
    grant(&mut workbench, at);
    workbench.control.save_recording(Some("/home/saved.csv".to_string()), ctx);
    grant(&mut workbench, at);
    files_ended(&mut workbench, at);
    workbench.control.finalize_saved_recording_session();
    assert_eq!(workbench.control.stage, Stage::Merging);
    workbench
}

#[test]
fn a_file_with_rows_missing_is_not_saved() {
    let mut workbench = merging();
    let at = clock(2_000_000);
    let ctx = workbench.context(at);
    let facts = workbench.control.metadata.as_ref().unwrap();
    let (session_id, totals) = (facts.session_id.clone(), facts.totals());
    workbench.control.session_merged(
        MergeReport { totals, imported_rows: 49, session_id: Some(session_id) },
        ctx,
    );
    grant(&mut workbench, at);
    assert_eq!(workbench.control.core.phase, RecordingPhase::Interrupted);
    assert!(workbench.control.core.session);
    assert_eq!(workbench.control.manifest().unwrap().state, SessionState::Interrupted);
}

#[test]
fn a_merge_that_fails_leaves_the_session_to_be_recovered() {
    let mut workbench = merging();
    let at = clock(2_000_000);
    workbench.proceed(Err("disk full".to_string()), at);
    grant(&mut workbench, at);
    assert_eq!(workbench.control.core.phase, RecordingPhase::Interrupted);
    assert!(workbench.control.status.contains("disk full"));
    assert_eq!(workbench.control.directory.as_deref(), Some("/sessions/1"));
}

#[test]
fn long_recordings_go_on_in_further_files() {
    let mut workbench = streaming();
    let at = clock(0);
    let ctx = workbench.context(at);
    workbench.control.start_recording(Some(device("A1")), 7, ctx);
    grant(&mut workbench, at);
    // Thirty seconds end a file.
    feed(&mut workbench, 0, 1_400, clock(28_000_000));
    assert_eq!(workbench.control.core.next_segment_index, 1);
    feed(&mut workbench, 1_400, 1_600, clock(32_000_000));
    assert_eq!(workbench.control.core.next_segment_index, 2);
    let manifest = workbench.control.manifest().unwrap();
    assert_eq!(manifest.segments.len(), 2);
    assert_eq!(manifest.segments[1].start_row, 1_600);
    feed(&mut workbench, 1_600, 1_700, clock(34_000_000));
    assert_eq!(workbench.control.recorder.as_ref().unwrap().totals().rows, 1_700);
    assert!(SEGMENT_ROWS > 1_700);
}

#[test]
fn an_unplugged_device_is_waited_for_by_its_serial_number() {
    let mut workbench = streaming();
    let at = clock(0);
    let ctx = workbench.context(at);
    workbench.control.start_recording(Some(device("A1")), 7, ctx);
    grant(&mut workbench, at);
    feed(&mut workbench, 0, 50, clock(1_000_000));
    receive(&mut workbench, UsbMessage::Disconnected, clock(1_500_000));
    assert_eq!(workbench.control.core.phase, RecordingPhase::WaitingForReconnect);
    assert_eq!(workbench.control.core.pause_reason, Some(PauseReason::UsbDisconnected));
    assert_eq!(workbench.control.awaited_serial(), Some("A1"));

    // Another device does not take the session up.
    receive(&mut workbench, UsbMessage::Connected(device("B2")), clock(2_000_000));
    receive(&mut workbench, UsbMessage::StreamingStarted(GraphSampleRate::Sps50), clock(2_000_000));
    assert_eq!(workbench.control.core.phase, RecordingPhase::WaitingForReconnect);
    receive(&mut workbench, UsbMessage::Disconnected, clock(2_500_000));

    // Its own does.
    receive(&mut workbench, UsbMessage::Connected(device("A1")), clock(3_000_000));
    assert_eq!(workbench.control.core.phase, RecordingPhase::Recovering);
    receive(&mut workbench, UsbMessage::StreamingStarted(GraphSampleRate::Sps50), clock(3_000_000));
    assert_eq!(workbench.control.core.phase, RecordingPhase::Recording);
}

#[test]
fn a_lost_writer_interrupts_and_the_session_can_go_on() {
    let mut workbench = streaming();
    let at = clock(0);
    let ctx = workbench.context(at);
    workbench.control.start_recording(Some(device("A1")), 7, ctx);
    grant(&mut workbench, at);
    feed(&mut workbench, 0, 10, clock(1_000_000));
    workbench.begin_frame();
    workbench.process_message(UsbMessage::Samples(vec![raw(200)]), true, clock(1_100_000));
    assert!(workbench.flush(clock(1_100_000)).is_some());
    workbench.proceed(Err("closed".to_string()), clock(1_100_000));
    grant(&mut workbench, clock(1_100_000));
    assert_eq!(workbench.control.core.phase, RecordingPhase::Interrupted);
    assert!(workbench.control.core.session && workbench.control.core.paused);
    assert!(workbench.control.status.contains("recording writer stopped unexpectedly"));
    let ctx = workbench.context(clock(1_200_000));
    workbench.control.resume_recording(
        true,
        km003c_workbench::control_model::ResumeFollowUp::Plain,
        ctx,
    );
    grant(&mut workbench, clock(1_200_000));
    assert_eq!(workbench.control.core.phase, RecordingPhase::Recording);
}

#[test]
fn sessions_cannot_begin_or_go_on_without_a_device() {
    let mut control = RecordingControl::new();
    control.start_recording(None, 7, context(0, None));
    assert_eq!(control.stage, Stage::Rest);
    assert!(!control.core.session);
    assert!(!control.status.is_empty());

    control.start_recording(Some(device("A1")), 7, context(0, None));
    assert_eq!(control.stage, Stage::Creating);
    assert_eq!(control.first_manifest().unwrap().metadata.device.serial, "A1");
    control.proceed(Err("read-only".to_string()), context(0, None));
    assert_eq!(control.stage, Stage::Rest);
    assert!(control.status.contains("read-only"));
    assert!(!control.core.session);
}

#[test]
fn a_found_session_is_taken_up_where_it_ended() {
    let mut metadata = RecordingSessionMetadataV1::new(utc(0), device("A1"), 50, 1);
    let mut totals = RecordingTotals::from_offsets(RecordingOffsets::default());
    totals.rows = 2;
    totals.elapsed_us = 20_000;
    totals.energy_throughput = micro_hours(20);
    metadata.update_from_totals(totals);
    let manifest = RecordingSessionManifestV1::new(RecordingFormat::Csv, metadata);
    let samples = vec![
        MeasurementSample { elapsed_us: 0, ..test_measurement(0) },
        MeasurementSample { elapsed_us: 20_000, sample_index: 1, ..test_measurement(20) },
    ];

    let mut workbench = streaming();
    assert!(workbench.control.refuse_loading(Some("B2"), "A1", Language::English));
    assert!(!workbench.control.refuse_loading(Some("A1"), "A1", Language::English));
    workbench.continue_session("/sessions/9".to_string(), manifest, totals, &samples, clock(1_000_000));
    grant(&mut workbench, clock(1_000_000));
    assert!(workbench.control.core.session && workbench.control.core.paused);
    assert_eq!(workbench.control.directory.as_deref(), Some("/sessions/9"));
    assert_eq!(workbench.live.points.len(), 2);
    assert_eq!(workbench.control.core.resume_offsets, Some(offsets_from(&samples[1])));
    assert_eq!(workbench.control.core.displayed_cumulative_energy(), micro_hours(20));

    let ctx = workbench.context(clock(2_000_000));
    workbench.control.resume_recording(
        true,
        km003c_workbench::control_model::ResumeFollowUp::Plain,
        ctx,
    );
    grant(&mut workbench, clock(2_000_000));
    feed(&mut workbench, 0, 5, clock(2_100_000));
    assert_eq!(workbench.control.recorder.as_ref().unwrap().totals().rows, 7);
}

/// A session of two samples of the device `serial` that was cut short.
fn cut_short(serial: &str) -> (RecordingSessionManifestV1, RecordingTotals, Vec<MeasurementSample>) {
    let mut totals = RecordingTotals::from_offsets(RecordingOffsets::default());
    totals.rows = 2;
    totals.elapsed_us = 20_000;
    let metadata = RecordingSessionMetadataV1::new(utc(0), device(serial), 50, 1);
    let manifest = RecordingSessionManifestV1::new(RecordingFormat::Csv, metadata);
    let samples = vec![
        MeasurementSample { elapsed_us: 0, ..test_measurement(0) },
        MeasurementSample { elapsed_us: 20_000, sample_index: 1, ..test_measurement(20) },
    ];
    (manifest, totals, samples)
}

#[test]
fn a_running_session_is_not_replaced_by_a_found_one() {
    let mut workbench = streaming();
    let at = clock(0);
    let ctx = workbench.context(at);
    workbench.control.start_recording(Some(device("A1")), 7, ctx);
    grant(&mut workbench, at);
    feed(&mut workbench, 0, 5, clock(1_000_000));
    assert!(workbench.control.core.session);
    let (manifest, totals, samples) = cut_short("A1");
    workbench.continue_session("/sessions/9".to_string(), manifest, totals, &samples, clock(2_000_000));
    assert_eq!(workbench.control.status, "请先保存当前录制");
    assert_eq!(workbench.control.directory.as_deref(), Some("/sessions/1"));
    assert_eq!(workbench.control.core.phase, RecordingPhase::Recording);
    assert_eq!(workbench.live.points.len(), 5);
}

#[test]
fn a_found_session_waits_for_its_own_device() {
    let (manifest, totals, samples) = cut_short("A1");
    let mut alone = Workbench::new(false, 0);
    alone.continue_session("/sessions/9".to_string(), manifest, totals, &samples, clock(0));
    assert_eq!(alone.control.status, "请先连接原 KM003C，再继续恢复录制");
    assert!(!alone.control.core.session && alone.live.points.is_empty());

    let (manifest, totals, samples) = cut_short("B2");
    let mut other = streaming();
    other.continue_session("/sessions/9".to_string(), manifest, totals, &samples, clock(0));
    assert_eq!(other.control.status, "设备序列号不匹配，需要原设备：B2");
    assert!(!other.control.core.session);

    let (manifest, totals, _) = cut_short("A1");
    let mut empty = streaming();
    empty.continue_session("/sessions/9".to_string(), manifest, totals, &vec![], clock(0));
    assert_eq!(empty.control.status, "恢复会话没有采样点");
    assert!(!empty.control.core.session);
}

/// Polls the recording as a frame does, with what the closed files report.
fn poll(workbench: &mut Workbench, ended: bool, clock: Clock) -> Vec<PollStep> {
    let mut step = PollStep::CheckWriter;
    let mut steps = vec![step];
    while step != PollStep::Done {
        let segments = workbench
            .control
            .finalizing
            .iter()
            .map(|segment| {
                if ended {
                    Some(RecordingEvent::Finished(segment.recorder.summary_snapshot()))
                } else {
                    None
                }
            })
            .collect();
        let ctx = workbench.context(clock);
        step = workbench.control.poll_recording(step, WriterReports { segments, file: None }, ctx);
        grant(workbench, clock);
        steps.push(step);
    }
    steps
}

#[test]
fn a_frame_polls_the_writers_in_order() {
    let mut workbench = streaming();
    let ctx = workbench.context(clock(0));
    workbench.control.start_recording(Some(device("A1")), 7, ctx);
    grant(&mut workbench, clock(0));
    feed(&mut workbench, 0, 5, clock(1_000_000));
    // A quiet poll changes nothing.
    let status = workbench.control.status.clone();
    let steps = poll(&mut workbench, false, clock(1_100_000));
    let order =
        vec![PollStep::CheckWriter, PollStep::AdoptWriter, PollStep::Segments, PollStep::Files, PollStep::Done];
    assert_eq!(steps, order);
    assert_eq!(workbench.control.status, status);
    assert_eq!(workbench.control.core.phase, RecordingPhase::Recording);
    assert!(!workbench.control.follows_file());

    // A session that lost its writer is noticed first.
    workbench.control.recorder = None;
    poll(&mut workbench, false, clock(1_200_000));
    assert_eq!(workbench.control.core.phase, RecordingPhase::Interrupted);
    assert!(workbench.control.core.session);

    // A file without a session ends in the last step.
    let mut control = RecordingControl::new();
    control.recorder = Some(Recorder::start("/a.csv".to_string(), None));
    assert!(control.follows_file());
    let reports = WriterReports { segments: vec![], file: Some(RecordingEvent::Failed("crash".to_string())) };
    assert_eq!(control.poll_recording(PollStep::Files, reports, context(0, None)), PollStep::Done);
    assert!(control.status.contains("crash"), "{}", control.status);
}

#[test]
fn buffers_are_exported_from_their_first_sample() {
    let mut first = test_measurement(5);
    first.elapsed_us = 7_000_000;
    let mut second = test_measurement(6);
    second.elapsed_us = 7_020_000;
    let rows = buffer_rows(&vec![first, second]);
    assert_eq!((rows[0].elapsed_us, rows[1].elapsed_us), (0, 20_000));
    assert_eq!((rows[0].sample_index, rows[1].sample_index), (0, 1));
    assert_eq!(rows[1].energy_throughput, micro_hours(1));

    let mut control = RecordingControl::new();
    assert!(control.refuse_export(false, false));
    assert!(control.refuse_export(true, true));
    assert!(!control.refuse_export(true, false));
    control.buffer_exported("/home/buffer.csv".to_string(), &vec![first, second], Ok(()));
    let writer = control.recorder.as_ref().unwrap();
    assert!(writer.is_finishing());
    assert_eq!(writer.totals().rows, 2);
    assert!(control.status.contains("/home/buffer.csv"));
    control.recorder = None;
    control.buffer_exported("/home/x.csv".to_string(), &vec![first], Err("full".to_string()));
    assert_eq!(control.status, "full");
    assert!(control.recorder.is_none());
}

#[test]
fn files_of_a_session_are_numbered() {
    assert_eq!(segment_file_name(0, RecordingFormat::Csv), "segment-000000.csv");
    assert_eq!(segment_file_name(1_234_567, RecordingFormat::Parquet), "segment-1234567.parquet");
    let totals = RecordingTotals { rows: 3, ..RecordingTotals::from_offsets(RecordingOffsets::default()) };
    let text = written_status(3, "/a.csv", totals.completeness());
    assert!(text.contains('3') && text.contains("/a.csv") && text.contains('%'), "{text}");
}

#[test]
fn a_file_without_a_session_ends_with_its_writer() {
    let mut control = RecordingControl::new();
    let summary = RecordingSummary {
        path: "/a.csv".to_string(),
        totals: RecordingTotals::from_offsets(RecordingOffsets::default()),
    };
    control.recorder = Some(Recorder::start("/a.csv".to_string(), None));
    control.file_ended(RecordingEvent::Failed("crash".to_string()), context(0, None));
    assert!(control.status.contains("crash"), "{}", control.status);
    control.recorder = Some(Recorder::start("/a.csv".to_string(), None));
    control.file_ended(RecordingEvent::Interrupted(summary, "cut".to_string()), context(0, None));
    assert!(control.status.contains("cut"), "{}", control.status);
}
