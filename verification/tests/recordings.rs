//! Recordings: rows, files, sessions and what is restored of them.
use chrono::TimeZone;
use km003c_workbench::demo::{demo_sample, DemoReading};
use km003c_workbench::imports::{check_recovery, recoverable_filename};
use km003c_workbench::measurement::{MeasurementSample, MICRO_HOUR_UNITS};
use km003c_workbench::recording::{
    append_suffix, partial_path, PushPlan, Recorder, RecordingEvent, RecordingFormat, RecordingMetadata,
    RecordingOffsets, RecordingOrigin, RecordingRow, RecordingSummary, RecordingTotals, RowBuffer, ROW_GROUP_SIZE,
};
use km003c_workbench::recording_copy::{CopyJob, CopyStep};
use km003c_workbench::recording_import::{
    columns_to_recording, display_error, offline_to_table, recording_columns, recording_file_kind, rows_to_table,
    ImportedColumns, RecordingFileKind, RecordingTable,
};
use km003c_workbench::recording_session::{
    listing_order, merge_csv_segments, mergeable_segments, recover_csv_partial, sidecar_path,
    summarize_merged_recording, IntervalReason, MergedTail, RecordingSegmentMetadata, RecordingSessionManifestV1,
    RecordingSessionMetadataV1, RecordingTimeInterval, SessionState, DISPLAY_TIMEZONE,
};
use km003c_workbench::recovery_list::{recoverable_recordings, LeftFile};
use km003c_workbench::utc::{create_session_id, format_beijing, UtcInstant, MAX_SECONDS, MIN_SECONDS};

fn micro_hours(amount: i128) -> i128 {
    amount * MICRO_HOUR_UNITS
}

fn sample(elapsed_us: u64, missing: u64, interpolated_us: u64) -> MeasurementSample {
    MeasurementSample {
        elapsed_us,
        sample_index: 100,
        sequence: 42,
        marker: 7,
        sample_rate_hz: 50,
        missing_samples: missing as u16,
        gap_duration_us: interpolated_us,
        interpolated: missing > 0,
        cumulative_missing_samples: missing,
        cumulative_interpolated_duration_us: interpolated_us,
        discarded_sequence_samples: 0,
        cumulative_discarded_sequence_samples: 0,
        vbus_uv: 5_000_000,
        ibus_ua: -1_000_000,
        power_uw: -5_000_000,
        charge: micro_hours(-100),
        energy: micro_hours(-500),
        charge_throughput: micro_hours(100),
        energy_throughput: micro_hours(500),
        cc1_uv: 1_000_000,
        cc2_uv: 0,
        dp_uv: 600_000,
        dm_uv: 500_000,
    }
}

fn utc(year: i32, month: u32, day: u32, hour: u32, minute: u32, second: u32) -> UtcInstant {
    UtcInstant {
        seconds: chrono::Utc.with_ymd_and_hms(year, month, day, hour, minute, second).unwrap().timestamp(),
        nanos: 0,
    }
}

fn device() -> RecordingMetadata {
    RecordingMetadata { model: String::new(), firmware: String::new(), serial: String::new() }
}

#[test]
fn recording_rows_are_relative_to_the_start() {
    let origin = RecordingOrigin::at(Some(sample(1_000_000, 2, 40_000)));
    let row = RecordingRow::from_sample(sample(2_000_000, 3, 60_000), origin, RecordingOffsets::default(), 0);

    assert_eq!(row.elapsed_us, 1_000_000);
    assert_eq!(row.sample_index, 0);
    assert_eq!(row.cumulative_missing_samples, 1);
    assert_eq!(row.cumulative_interpolated_duration_us, 20_000);
    assert_eq!(row.charge, 0);
}

#[test]
fn pause_rebase_excludes_pause_interval_from_recording_rows() {
    let mut origin = RecordingOrigin::at(Some(sample(1_000_000, 2, 40_000)));
    let paused = sample(2_000_000, 3, 60_000);
    let resumed = sample(5_000_000, 8, 120_000);

    origin.rebase_after_pause(paused, resumed);
    let row = RecordingRow::from_sample(resumed, origin, RecordingOffsets::default(), 0);

    assert_eq!(row.elapsed_us, 1_000_000);
    assert_eq!(row.cumulative_missing_samples, 1);
    assert_eq!(row.cumulative_interpolated_duration_us, 20_000);
    assert_eq!(row.energy_throughput, 0);
}

#[test]
fn completeness_reports_interpolated_time_fraction() {
    let totals = RecordingTotals {
        rows: 10,
        elapsed_us: 1_000_000,
        missing_samples: 2,
        interpolated_duration_us: 10_000,
        discarded_sequence_samples: 0,
        charge: 0,
        energy: 0,
        charge_throughput: 0,
        energy_throughput: 0,
    };
    let completeness = totals.completeness();
    assert_eq!(completeness.measured_us as f64 / completeness.elapsed_us as f64 * 100.0, 99.0);
}

#[test]
fn dataframe_uses_the_stable_recording_schema() {
    let row = RecordingRow::from_sample(
        sample(1_000, 0, 0),
        RecordingOrigin::at(None),
        RecordingOffsets::default(),
        0,
    );
    let table = rows_to_table(&vec![row]);

    assert_eq!(table.elapsed_us.len(), 1);
    assert_eq!(recording_columns().len(), 23);
    assert_eq!(recording_columns()[12], "vbus_uv");
    assert_eq!(table.vbus_uv[0], 5_000_000);
    assert_eq!(table.sequence[0], Some(42));
    assert_eq!(table.energy_throughput[0], micro_hours(500));
    assert_eq!(table.dm_uv[0], Some(500_000));
}

#[test]
fn dataframe_preserves_values_and_marks_unavailable_channels_null() {
    let logged = |elapsed_us: u64, vbus_uv: i64, energy_throughput: i128| MeasurementSample {
        elapsed_us,
        vbus_uv,
        energy_throughput,
        ..sample(elapsed_us, 0, 0)
    };
    let table = offline_to_table(&vec![
        logged(0, 4_999_553, 0),
        logged(1_000_000, 5_000_010, micro_hours(5)),
        logged(2_000_000, 5_000_020, micro_hours(5_747_232)),
    ]);

    assert_eq!(table.elapsed_us.len(), 3);
    assert_eq!(table.sequence, vec![None; 3]);
    assert_eq!(table.cc1_uv, vec![None; 3]);
    assert_eq!(table.vbus_uv[0], 4_999_553);
    assert_eq!(table.energy_throughput[2], micro_hours(5_747_232));
}

#[test]
fn recorder_accepts_a_bursty_unlock_catch_up_without_dropping_rows() {
    let mut recorder = Recorder::start("unlock-catch-up.csv".to_string(), None);
    let mut buffer = RowBuffer::new(RecordingOffsets::default());
    let mut written: Vec<RecordingRow> = Vec::new();
    let rows = 4_096_u64;
    for index in 0..rows {
        let batch = vec![sample(index * 20_000, 0, 0)];
        let PushPlan::Send(out) = recorder.push(&batch) else {
            panic!("an open writer takes every row");
        };
        recorder.rows_taken(&batch);
        written.extend(buffer.accept(out));
    }
    recorder.request_finish(true).unwrap();
    assert!(
        matches!(recorder.push(&vec![sample(rows * 20_000, 0, 0)]), PushPlan::Refused(_)),
        "a finishing writer must not silently accept rows"
    );
    let (rest, totals) = buffer.finish();
    written.extend(rest);
    assert_eq!(totals.rows, rows);
    assert_eq!(written.len(), rows as usize);
    assert!(written.iter().enumerate().all(|(index, row)| row.sample_index == index as u64));
    assert_eq!(recorder.totals(), totals);
}

#[test]
fn whole_row_groups_are_written_and_the_rest_at_the_end() {
    let row = RecordingRow::from_sample(
        sample(1_000, 0, 0),
        RecordingOrigin::at(None),
        RecordingOffsets::default(),
        0,
    );
    let mut buffer = RowBuffer::new(RecordingOffsets::default());
    assert!(buffer.accept(vec![row; ROW_GROUP_SIZE - 1]).is_empty());
    assert_eq!(buffer.accept(vec![row; 2]).len(), ROW_GROUP_SIZE + 1);
    assert!(buffer.accept(vec![row]).is_empty());
    let (rest, totals) = buffer.finish();
    assert_eq!(rest, vec![row]);
    assert_eq!(totals, RecordingTotals::from_row(row));
}

#[test]
fn a_writer_that_finishes_after_it_was_lost_was_interrupted() {
    let mut recorder = Recorder::start("a.csv".to_string(), None);
    assert!(matches!(recorder.push(&Vec::new()), PushPlan::Nothing));
    assert_eq!(recorder.writer_lost(), "recording writer stopped unexpectedly");
    assert_eq!(recorder.request_finish(false).unwrap_err(), "recording writer stopped unexpectedly");
    let finished = || {
        RecordingEvent::Finished(RecordingSummary {
            path: "a.csv".to_string(),
            totals: RecordingTotals::from_offsets(RecordingOffsets::default()),
        })
    };
    let RecordingEvent::Interrupted(_, reason) = recorder.settle_event(finished()) else {
        panic!("a lost writer cannot have finished");
    };
    assert_eq!(reason, "recording writer stopped unexpectedly");
    // It is told of once.
    assert!(matches!(recorder.settle_event(finished()), RecordingEvent::Finished(_)));
}

#[test]
fn paths_beside_a_recording_are_named_after_it() {
    assert_eq!(partial_path("/tmp/a.csv"), "/tmp/a.csv.partial");
    assert_eq!(append_suffix("/tmp/a", ".x"), "/tmp/a.x");
    assert_eq!(sidecar_path("/tmp/a.csv"), "/tmp/a.csv.km003c.json");
}

/// The columns that a file with `times` would be read as.
fn valid_columns(times: Vec<u64>) -> ImportedColumns {
    let rows = times.len();
    ImportedColumns {
        names: recording_columns().iter().map(|name| name.to_string()).collect(),
        height: rows,
        elapsed_us: Ok(times.into_iter().map(Some).collect()),
        sample_index: Ok((0..rows as u64).map(Some).collect()),
        sequence: Ok(vec![Some(1); rows]),
        marker: Ok(vec![Some(0); rows]),
        sample_rate_hz: Ok(vec![Some(50); rows]),
        missing_samples: Ok(vec![Some(0); rows]),
        gap_duration_us: Ok(vec![Some(0); rows]),
        interpolated: Ok(vec![Some(false); rows]),
        cumulative_missing_samples: Ok(vec![Some(0); rows]),
        cumulative_interpolated_duration_us: Ok(vec![Some(0); rows]),
        discarded_sequence_samples: Ok(vec![Some(0); rows]),
        cumulative_discarded_sequence_samples: Ok(vec![Some(0); rows]),
        vbus_uv: Ok(vec![Some(9_000_000); rows]),
        ibus_ua: Ok(vec![Some(2_000_000); rows]),
        power_uw: Ok(vec![Some(18_000_000); rows]),
        charge: Ok(vec![Some(micro_hours(1)); rows]),
        energy: Ok(vec![Some(micro_hours(2)); rows]),
        charge_throughput: Ok(vec![Some(micro_hours(1)); rows]),
        energy_throughput: Ok(vec![Some(micro_hours(2)); rows]),
        cc1_uv: Ok(vec![Some(600_000); rows]),
        cc2_uv: Ok(vec![Some(0); rows]),
        dp_uv: Ok(vec![Some(500_000); rows]),
        dm_uv: Ok(vec![Some(500_000); rows]),
    }
}

#[test]
fn imports_the_stable_23_column_schema() {
    let samples = columns_to_recording(&valid_columns(vec![0, 20_000])).unwrap();

    assert_eq!(samples.len(), 2);
    assert_eq!(samples[1].elapsed_us, 20_000);
    assert_eq!(samples[1].power_uw, 18_000_000);
}

#[test]
fn rejects_missing_columns_and_out_of_order_time() {
    let mut missing = valid_columns(vec![0]);
    missing.names.pop();
    assert!(columns_to_recording(&missing).unwrap_err().contains("23 列"));

    let disorder = valid_columns(vec![20_000, 10_000]);
    assert!(columns_to_recording(&disorder).unwrap_err().contains("时间字段乱序"));
}

#[test]
fn files_that_are_no_recordings_are_told_why() {
    let mut renamed = valid_columns(vec![0]);
    renamed.names[22] = "dx_uv".to_string();
    assert_eq!(columns_to_recording(&renamed).unwrap_err(), "缺少 KM003C 字段：dm_uv");
    assert_eq!(columns_to_recording(&valid_columns(vec![])).unwrap_err(), "录制文件没有采样点");
    let mut unreadable = valid_columns(vec![0]);
    unreadable.marker = Err("marker is text".to_string());
    assert_eq!(columns_to_recording(&unreadable).unwrap_err(), "marker is text");
    let mut hole = valid_columns(vec![0, 1]);
    hole.power_uw = Ok(vec![Some(1), None]);
    assert_eq!(columns_to_recording(&hole).unwrap_err(), "字段 power_uw 第 3 行为空");
    let mut tolerated = valid_columns(vec![0]);
    tolerated.cc1_uv = Ok(vec![None]);
    tolerated.sequence = Ok(vec![Some(70_000)]);
    let samples = columns_to_recording(&tolerated).unwrap();
    assert_eq!((samples[0].cc1_uv, samples[0].sequence), (0, 65_535));
}

#[test]
fn files_are_known_by_their_extension() {
    assert_eq!(recording_file_kind(Some("CSV")), Ok(RecordingFileKind::Csv));
    assert_eq!(recording_file_kind(Some("parquet")), Ok(RecordingFileKind::Parquet));
    assert!(recording_file_kind(Some("txt")).unwrap_err().contains("文件格式不支持"));
    assert!(recording_file_kind(None).unwrap_err().contains("没有扩展名"));
    assert_eq!(display_error("denied"), "无法打开文件：denied");
}

/// The columns that a reader finds in a written table.
fn read(table: RecordingTable) -> ImportedColumns {
    let some_i64 = |cells: &Vec<i64>| Ok(cells.iter().copied().map(Some).collect());
    let some_i128 = |cells: &Vec<i128>| Ok(cells.iter().copied().map(Some).collect());
    ImportedColumns {
        names: recording_columns().iter().map(|name| name.to_string()).collect(),
        height: table.elapsed_us.len(),
        elapsed_us: Ok(table.elapsed_us.iter().copied().map(Some).collect()),
        sample_index: Ok(table.sample_index.iter().copied().map(Some).collect()),
        sequence: Ok(table.sequence),
        marker: Ok(table.marker),
        sample_rate_hz: Ok(table.sample_rate_hz),
        missing_samples: Ok(table.missing_samples),
        gap_duration_us: Ok(table.gap_duration_us),
        interpolated: Ok(table.interpolated),
        cumulative_missing_samples: Ok(table.cumulative_missing_samples),
        cumulative_interpolated_duration_us: Ok(table.cumulative_interpolated_duration_us),
        discarded_sequence_samples: Ok(table.discarded_sequence_samples),
        cumulative_discarded_sequence_samples: Ok(table.cumulative_discarded_sequence_samples),
        vbus_uv: some_i64(&table.vbus_uv),
        ibus_ua: some_i64(&table.ibus_ua),
        power_uw: some_i64(&table.power_uw),
        charge: some_i128(&table.charge),
        energy: some_i128(&table.energy),
        charge_throughput: some_i128(&table.charge_throughput),
        energy_throughput: some_i128(&table.energy_throughput),
        cc1_uv: Ok(table.cc1_uv),
        cc2_uv: Ok(table.cc2_uv),
        dp_uv: Ok(table.dp_uv),
        dm_uv: Ok(table.dm_uv),
    }
}

#[test]
fn what_is_written_is_read_back() {
    let mut rows = Vec::new();
    for index in 0..3_u64 {
        rows.push(RecordingRow::from_sample(
            sample(index * 20_000, index, index),
            RecordingOrigin::at(None),
            RecordingOffsets::default(),
            index,
        ));
    }
    let columns = read(rows_to_table(&rows));
    let samples = columns_to_recording(&columns).unwrap();
    for index in 0..3_u64 {
        let expected = MeasurementSample { sample_index: index, ..sample(index * 20_000, index, index) };
        assert_eq!(samples[index as usize], expected);
    }
}

#[test]
fn beijing_filename_and_display_cross_utc_day_correctly() {
    let started = utc(2026, 8, 31, 16, 56, 13);
    let ended = utc(2026, 8, 31, 17, 8, 42);
    let mut metadata = RecordingSessionMetadataV1::new(started, device(), 50, 1);
    metadata.timestamps.set_ended(ended);

    assert_eq!(metadata.timestamps.started_at_beijing, "2026-09-01 00:56:13.000 BJT");
    assert_eq!(
        metadata.suggested_filename(RecordingFormat::Csv, ended),
        "KM003C_20260901-005613_to_20260901-010842_BJT_50SPS.csv"
    );
}

#[test]
fn new_sessions_carry_their_time_and_zone() {
    let started = UtcInstant { nanos: 42, ..utc(2026, 8, 31, 2, 56, 13) };
    let metadata = RecordingSessionMetadataV1::new(started, device(), 1_000, 77);
    assert_eq!(metadata.session_id, "20260831T025613-000000042-77");
    assert_eq!(metadata.session_id, create_session_id(started, 77));
    assert_eq!(metadata.timestamps.started_at_utc, started);
    assert_eq!(metadata.timestamps.display_timezone, DISPLAY_TIMEZONE);
    assert_eq!(metadata.timestamps.started_at_beijing, format_beijing(started));
}

#[test]
fn every_instant_of_the_calendar_can_be_told() {
    assert_eq!(format_beijing(UtcInstant { seconds: 0, nanos: 5_000_000 }), "1970-01-01 08:00:00.005 BJT");
    assert!(!format_beijing(UtcInstant { seconds: MIN_SECONDS, nanos: 0 }).is_empty());
    assert!(!format_beijing(UtcInstant { seconds: MAX_SECONDS, nanos: 999_999_999 }).is_empty());
    assert!(!create_session_id(UtcInstant { seconds: MAX_SECONDS, nanos: 999_999_999 }, 1).is_empty());
    assert!(!create_session_id(UtcInstant { seconds: MIN_SECONDS, nanos: 0 }, 1).is_empty());
}

#[test]
fn interval_duration_never_becomes_negative() {
    let start = utc(2026, 8, 31, 3, 0, 0);
    let interval = RecordingTimeInterval {
        reason: IntervalReason::UsbDisconnected,
        started_at_utc: start,
        ended_at_utc: Some(UtcInstant { seconds: start.seconds - 1, nanos: 0 }),
    };
    assert_eq!(interval.duration_ms(start), 0);
}

#[test]
fn stops_and_continuations_are_kept_as_intervals() {
    let start = utc(2026, 8, 31, 3, 0, 0);
    let at = |seconds: i64| UtcInstant { seconds: start.seconds + seconds, nanos: 0 };
    let mut metadata = RecordingSessionMetadataV1::new(start, device(), 50, 1);
    metadata.stop(IntervalReason::ManualPause, at(10));
    metadata.carry_on(false, at(12));
    metadata.stop(IntervalReason::UsbDisconnected, at(20));
    metadata.carry_on(true, at(25));
    metadata.refresh_durations(at(30));
    assert_eq!(metadata.paused_duration_ms, 2_000);
    assert_eq!(metadata.disconnected_duration_ms, 5_000);
    assert_eq!(metadata.wall_clock_duration_ms, 30_000);
    metadata.mark_saved(at(40));
    assert_eq!(metadata.timestamps.saved_at_beijing, Some(format_beijing(at(40))));
}

#[test]
fn recovery_uses_segment_contents_when_manifest_was_not_updated_before_sleep() {
    let tail = MergedTail {
        elapsed_us: Ok(Some(25_100_000)),
        missing_samples: Ok(Some(2)),
        interpolated_duration_us: Ok(Some(20_000)),
        discarded_sequence_samples: Ok(Some(1)),
        charge: Ok(Some(micro_hours(6_958))),
        energy: Ok(Some(micro_hours(34_285))),
        charge_throughput: Ok(Some(micro_hours(6_958))),
        energy_throughput: Ok(Some(micro_hours(34_285))),
    };
    let summary = summarize_merged_recording(2, &tail).unwrap();

    assert_eq!(summary.rows, 2);
    assert_eq!(summary.elapsed_us, 25_100_000);
    assert_eq!(summary.charge_throughput, micro_hours(6_958));
    assert_eq!(summary.energy_throughput, micro_hours(34_285));

    assert_eq!(summarize_merged_recording(0, &tail).unwrap_err(), "合并后的录制文件没有采样点");
    let holed = MergedTail { charge: Ok(None), ..tail };
    assert_eq!(summarize_merged_recording(2, &holed).unwrap_err(), "合并录制字段 charge_uah 末行为空");
    let unreadable = MergedTail { elapsed_us: Err("no such column".to_string()), ..holed };
    assert_eq!(summarize_merged_recording(2, &unreadable).unwrap_err(), "no such column");
}

#[test]
fn segments_are_merged_under_one_header() {
    let merged = merge_csv_segments(&vec![b"a,b\n1,2\n".to_vec(), b"a,b\n3,4\n".to_vec(), b"a,b\n".to_vec()]);
    assert_eq!(merged, b"a,b\n1,2\n3,4\n");
    assert_eq!(mergeable_segments(&vec![false, true, true]), Ok(vec![1, 2]));
    assert_eq!(mergeable_segments(&vec![false]).unwrap_err(), "恢复会话中没有可合并的数据段");
}

#[test]
fn whole_lines_of_a_broken_file_are_kept() {
    assert_eq!(recover_csv_partial(&b"a,b\n1,2\n3,".to_vec()), Ok(8));
    assert_eq!(recover_csv_partial(&b"a,b".to_vec()).unwrap_err(), "CSV 尾段没有完整行");
}

#[test]
fn sessions_are_listed_from_the_newest() {
    let at = |seconds: i64| UtcInstant { seconds, nanos: 0 };
    assert_eq!(listing_order(&vec![at(5), at(9), at(7)]), vec![1, 2, 0]);
}

#[test]
fn a_recovery_must_restore_every_row() {
    assert!(check_recovery(7, 7).is_ok());
    assert!(check_recovery(6, 7).is_err());
}

#[test]
fn recovered_sessions_are_named_after_their_times() {
    let started = utc(2026, 8, 31, 16, 56, 13);
    let metadata = RecordingSessionMetadataV1::new(started, device(), 50, 1);
    let mut manifest = RecordingSessionManifestV1::new(RecordingFormat::Parquet, metadata);
    assert_eq!(manifest.state, SessionState::Recording);
    manifest.segments.push(RecordingSegmentMetadata {
        index: 0,
        file_name: "segment-000000.csv".to_string(),
        start_row: 0,
        end_row: 1,
        start_elapsed_us: 0,
        end_elapsed_us: 20_000,
        sealed: true,
    });
    assert_eq!(
        recoverable_filename(&manifest),
        "KM003C_2026-09-01-00-56-13.000-BJT_recovered_50SPS.parquet"
    );
    manifest.metadata.timestamps.set_ended(utc(2026, 8, 31, 17, 8, 42));
    assert_eq!(
        recoverable_filename(&manifest),
        "KM003C_20260901-005613_to_20260901-010842_BJT_50SPS.parquet"
    );
}

#[test]
fn files_left_behind_are_found_by_name_and_kind() {
    let left = |name: &str, extension: Option<&str>, is_file: bool| LeftFile {
        name: name.to_string(),
        extension: extension.map(str::to_string),
        is_file,
    };
    let files = vec![
        left("b.csv", Some("csv"), true),
        left("a.csv", Some("csv"), true),
        left("c.csv", Some("csv"), false),
        left("d.txt", Some("txt"), true),
        left("e", None, true),
    ];
    assert!(files[0].recoverable() && !files[2].recoverable());
    // The last name comes first.
    assert_eq!(recoverable_recordings(&files), vec![0, 1]);
}

#[test]
fn demonstration_samples_go_on_from_each_other() {
    let reading = |elapsed_us: u64, ibus_ua: i64| DemoReading {
        elapsed_us,
        sequence: 3,
        vbus_uv: 9_000_000,
        ibus_ua,
        power_uw: 9 * ibus_ua,
    };
    let first = demo_sample(None, reading(1_000_000, 2_000_000));
    assert_eq!(first.charge, 2 * 2_000_000 * 1_000_000);
    let second = demo_sample(Some(first), reading(2_000_000, -1_000_000));
    assert_eq!(second.charge, first.charge + 1_000_000 * 1_000_000);
    assert_eq!(second.charge_throughput, first.charge_throughput + 3_000_000 * 1_000_000);
    assert_eq!((second.marker, second.sample_rate_hz), (0xD3, 50));
}

#[test]
fn exported_logs_come_back_as_they_were_logged() {
    let logged: Vec<MeasurementSample> =
        (0..3_u64).map(|index| MeasurementSample { sample_index: index, ..sample(index * 1_000_000, 2, 40) }).collect();
    let samples = columns_to_recording(&read(offline_to_table(&logged))).unwrap();
    assert_eq!(samples.len(), 3);
    for (read, written) in samples.iter().zip(&logged) {
        let kept = MeasurementSample {
            sequence: 0,
            marker: 0,
            sample_rate_hz: 0,
            missing_samples: 0,
            gap_duration_us: 0,
            interpolated: false,
            cumulative_missing_samples: 0,
            cumulative_interpolated_duration_us: 0,
            cc1_uv: 0,
            cc2_uv: 0,
            dp_uv: 0,
            dm_uv: 0,
            ..*written
        };
        assert_eq!(*read, kept);
    }
}

/// Makes a copy among files in memory; `broken` is a step that fails.
fn copy(
    files: &mut Vec<(String, Vec<u8>)>,
    source: &str,
    destination: &str,
    metadata: Option<&[u8]>,
    broken: Option<CopyStep>,
) -> Result<(), String> {
    let beside = sidecar_path(destination);
    let place = |files: &Vec<(String, Vec<u8>)>, name: &str| files.iter().position(|file| file.0 == name);
    let mut job = CopyJob::begin(place(files, &beside).is_some(), metadata.is_some());
    while job.step != CopyStep::Done {
        let name = match job.step {
            CopyStep::OpenSource => source,
            CopyStep::CreateSidecar | CopyStep::WriteSidecar | CopyStep::RemoveSidecar => beside.as_str(),
            _ => destination,
        };
        let found = place(files, name);
        let reply = match (job.step, found) {
            (step, _) if Some(step) == broken => Err("disk full".to_string()),
            (CopyStep::OpenSource, None) => Err("not found".to_string()),
            (CopyStep::CreateDestination | CopyStep::CreateSidecar, Some(_)) => Err("exists".to_string()),
            (CopyStep::CreateDestination | CopyStep::CreateSidecar, None) => {
                files.push((name.to_string(), Vec::new()));
                Ok(())
            }
            (CopyStep::CopyData, Some(index)) => {
                files[index].1 = files[place(files, source).unwrap()].1.clone();
                Ok(())
            }
            (CopyStep::WriteSidecar, Some(index)) => {
                files[index].1 = metadata.unwrap().to_vec();
                Ok(())
            }
            (CopyStep::RemoveDestination | CopyStep::RemoveSidecar, Some(index)) => {
                files.remove(index);
                Ok(())
            }
            _ => Ok(()),
        };
        job.answer(reply);
    }
    match job.failure {
        Some(failure) => Err(failure),
        None => Ok(()),
    }
}

#[test]
fn imported_copy_preserves_bytes_metadata_and_existing_files() {
    let bytes = b"elapsed_us,sample_index\n0,1\n".to_vec();
    let metadata = b"{}".to_vec();
    let mut files = vec![("source.csv".to_string(), bytes.clone())];
    copy(&mut files, "source.csv", "copy.csv", Some(&metadata), None).unwrap();
    let copied = vec![
        ("source.csv".to_string(), bytes.clone()),
        ("copy.csv".to_string(), bytes),
        (sidecar_path("copy.csv"), metadata),
    ];
    assert_eq!(files, copied);
    assert!(copy(&mut files, "source.csv", "copy.csv", None, None).is_err());
    assert!(copy(&mut files, "source.csv", "source.csv", None, None).is_err());
    assert_eq!(files, copied);
}

#[test]
fn a_copy_that_fails_leaves_nothing_behind() {
    let first = vec![("source.csv".to_string(), vec![1, 2, 3])];
    for step in [
        CopyStep::OpenSource,
        CopyStep::CreateDestination,
        CopyStep::CopyData,
        CopyStep::CreateSidecar,
        CopyStep::WriteSidecar,
    ] {
        let mut files = first.clone();
        let result = copy(&mut files, "source.csv", "copy.csv", Some(b"{}"), Some(step));
        assert_eq!(result, Err("disk full".to_string()));
        assert_eq!(files, first);
    }
    let mut files = vec![first[0].clone(), (sidecar_path("copy.csv"), Vec::new())];
    let refused = copy(&mut files, "source.csv", "copy.csv", None, None);
    assert_eq!(refused, Err("Metadata already exists; choose a new filename".to_string()));
    assert_eq!(files.len(), 2);
}
