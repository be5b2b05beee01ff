//! What the recording controls ask for, and what they make of the replies.
use vstd::prelude::*;
use vstd::string::*;

use crate::control_model::{offsets_after, ControlView, LedgerFacts, PersistPurpose, Stage};
use crate::i18n::Language;
use crate::measurement::MeasurementSample;
use crate::options::RecordingPhase;
use crate::recording::{
    origin_at, rows_of, PushPlan, Recorder, RecordingOffsets, RecordingRow, RecordingTotals,
};
use crate::recording_control::{reply_of, text_of, RecordingControl, SessionLedger};
use crate::recording_session::{
    segment_facts, IntervalReason, RecordingSessionManifestV1, RecordingSessionMetadataV1,
    SessionState, SESSION_SCHEMA_VERSION,
};
use crate::session_core::{Context, FrozenTotals};
use crate::session_text::{said, say, segment_file_name, segment_name};
use crate::statistics::RecordingSessionStatistics;
use crate::text::{characters, same_text};

verus! {

/// What is carried on from after `last`.
pub fn offsets_from(last: &MeasurementSample) -> (offsets: RecordingOffsets)
    ensures
        offsets == offsets_after(*last),
{
    RecordingOffsets {
        elapsed_us: last.elapsed_us,
        sample_index: last.sample_index.saturating_add(1),
        charge: last.charge,
        energy: last.energy,
        charge_throughput: last.charge_throughput,
        energy_throughput: last.energy_throughput,
        cumulative_missing_samples: last.cumulative_missing_samples,
        cumulative_interpolated_duration_us: last.cumulative_interpolated_duration_us,
        cumulative_discarded_sequence_samples: last.cumulative_discarded_sequence_samples,
    }
}

/// The rows of a live buffer, relative to its first sample.
pub fn buffer_rows(samples: &Vec<MeasurementSample>) -> (rows: Vec<RecordingRow>)
    requires
        samples@.len() > 0,
    ensures
        rows@ == rows_of(samples@, origin_at(Some(samples@[0])), RecordingOffsets::none(), 0),
{
    let recorder = Recorder::start("".to_owned(), Some(samples[0]));
    match recorder.push(samples) {
        PushPlan::Send(rows) => rows,
        _ => Vec::new(),
    }
}

// -- What is asked for --

impl RecordingControl {
    /// The manifest that is to be written now, if the session has one.
    pub fn manifest(&self) -> (manifest: Option<RecordingSessionManifestV1>)
        ensures
            manifest is Some <==> self@.directory is Some && self@.ledger is Some
                && self@.facts is Some,
            manifest matches Some(manifest) ==> {
                &&& manifest.schema_version == SESSION_SCHEMA_VERSION
                &&& manifest.state == self@.ledger->0.state
                &&& manifest.format == self@.ledger->0.format
                &&& manifest.metadata@ == self@.facts->0
                &&& segment_facts(manifest.segments@) == self@.ledger->0.segments
            },
    {
        if self.directory.is_none() {
            return None;
        }
        match (&self.ledger, &self.metadata) {
            (Some(ledger), Some(metadata)) => Some(
                RecordingSessionManifestV1 {
                    schema_version: SESSION_SCHEMA_VERSION,
                    state: ledger.state,
                    format: ledger.format,
                    metadata: metadata.copied(),
                    segments: ledger.copied_segments(),
                },
            ),
            _ => None,
        }
    }

    /// The first manifest of a session whose storage is being made.
    pub fn first_manifest(&self) -> (manifest: Option<RecordingSessionManifestV1>)
        ensures
            manifest is Some <==> self@.draft is Some,
            manifest matches Some(manifest) ==> {
                &&& manifest.schema_version == SESSION_SCHEMA_VERSION
                &&& manifest.state == SessionState::Recording
                &&& manifest.format == self@.format
                &&& manifest.metadata@ == self@.draft->0
                &&& manifest.segments@.len() == 0
            },
    {
        match &self.draft {
            Some(draft) => Some(RecordingSessionManifestV1::new(self.format, draft.copied())),
            None => None,
        }
    }

    /// The name of the file that is to be begun.
    pub fn next_file_name(&self) -> (name: Option<String>)
        ensures
            text_of(name) == match self@.ledger {
                Some(ledger) => Some(segment_name(self@.core.next_segment_index, ledger.format)),
                None => None,
            },
    {
        match &self.ledger {
            Some(ledger) => Some(segment_file_name(self.core.next_segment_index, ledger.format)),
            None => None,
        }
    }

    /// Whether the writer still waits to be told to finish.
    pub fn writer_is_open(&self) -> (open: bool)
        ensures
            open == (self@.recorder matches Some(recorder) && !recorder.finishing),
    {
        match &self.recorder {
            Some(recorder) => !recorder.is_finishing(),
            None => false,
        }
    }
}

// -- A device that returns --

impl RecordingControl {
    /// The serial number of the device that the session waits for, if it does.
    pub fn awaited_serial(&self) -> (serial: Option<&str>)
        ensures
            match serial {
                Some(serial) => Some(serial@),
                None => None,
            } == self@.awaited_serial(),
    {
        if self.core.phase == RecordingPhase::WaitingForReconnect {
            match &self.metadata {
                Some(metadata) => Some(metadata.device.serial.as_str()),
                None => Some(""),
            }
        } else {
            None
        }
    }

    /// The device that the session waits for is back.
    pub fn device_returned(&mut self)
        requires
            old(self)@.well_formed(),
            old(self)@.at_rest(),
        ensures
            final(self)@ == old(self)@.enters(RecordingPhase::Recovering),
            final(self)@.well_formed(),
    {
        self.core.phase = RecordingPhase::Recovering;
    }
}

// -- An earlier session --

impl RecordingControl {
    /// Says why an earlier session of device `serial` cannot go on, if it
    /// cannot; `connected` is the device that is there.
    pub fn refuse_loading(
        &mut self,
        connected: Option<&str>,
        serial: &str,
        language: Language,
    ) -> (refused: bool)
        requires
            old(self)@.well_formed(),
            old(self)@.at_rest(),
        ensures
            ({
                let refusal = old(self)@.load_refusal(
                    match connected {
                        Some(connected) => Some(connected@),
                        None => None,
                    },
                    serial@,
                    language,
                );
                &&& refused == refusal is Some
                &&& final(self)@ == (match refusal {
                    Some(refusal) => old(self)@.says(refusal),
                    None => old(self)@,
                })
            }),
            final(self)@.well_formed(),
    {
        proof {
            reveal(ControlView::load_refusal);
        }
        if self.core.session {
            self.status = language.pick(
                "请先保存当前录制",
                "Save the current recording first",
            ).to_owned();
            return true;
        }
        match connected {
            None => {
                self.status = language.pick(
                    "请先连接原 KM003C，再继续恢复录制",
                    "Connect the original KM003C before continuing",
                ).to_owned();
                true
            },
            Some(connected) => {
                let wanted = characters(serial);
                if wanted.len() > 0 && !same_text(&wanted, connected) {
                    self.status = say(
                        language.pick(
                            "设备序列号不匹配，需要原设备",
                            "Serial number mismatch; the original device is required",
                        ),
                        "：",
                        serial,
                    );
                    true
                } else {
                    false
                }
            },
        }
    }

    /// Says that an earlier session could not be read.
    pub fn loading_failed(&mut self, error: &str, language: Language)
        requires
            old(self)@.well_formed(),
        ensures
            final(self)@ == old(self)@.says(
                said(
                    language.chosen("恢复会话读取失败"@, "Failed to read the recovery session"@),
                    "："@,
                    error@,
                ),
            ),
            final(self)@.well_formed(),
    {
        self.status = say(
            language.pick("恢复会话读取失败", "Failed to read the recovery session"),
            "：",
            error,
        );
    }

    /// Takes up the earlier session in `directory`, which amounts to `totals`
    /// and ended with the last of `samples`, or says why it cannot go on;
    /// `connected` is the device that is there.
    pub fn continue_recoverable_session(
        &mut self,
        connected: Option<&str>,
        directory: String,
        manifest: RecordingSessionManifestV1,
        totals: RecordingTotals,
        samples: &Vec<MeasurementSample>,
        ctx: Context,
    ) -> (taken: bool)
        requires
            old(self)@.well_formed(),
            old(self)@.at_rest(),
            manifest.metadata.valid(),
            ctx.valid(),
        ensures
            taken == old(self)@.can_load(
                match connected {
                    Some(connected) => Some(connected@),
                    None => None,
                },
                manifest.metadata.device.serial@,
                samples@,
                ctx.language,
            ),
            final(self)@ == old(self)@.load(
                match connected {
                    Some(connected) => Some(connected@),
                    None => None,
                },
                directory@,
                (LedgerFacts {
                    state: manifest.state,
                    format: manifest.format,
                    segments: segment_facts(manifest.segments@),
                }),
                manifest.metadata@.with_totals(totals),
                samples@,
                ctx,
            ),
            final(self)@.well_formed(),
    {
        proof {
            reveal(ControlView::load);
        }
        if self.refuse_loading(connected, manifest.metadata.device.serial.as_str(), ctx.language) {
            return false;
        }
        if samples.len() == 0 {
            self.status = ctx.language.pick(
                "恢复会话没有采样点",
                "The recovery session has no samples",
            ).to_owned();
            return false;
        }
        let mut metadata = manifest.metadata;
        metadata.update_from_totals(totals);
        let ledger = SessionLedger {
            state: manifest.state,
            format: manifest.format,
            segments: manifest.segments,
        };
        self.take_up_session(directory, ledger, metadata, samples, ctx);
        true
    }

    /// Takes up an earlier session.
    fn take_up_session(
        &mut self,
        directory: String,
        ledger: SessionLedger,
        metadata: RecordingSessionMetadataV1,
        samples: &Vec<MeasurementSample>,
        ctx: Context,
    )
        requires
            old(self)@.well_formed(),
            metadata.valid(),
            samples@.len() > 0,
            ctx.valid(),
        ensures
            final(self)@ == old(self)@.loaded(directory@, ledger@, metadata@, samples@, ctx),
            final(self)@.well_formed(),
    {
        proof {
            reveal(ControlView::loaded);
        }
        let offsets = offsets_from(&samples[samples.len() - 1]);
        let next: u32 = ledger.following_index();
        self.core.take_up(samples, offsets, next);
        let mut ledger = ledger;
        ledger.state = SessionState::Paused;
        let mut metadata = metadata;
        metadata.stop(IntervalReason::ApplicationRestart, ctx.utc);
        self.directory = Some(directory);
        self.ledger = Some(ledger);
        self.metadata = Some(metadata);
        self.status = ctx.language.pick(
            "恢复会话已载入 · 点击“继续记录”后续录",
            "Recovery session loaded · Select Resume to continue",
        ).to_owned();
        self.stage = Stage::Persisting(PersistPurpose::Loaded);
    }
}

// -- The live buffer --

impl RecordingControl {
    /// Says why the live buffer cannot be exported, if it cannot.
    pub fn refuse_export(&mut self, connected: bool, empty: bool) -> (refused: bool)
        requires
            old(self)@.well_formed(),
        ensures
            refused == (!connected || empty),
            final(self)@ == (if !connected {
                old(self)@.says("请先连接 KM003C，再导出数据"@)
            } else if empty {
                old(self)@.says("曲线缓冲区为空"@)
            } else {
                old(self)@
            }),
            final(self)@.well_formed(),
    {
        if !connected {
            self.status = "请先连接 KM003C，再导出数据".to_owned();
            true
        } else if empty {
            self.status = "曲线缓冲区为空".to_owned();
            true
        } else {
            false
        }
    }

    /// Notes that the rows of the live buffer were handed to a writer at `path`
    /// and that it was told to finish, or that this failed.
    pub fn buffer_exported(
        &mut self,
        path: String,
        samples: &Vec<MeasurementSample>,
        outcome: Result<(), String>,
    )
        requires
            old(self)@.well_formed(),
            old(self)@.at_rest(),
            samples@.len() > 0,
        ensures
            final(self)@ == old(self)@.exported(
                path@,
                samples@,
                match outcome {
                    Ok(_) => None,
                    Err(error) => Some(error@),
                },
            ),
            final(self)@.well_formed(),
    {
        proof {
            reveal(ControlView::exported);
        }
        match outcome {
            Err(error) => {
                self.status = error;
            },
            Ok(_) => {
                self.status = say("正在导出 ", "", path.as_str());
                let mut recorder = Recorder::start(path, Some(samples[0]));
                recorder.rows_taken(samples);
                let _ = recorder.request_finish(true);
                self.recorder = Some(recorder);
                self.last_recording = None;
            },
        }
    }

    /// Forgets the last recording and its statistics along with the live data.
    pub fn clear_data(&mut self)
        requires
            old(self)@.well_formed(),
            old(self)@.at_rest(),
        ensures
            final(self)@ == old(self)@.cleared(),
            final(self)@.well_formed(),
    {
        proof {
            reveal(ControlView::cleared);
        }
        self.core.phase = RecordingPhase::Idle;
        self.core.statistics = RecordingSessionStatistics::default();
        self.core.resume_offsets = None;
        self.core.last = FrozenTotals::nothing();
        self.core.plot_origin_us = 0;
        self.core.plot_origin_index = None;
        self.last_recording = None;
        self.status = "尚未录制".to_owned();
    }
}

// -- Replies --

impl RecordingControl {
    /// Goes on once the manifest was written, or could not be.
    fn manifest_persisted(&mut self, purpose: PersistPurpose, error: Option<String>, ctx: Context)
        requires
            old(self)@.well_formed(),
            ctx.valid(),
        ensures
            final(self)@ == old(self)@.persisted(purpose, text_of(error), ctx),
            final(self)@.well_formed(),
    {
        proof {
            reveal(ControlView::persisted);
        }
        match purpose {
            PersistPurpose::Sealed(purpose) => self.after_sealing(purpose, error, ctx),
            PersistPurpose::Started(purpose) => self.after_starting(purpose, error, ctx),
            PersistPurpose::Resumed(follow) => self.after_going_on(follow, error, ctx),
            PersistPurpose::Destination => match error {
                Some(error) => self.fail(error),
                None => {
                    self.core.phase = RecordingPhase::Finalizing;
                    self.status = ctx.language.pick(
                        "正在合并并校验录制数据…",
                        "Merging and validating recording data…",
                    ).to_owned();
                    self.stage = Stage::Rest;
                },
            },
            PersistPurpose::Segments => match error {
                Some(error) => self.fail(error),
                None => {
                    self.stage = Stage::Rest;
                },
            },
            PersistPurpose::Failure => {
                self.stage = Stage::Rest;
            },
            PersistPurpose::Loaded => {
                self.stage = Stage::Rest;
            },
        }
    }

    /// Goes on once what was awaited happened, or failed. A writer that was
    /// started, or a storage that was made, replies with its path.
    pub fn proceed(&mut self, reply: Result<String, String>, ctx: Context)
        requires
            old(self)@.well_formed(),
            ctx.valid(),
        ensures
            final(self)@ == old(self)@.replied(reply_of(reply), ctx),
            final(self)@.well_formed(),
    {
        proof {
            reveal(ControlView::replied);
        }
        match (self.stage, reply) {
            (Stage::Rest, _) => {},
            (Stage::Sending(pause), Ok(_)) => self.rows_taken(pause, ctx),
            (Stage::Sending(_), Err(_)) => self.writer_lost(ctx),
            (Stage::Finishing(purpose), Ok(_)) => self.file_sealed(purpose, ctx),
            (Stage::Finishing(purpose), Err(_)) => {
                let _ = self.release_file();
                self.after_sealing(
                    purpose,
                    Some("recording writer stopped unexpectedly".to_owned()),
                    ctx,
                );
            },
            (Stage::Persisting(purpose), Ok(_)) => self.manifest_persisted(purpose, None, ctx),
            (Stage::Persisting(purpose), Err(error)) => self.manifest_persisted(
                purpose,
                Some(error),
                ctx,
            ),
            (Stage::Creating, Ok(directory)) => self.storage_created(directory, ctx),
            (Stage::Creating, Err(error)) => {
                self.fail(error);
                self.draft = None;
            },
            (Stage::Starting(purpose), Ok(path)) => self.file_started(purpose, path, ctx),
            (Stage::Starting(purpose), Err(error)) => self.after_starting(
                purpose,
                Some(error),
                ctx,
            ),
            (Stage::Sleeping(purpose), Ok(_)) => self.after_sleeping(purpose, None, ctx),
            (Stage::Sleeping(purpose), Err(error)) => self.after_sleeping(
                purpose,
                Some(error),
                ctx,
            ),
            (Stage::Merging, Ok(_)) => {},
            (Stage::Merging, Err(error)) => self.merge_failed(error, ctx),
            (Stage::Staging, Ok(_)) => self.after_staging(None, ctx),
            (Stage::Staging, Err(error)) => self.after_staging(Some(error), ctx),
            (Stage::Annotating, Ok(_)) => self.after_annotating(None, ctx),
            (Stage::Annotating, Err(error)) => self.after_annotating(Some(error), ctx),
        }
    }
}

} // verus!
