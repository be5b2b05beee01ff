//! Beginning a file of a session, going on after a pause, beginning a session.
use vstd::prelude::*;
use vstd::string::*;

use crate::control_model::{
    ControlView, PersistPurpose, ResumeFollowUp, Stage, StartPurpose,
};
use crate::options::PauseReason;
use crate::recording::{Recorder, RecordingMetadata, RecordingOffsets};
use crate::recording_control::{lemma_facts_push, text_of, RecordingControl, SessionLedger};
use crate::recording_session::{
    RecordingSegmentMetadata, RecordingSessionMetadataV1, SegmentFacts, SessionFacts, SessionState,
    SESSION_SCHEMA_VERSION,
};
use crate::session_core::Context;
use crate::session_text::{auto_resumed_status, say, segment_file_name};
use crate::statistics::PauseInterval;

verus! {

impl RecordingControl {
    /// What the next file carries on from.
    pub(crate) fn offsets_for(&self, purpose: StartPurpose) -> (offsets: RecordingOffsets)
        ensures
            offsets == self@.next_offsets(purpose),
    {
        match purpose {
            StartPurpose::New => RecordingOffsets::default(),
            _ => self.core.continuation,
        }
    }

    /// Begins to begin a new file.
    pub(crate) fn start_file(&mut self, purpose: StartPurpose, ctx: Context)
        requires
            old(self)@.sound(),
            ctx.valid(),
        ensures
            final(self)@ == old(self)@.starting(purpose, ctx),
            final(self)@.well_formed(),
    {
        proof {
            reveal(ControlView::starting);
        }
        if self.is_writing() {
            self.after_starting(purpose, None, ctx);
        } else if self.directory.is_none() {
            self.after_starting(purpose, Some("录制会话目录不存在".to_owned()), ctx);
        } else if self.ledger.is_none() {
            self.after_starting(purpose, Some("录制会话清单不存在".to_owned()), ctx);
        } else {
            self.stage = Stage::Starting(purpose);
        }
    }

    /// Records into a new file at `path`.
    pub(crate) fn file_started(&mut self, purpose: StartPurpose, path: String, ctx: Context)
        requires
            old(self)@.well_formed(),
            old(self)@.ledger is Some,
        ensures
            final(self)@ == old(self)@.started(purpose, path@, ctx),
            final(self)@.well_formed(),
    {
        proof {
            reveal(ControlView::started);
        }
        let offsets = self.offsets_for(purpose);
        let index: u32 = self.core.next_segment_index;
        self.core.segment_start = offsets;
        self.core.continuation = offsets;
        self.core.next_segment_index = index.saturating_add(1);
        if let Some(ledger) = &mut self.ledger {
            let segment = RecordingSegmentMetadata {
                index,
                file_name: segment_file_name(index, ledger.format),
                start_row: offsets.sample_index,
                end_row: offsets.sample_index,
                start_elapsed_us: offsets.elapsed_us,
                end_elapsed_us: offsets.elapsed_us,
                sealed: false,
            };
            proof {
                lemma_facts_push(ledger.segments@, segment);
            }
            ledger.segments.push(segment);
        }
        self.recorder = Some(Recorder::start_with_offsets(path, ctx.latest, offsets));
        self.stage = Stage::Persisting(PersistPurpose::Started(purpose));
        assert(self@ =~= old(self)@.started(purpose, path@, ctx));
    }

    /// Goes on once a new file was begun, or could not be.
    pub(crate) fn after_starting(&mut self, purpose: StartPurpose, error: Option<String>, ctx: Context)
        requires
            old(self)@.sound(),
            ctx.valid(),
        ensures
            final(self)@ == old(self)@.after_start(purpose, text_of(error), ctx),
            final(self)@.well_formed(),
    {
        proof {
            reveal(ControlView::after_start);
        }
        match (purpose, error) {
            (StartPurpose::New, Some(error)) => self.fail(error),
            (StartPurpose::New, None) => self.begin_session(ctx),
            (StartPurpose::Rotate, Some(error)) => self.stall(error, ctx),
            (StartPurpose::Rotate, None) => {
                self.stage = Stage::Rest;
            },
            (StartPurpose::Resume(follow), Some(error)) => {
                self.fail(error);
                self.resume_further(follow, ctx);
            },
            (StartPurpose::Resume(follow), None) => {
                if self.sleep_protection && !self.core.sleep_held {
                    self.stage = Stage::Sleeping(purpose);
                } else {
                    self.go_on(follow, ctx);
                }
            },
        }
    }

    /// Says that the session went on by itself or after its device came back.
    pub(crate) fn resume_further(&mut self, follow: ResumeFollowUp, ctx: Context)
        ensures
            final(self)@ == old(self)@.resumed_further(follow, ctx),
            old(self)@.well_formed() ==> final(self)@.well_formed(),
            final(self).stage == old(self).stage,
    {
        proof {
            reveal(ControlView::resumed_further);
        }
        match follow {
            ResumeFollowUp::Plain => {},
            ResumeFollowUp::Automatic => {
                self.status = auto_resumed_status(ctx.language, self.rule);
            },
            ResumeFollowUp::Reconnected => {
                self.status = ctx.language.pick(
                    "USB 已重连 · 正在续录同一段记录",
                    "USB reconnected · Continuing the same recording",
                ).to_owned();
            },
        }
    }

    /// Goes on with the session.
    pub fn resume_recording(&mut self, streaming: bool, follow: ResumeFollowUp, ctx: Context)
        requires
            old(self)@.well_formed(),
            old(self)@.at_rest(),
            ctx.valid(),
        ensures
            final(self)@ == old(self)@.resume(streaming, follow, ctx),
            final(self)@.well_formed(),
    {
        proof {
            reveal(ControlView::resume);
        }
        let open: bool = match &self.recorder {
            Some(recorder) => !recorder.is_finishing(),
            None => true,
        };
        if !(self.core.session && self.core.paused && streaming && open) {
            self.resume_further(follow, ctx);
            return;
        }
        let disconnected: bool = match self.core.pause_reason {
            Some(PauseReason::UsbDisconnected) => true,
            _ => false,
        };
        if let Some(metadata) = &mut self.metadata {
            metadata.carry_on(disconnected, ctx.utc);
            metadata.refresh_durations(ctx.utc);
        }
        self.start_file(StartPurpose::Resume(follow), ctx);
    }

    /// Records from the newest sample on.
    pub(crate) fn go_on(&mut self, follow: ResumeFollowUp, ctx: Context)
        requires
            old(self)@.sound(),
        ensures
            final(self)@ == old(self)@.resumes(follow, ctx),
            final(self)@.well_formed(),
    {
        proof {
            reveal(ControlView::resumes);
            reveal(ControlView::ledger_in);
        }
        match (self.core.active_pause_us, self.core.plotted_latest(ctx.latest)) {
            (Some(start_us), Some(end_us)) => {
                if end_us >= start_us {
                    self.pauses.push(PauseInterval { start_us, end_us });
                }
            },
            _ => {},
        }
        self.core.resume(ctx);
        self.mark_ledger(SessionState::Recording);
        self.stage = Stage::Persisting(PersistPurpose::Resumed(follow));
        assert(self@ =~= old(self)@.resumes(follow, ctx));
    }

    /// Interrupts the session, shows `error` and stops the clock.
    pub(crate) fn stall(&mut self, error: String, ctx: Context)
        ensures
            final(self)@ == old(self)@.stalls(error@, ctx),
            old(self)@.sound() ==> final(self)@.sound(),
            final(self).stage == Stage::Rest,
    {
        proof {
            reveal(ControlView::stalls);
        }
        let writing = self.is_writing();
        self.fail(error);
        self.core.freeze_recording_clock(ctx, writing);
    }

    /// Goes on once the manifest of the resumed session was written, or could
    /// not be.
    pub(crate) fn after_going_on(&mut self, follow: ResumeFollowUp, error: Option<String>, ctx: Context)
        requires
            old(self)@.sound(),
        ensures
            final(self)@ == old(self)@.after_resume(follow, text_of(error), ctx),
            final(self)@.well_formed(),
    {
        proof {
            reveal(ControlView::after_resume);
        }
        match error {
            Some(error) => {
                self.stall(error, ctx);
                self.fault = None;
            },
            None => self.record_again(ctx),
        }
        self.resume_further(follow, ctx);
    }

    /// Says that the session is recorded again.
    pub(crate) fn record_again(&mut self, ctx: Context)
        ensures
            final(self)@ == old(self)@.records_again(ctx),
            old(self)@.sound() ==> final(self)@.sound(),
            final(self).stage == Stage::Rest,
    {
        proof {
            reveal(ControlView::records_again);
        }
        self.core.below_since_us = None;
        self.core.above_since_us = None;
        self.status = match self.fault.take() {
            Some(warning) => warning,
            None => ctx.language.pick(
                "录制中 · 已继续采集",
                "Recording · Capture resumed",
            ).to_owned(),
        };
        self.stage = Stage::Rest;
    }
}

impl RecordingControl {
    /// Begins to begin a session of `device`, in process `process_id`.
    pub fn start_recording(
        &mut self,
        device: Option<RecordingMetadata>,
        process_id: u32,
        ctx: Context,
    )
        requires
            old(self)@.well_formed(),
            old(self)@.at_rest(),
            ctx.valid(),
        ensures
            final(self)@.well_formed(),
            device is None ==> final(self)@ == old(self)@.start(None),
            device is Some ==> exists|draft: SessionFacts|
                is_draft(draft, device->0@, process_id, ctx) && final(self)@ == #[trigger] old(
                    self,
                )@.start(Some(draft)),
    {
        proof {
            reveal(ControlView::start);
        }
        match device {
            None => {
                self.status = "请先连接 KM003C，再开始录制".to_owned();
            },
            Some(device) => {
                let hertz: u32 = ctx.rate.hertz();
                let metadata = RecordingSessionMetadataV1::new(ctx.utc, device, hertz, process_id);
                let ghost draft = metadata@;
                assert(is_draft(draft, device@, process_id, ctx));
                if !self.is_writing() && !self.core.session {
                    self.draft = Some(metadata);
                    self.stage = Stage::Creating;
                }
                assert(self@ =~= old(self)@.start(Some(draft)));
            },
        }
    }

    /// Takes over the storage of the new session.
    pub(crate) fn storage_created(&mut self, directory: String, ctx: Context)
        requires
            old(self)@.well_formed(),
            old(self)@.draft is Some,
            ctx.valid(),
        ensures
            final(self)@ == old(self)@.created(directory@, ctx),
            final(self)@.well_formed(),
    {
        proof {
            reveal(ControlView::created);
        }
        self.directory = Some(directory);
        self.ledger = Some(
            SessionLedger {
                state: SessionState::Recording,
                format: self.format,
                segments: Vec::new(),
            },
        );
        self.metadata = self.draft.take();
        self.core.segment_start = RecordingOffsets::default();
        self.core.continuation = RecordingOffsets::default();
        self.core.next_segment_index = 0;
        assert(self.ledger->0@.segments =~= Seq::<SegmentFacts>::empty());
        self.start_file(StartPurpose::New, ctx);
    }

    /// Records the new session from the newest sample on.
    pub(crate) fn begin_session(&mut self, ctx: Context)
        requires
            old(self)@.sound(),
        ensures
            final(self)@ == old(self)@.begins(ctx),
            final(self)@.well_formed(),
    {
        proof {
            reveal(ControlView::begins);
        }
        self.core.begin(ctx);
        self.status = ctx.language.pick(
            "记录中 · 已启用分段恢复，保存时再选择目标位置",
            "Recording · Segmented recovery is active; choose the destination when saving",
        ).to_owned();
        self.last_recording = None;
        self.last_metadata = None;
        self.destination = None;
        self.pauses = Vec::new();
        self.begun = true;
        if self.sleep_protection {
            self.stage = Stage::Sleeping(StartPurpose::New);
        } else {
            self.stage = Stage::Rest;
        }
        assert(self@ =~= old(self)@.begins(ctx));
    }

    /// Goes on once idle sleep is held off, or could not be.
    pub(crate) fn after_sleeping(&mut self, purpose: StartPurpose, error: Option<String>, ctx: Context)
        requires
            old(self)@.sound(),
        ensures
            final(self)@ == old(self)@.after_sleep(purpose, text_of(error), ctx),
            final(self)@.well_formed(),
    {
        proof {
            reveal(ControlView::after_sleep);
        }
        match purpose {
            StartPurpose::Resume(follow) => {
                self.guard_again(error, ctx);
                self.go_on(follow, ctx);
            },
            _ => self.guard_session(error, ctx),
        }
    }

    /// Notes whether idle sleep is held off for a session that goes on.
    pub(crate) fn guard_again(&mut self, error: Option<String>, ctx: Context)
        ensures
            final(self)@ == old(self)@.guarded_again(text_of(error), ctx),
            old(self)@.sound() ==> final(self)@.sound(),
            final(self).stage == old(self).stage,
    {
        proof {
            reveal(ControlView::guarded_again);
        }
        match error {
            Some(error) => {
                let warning = say(
                    ctx.language.pick(
                        "已继续录制，但睡眠保护不可用",
                        "Recording resumed, but sleep protection is unavailable",
                    ),
                    " · ",
                    error.as_str(),
                );
                self.fault = Some(warning);
            },
            None => {
                self.fault = None;
                self.core.sleep_held = true;
            },
        }
    }

    /// Notes whether idle sleep is held off for a new session.
    pub(crate) fn guard_session(&mut self, error: Option<String>, ctx: Context)
        ensures
            final(self)@ == old(self)@.guarded(text_of(error), ctx),
            old(self)@.sound() ==> final(self)@.sound(),
            final(self).stage == Stage::Rest,
    {
        proof {
            reveal(ControlView::guarded);
        }
        match error {
            Some(error) => {
                self.core.sleep_held = false;
                self.status = say(
                    ctx.language.pick(
                        "录制已开始，但睡眠保护不可用",
                        "Recording started, but sleep protection is unavailable",
                    ),
                    " · ",
                    error.as_str(),
                );
            },
            None => {
                self.core.sleep_held = true;
            },
        }
        self.stage = Stage::Rest;
    }
}

/// Whether `draft` is what is known of a session of `device` that begins now.
pub open spec fn is_draft(
    draft: SessionFacts,
    device: crate::recording::DeviceFacts,
    process_id: u32,
    ctx: Context,
) -> bool {
    &&& draft.valid()
    &&& draft.schema_version == SESSION_SCHEMA_VERSION
    &&& draft.session_id == crate::utc::session_id_text(ctx.utc, process_id)
    &&& draft.times.started == ctx.utc
    &&& draft.times.ended is None
    &&& draft.times.saved is None
    &&& draft.times.timezone == "Asia/Shanghai"@
    &&& draft.times.started_text == crate::utc::beijing_text(ctx.utc)
    &&& draft.times.ended_text is None
    &&& draft.times.saved_text is None
    &&& draft.device == device
    &&& draft.sample_rate_hz == ctx.rate.samples_per_second()
    &&& draft.wall_clock_duration_ms == 0
    &&& draft.paused_duration_ms == 0
    &&& draft.disconnected_duration_ms == 0
    &&& draft.totals() == crate::recording::totals_of_offsets(RecordingOffsets::none())
    &&& draft.completeness == (crate::recording::Completeness { measured_us: 1, elapsed_us: 1 })
    &&& draft.pauses.len() == 0
    &&& draft.disconnects.len() == 0
}

} // verus!
