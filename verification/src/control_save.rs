//! Stopping and saving a session, following its writers, taking up an earlier
//! one.
use vstd::prelude::*;
use vstd::string::*;

use crate::control_model::{ControlView, PersistPurpose, SealPurpose, Stage};
use crate::i18n::Language;
use crate::options::RecordingPhase;
use crate::recording::{RecordingEvent, RecordingOffsets, RecordingSummary, RecordingTotals};
use crate::recording_control::{
    event_facts, events_facts, finalizing_of, lemma_finalizing_len, lemma_finalizing_push,
    summary_facts, text_of, FinalizingSegment, MergeReport, RecordingControl,
};
use crate::recording_session::{RecordingSessionMetadataV1, SessionState};
use crate::session_core::Context;
use crate::session_text::{
    cut_short_status, row_mismatch, save_failed_status, saved_status, say, written_status,
};
use crate::text::{characters, same_text};

verus! {

impl RecordingControl {
    /// Stops the recording; a session stays recoverable. `told` says whether a
    /// writer without a session could be told to finish.
    pub fn stop_recording(&mut self, told: bool, ctx: Context)
        requires
            old(self)@.well_formed(),
            old(self)@.at_rest(),
            ctx.valid(),
        ensures
            final(self)@ == old(self)@.stop(told, ctx),
            final(self)@.well_formed(),
    {
        proof {
            reveal(ControlView::stop);
        }
        if self.core.session {
            let writing = self.is_writing();
            self.core.freeze_recording_clock(ctx, writing);
            self.end_session_time(ctx);
            self.seal(SealPurpose::Stop, ctx);
            return;
        }
        let mut error: Option<String> = None;
        let mut path: Option<String> = None;
        if let Some(recorder) = &mut self.recorder {
            let summary = recorder.summary_snapshot();
            match recorder.request_finish(told) {
                Ok(()) => {
                    path = Some(summary.path);
                },
                Err(reason) => {
                    error = Some(reason);
                },
            }
        }
        if let Some(reason) = error {
            self.fail(reason);
        } else if let Some(path) = path {
            self.status = say("正在安全结束录制：", "", path.as_str());
        }
    }

    /// Notes in the metadata that the session ends now.
    fn end_session_time(&mut self, ctx: Context)
        requires
            old(self)@.facts matches Some(facts) ==> facts.valid(),
            ctx.valid(),
        ensures
            final(self)@ == (ControlView {
                facts: match old(self)@.facts {
                    Some(facts) => Some(facts.ended(ctx.utc).with_durations(ctx.utc)),
                    None => None,
                },
                ..old(self)@
            }),
            final(self)@.facts matches Some(facts) ==> facts.valid(),
            *final(self) == (RecordingControl { metadata: final(self).metadata, ..*old(self) }),
    {
        if let Some(metadata) = &mut self.metadata {
            metadata.timestamps.set_ended(ctx.utc);
            metadata.refresh_durations(ctx.utc);
        }
    }

    /// Whether the session can be saved.
    pub fn can_be_saved(&self) -> (can: bool)
        ensures
            can == self@.can_save(),
    {
        self.core.session && self.core.phase != RecordingPhase::Finalizing
    }

    /// The file name under which the session is offered, if it ends now.
    pub fn suggested_filename(&self, ctx: Context) -> (name: String)
        requires
            self@.sound(),
            ctx.valid(),
        ensures
            name@ == match self@.facts {
                Some(facts) => crate::recording_session::filename_text(
                    crate::utc::compact_beijing_text(facts.times.started),
                    crate::utc::compact_beijing_text(ctx.utc),
                    facts.sample_rate_hz,
                    self@.format,
                ),
                None => "KM003C-Recording."@ + self@.format.suffix(),
            },
    {
        match &self.metadata {
            Some(metadata) => {
                let mut preview = metadata.copied();
                preview.timestamps.set_ended(ctx.utc);
                preview.suggested_filename(self.format, ctx.utc)
            },
            None => {
                let mut name = "KM003C-Recording.".to_owned();
                name.append(self.format.extension());
                name
            },
        }
    }

    /// Saves the paused session to `destination`, or not after all.
    pub fn save_recording(&mut self, destination: Option<String>, ctx: Context)
        requires
            old(self)@.well_formed(),
            old(self)@.at_rest(),
            ctx.valid(),
        ensures
            final(self)@ == old(self)@.save(text_of(destination), ctx),
            final(self)@.well_formed(),
    {
        proof {
            reveal(ControlView::save);
            reveal(ControlView::ledger_in);
        }
        if !self.can_be_saved() {
            return;
        }
        match destination {
            None => {
                self.status = "已取消保存 · 临时录制仍保留，可继续记录或再次保存".to_owned();
            },
            Some(destination) => {
                self.end_session_time(ctx);
                self.destination = Some(destination);
                self.mark_ledger(SessionState::Finalizing);
                self.stage = Stage::Persisting(PersistPurpose::Destination);
            },
        }
    }

    /// Interrupts a session that claims to be recorded without a live writer.
    pub fn check_writer(&mut self, ctx: Context)
        requires
            old(self)@.well_formed(),
            old(self)@.at_rest(),
            ctx.valid(),
        ensures
            final(self)@ == old(self)@.checked(ctx),
            final(self)@.well_formed(),
    {
        proof {
            reveal(ControlView::checked);
        }
        match self.find_inconsistency(ctx.language) {
            Some(error) => self.interrupt_recording_after_writer_failure(error.to_owned(), ctx),
            None => {},
        }
    }

    /// What is wrong with a session that claims to be recorded.
    fn find_inconsistency(&self, language: Language) -> (error: Option<&'static str>)
        ensures
            (match error {
                Some(error) => Some(error@),
                None => None,
            }) == self@.inconsistency(language),
    {
        proof {
            reveal(ControlView::inconsistency);
        }
        if !(self.core.session && self.core.phase == RecordingPhase::Recording) {
            return None;
        }
        if self.core.paused {
            return Some(
                language.pick(
                    "录制状态不一致：会话已暂停但界面仍显示录制中",
                    "Inconsistent recording state: the session is paused while the UI reports recording",
                ),
            );
        }
        match &self.recorder {
            None => Some(
                language.pick(
                    "录制状态不一致：录制器已退出",
                    "Inconsistent recording state: the recording writer has exited",
                ),
            ),
            Some(recorder) => if recorder.is_finishing() {
                Some(
                    language.pick(
                        "录制状态不一致：录制器正在结束",
                        "Inconsistent recording state: the recording writer is finishing",
                    ),
                )
            } else {
                None
            },
        }
    }

    /// Follows up a writer that is finishing like the file of a sealed segment.
    pub fn adopt_finishing_writer(&mut self, ctx: Context)
        requires
            old(self)@.well_formed(),
            old(self)@.at_rest(),
            ctx.valid(),
        ensures
            final(self)@ == old(self)@.adopted(ctx),
            final(self)@.well_formed(),
            final(self)@.at_rest(),
    {
        proof {
            reveal(ControlView::adopted);
            reveal(ControlView::released);
            reveal(ControlView::measured);
            reveal(ControlView::ledger_bounded);
        }
        let finishing: bool = match &self.recorder {
            Some(recorder) => recorder.is_finishing(),
            None => false,
        };
        if self.ledger.is_none() || !finishing {
            return;
        }
        let index: u32 = self.core.next_segment_index.saturating_sub(1);
        let recorder = self.release_file();
        let totals = recorder.totals();
        self.measure(totals, ctx);
        self.bound_ledger(index, totals, false);
        let segment = FinalizingSegment { index, recorder };
        proof {
            lemma_finalizing_push(self.finalizing@, segment);
        }
        self.finalizing.push(segment);
        if self.core.session && (self.core.phase == RecordingPhase::Recording || self.core.phase
            == RecordingPhase::Paused) {
            self.core.freeze_recording_clock(ctx, false);
            self.core.phase = RecordingPhase::Interrupted;
            self.status = ctx.language.pick(
                "已恢复异常录制状态 · 可点击继续记录",
                "Recovered an interrupted writer state · Select Resume to continue",
            ).to_owned();
        }
    }

    /// Follows up the writers of the closed files: `events` says of each of
    /// them how it ended, if it ended.
    pub fn poll_finalizing_recording_segments(
        &mut self,
        events: Vec<Option<RecordingEvent>>,
        ctx: Context,
    )
        requires
            old(self)@.well_formed(),
            old(self)@.at_rest(),
            events@.len() == old(self)@.finalizing.len(),
            ctx.valid(),
        ensures
            final(self)@ == old(self)@.polled(events_facts(events@), ctx),
            final(self)@.well_formed(),
    {
        proof {
            reveal(ControlView::polled);
            lemma_finalizing_len(self.finalizing@);
        }
        let mut events = events;
        let ghost all = events_facts(events@);
        let ghost before = self@;
        let mut changed: bool = false;
        assert(events_facts(events@) =~= all.take(events@.len() as int));
        while events.len() > 0
            invariant
                ctx.valid(),
                self@.well_formed(),
                self@.at_rest(),
                events@.len() <= all.len(),
                events@.len() <= self@.finalizing.len(),
                events_facts(events@) == all.take(events@.len() as int),
                before.segments_ended(all, ctx) == self@.segments_ended(
                    events_facts(events@),
                    ctx,
                ),
                changed == (exists|i: int|
                    events@.len() <= i < all.len() && (#[trigger] all[i]) is Some),
            decreases events.len(),
        {
            let ghost left = events_facts(events@);
            let at: usize = events.len() - 1;
            let event = events.pop();
            assert(events_facts(events@) =~= left.drop_last());
            assert(events_facts(events@) =~= all.take(events@.len() as int));
            assert(left.last() == all[at as int]);
            match event {
                Some(Some(event)) => {
                    assert(left.last() == Some(event_facts(event)));
                    self.segment_ended(at, event, ctx);
                    changed = true;
                    assert(all[at as int] is Some);
                },
                _ => {
                    assert(left.last() is None);
                },
            }
        }
        assert(events_facts(events@) =~= Seq::empty());
        if changed {
            self.stage = Stage::Persisting(PersistPurpose::Segments);
        }
    }

    /// Follows up the writer of closed file `at`, which ended.
    fn segment_ended(&mut self, at: usize, event: RecordingEvent, ctx: Context)
        requires
            old(self)@.well_formed(),
            old(self)@.at_rest(),
            at < old(self)@.finalizing.len(),
            ctx.valid(),
        ensures
            final(self)@ == old(self)@.segment_ended(at as int, event_facts(event), ctx),
            final(self)@.well_formed(),
            final(self)@.at_rest(),
            final(self)@.finalizing.len() == old(self)@.finalizing.len() - 1,
    {
        proof {
            reveal(ControlView::segment_ended);
            reveal(ControlView::measured);
            reveal(ControlView::ledger_bounded);
            reveal(ControlView::ledger_in);
            lemma_finalizing_len(self.finalizing@);
        }
        let ghost segments = self.finalizing@;
        let segment = self.finalizing.swap_remove(at);
        proof {
            lemma_finalizing_len(self.finalizing@);
            assert(finalizing_of(self.finalizing@) =~= old(self)@.without(at as int));
        }
        let totals: Option<RecordingTotals> = match &event {
            RecordingEvent::Finished(summary) => Some(summary.totals),
            RecordingEvent::Interrupted(summary, _) => Some(summary.totals),
            RecordingEvent::Failed(_) => None,
        };
        match totals {
            Some(totals) => {
                self.bound_ledger(segment.index, totals, true);
                self.measure(totals, ctx);
            },
            None => {
                self.mark_ledger(SessionState::Interrupted);
                self.core.phase = RecordingPhase::Interrupted;
                if let RecordingEvent::Failed(error) = event {
                    self.status = say(
                        ctx.language.pick(
                            "录制数据段封口失败",
                            "Failed to seal a recording segment",
                        ),
                        "：",
                        error.as_str(),
                    );
                }
            },
        }
    }

    /// Begins to merge the files of the session once all of them are closed.
    pub fn finalize_saved_recording_session(&mut self)
        requires
            old(self)@.well_formed(),
            old(self)@.at_rest(),
        ensures
            final(self)@ == old(self)@.finalize(),
            final(self)@.well_formed(),
    {
        proof {
            reveal(ControlView::finalize);
            lemma_finalizing_len(self.finalizing@);
        }
        if self.core.phase == RecordingPhase::Finalizing && self.recorder.is_none()
            && self.finalizing.len() == 0 && self.directory.is_some()
            && self.destination.is_some() && self.ledger.is_some() && self.metadata.is_some() {
            self.stage = Stage::Merging;
        }
    }

    /// The metadata that are saved with the merged file.
    pub fn final_metadata(&self, ctx: Context) -> (metadata: RecordingSessionMetadataV1)
        requires
            self@.sound(),
            self@.facts is Some,
            ctx.valid(),
        ensures
            metadata@ == self@.final_facts(ctx),
            metadata.valid(),
    {
        proof {
            reveal(ControlView::final_facts);
        }
        let mut metadata = match &self.metadata {
            Some(metadata) => metadata.copied(),
            None => {
                assert(false);
                RecordingSessionMetadataV1::new(
                    ctx.utc,
                    crate::recording::RecordingMetadata {
                        model: "".to_owned(),
                        firmware: "".to_owned(),
                        serial: "".to_owned(),
                    },
                    0,
                    0,
                )
            },
        };
        let ghost facts = metadata@;
        let end = match metadata.timestamps.ended_at_utc {
            Some(end) => end,
            None => ctx.utc,
        };
        metadata.settle_intervals(end);
        let ghost settled = metadata@;
        let totals = metadata.totals();
        let summary = RecordingSummary { path: "".to_owned(), totals };
        metadata.finalize(&summary, end);
        assert(metadata@ == settled.with_totals(settled.totals()).ended(end).with_durations(end));
        metadata.mark_saved(ctx.utc);
        metadata
    }
}

// -- The merged file --

impl RecordingControl {
    /// Takes over what merging the files of the session came to.
    pub fn session_merged(&mut self, report: MergeReport, ctx: Context)
        requires
            old(self)@.well_formed(),
            old(self)@.stage == Stage::Merging,
            ctx.valid(),
        ensures
            final(self)@ == old(self)@.merged(report@, ctx),
            final(self)@.well_formed(),
    {
        proof {
            reveal(ControlView::merged);
        }
        let metadata = self.final_metadata(ctx);
        match self.find_merge_error(&metadata, &report, ctx) {
            Some(error) => self.merge_failed(error, ctx),
            None => self.session_saved(metadata, report.totals, ctx),
        }
    }

    /// Why a merged file is not what was recorded.
    fn find_merge_error(
        &self,
        metadata: &RecordingSessionMetadataV1,
        report: &MergeReport,
        ctx: Context,
    ) -> (error: Option<String>)
        requires
            metadata@ == self@.final_facts(ctx),
        ensures
            text_of(error) == self@.merge_error(report@, ctx),
    {
        proof {
            reveal(ControlView::merge_error);
        }
        if report.imported_rows != metadata.rows {
            return Some(row_mismatch(metadata.rows, report.imported_rows));
        }
        let same: bool = match &report.session_id {
            Some(session_id) => {
                let expected = characters(metadata.session_id.as_str());
                same_text(&expected, session_id.as_str())
            },
            None => false,
        };
        if !same {
            return Some("合并校验失败：会话元数据未能重新读取".to_owned());
        }
        None
    }

    /// Ends the session, which was saved with `metadata`.
    fn session_saved(
        &mut self,
        metadata: RecordingSessionMetadataV1,
        totals: RecordingTotals,
        ctx: Context,
    )
        requires
            old(self)@.well_formed(),
            old(self)@.stage == Stage::Merging,
            metadata@ == old(self)@.final_facts(ctx),
        ensures
            final(self)@ == old(self)@.saved(totals, ctx),
            final(self)@.well_formed(),
    {
        proof {
            reveal(ControlView::saved);
        }
        let writing = self.is_writing();
        let destination = match self.destination.take() {
            Some(destination) => destination,
            None => "".to_owned(),
        };
        let ended: Option<&str> = match &metadata.timestamps.ended_at_beijing {
            Some(ended) => Some(ended.as_str()),
            None => None,
        };
        self.status = saved_status(
            ctx.language,
            metadata.timestamps.started_at_beijing.as_str(),
            ended,
            totals.rows,
            totals.completeness(),
            destination.as_str(),
        );
        self.core.finish_recording_session(ctx, writing);
        self.core.phase = RecordingPhase::Saved;
        self.last_recording = Some(RecordingSummary { path: destination, totals });
        self.last_metadata = Some(metadata);
        self.metadata = None;
        self.ledger = None;
        self.directory = None;
        self.stage = Stage::Rest;
    }

    /// Keeps the session, which could not be saved.
    pub(crate) fn merge_failed(&mut self, error: String, ctx: Context)
        requires
            old(self)@.well_formed(),
            old(self)@.stage == Stage::Merging,
        ensures
            final(self)@ == old(self)@.merge_failed(error@, ctx),
            final(self)@.well_formed(),
    {
        proof {
            reveal(ControlView::merge_failed);
        }
        let status = match &self.directory {
            Some(directory) => save_failed_status(
                ctx.language,
                error.as_str(),
                directory.as_str(),
            ),
            None => "".to_owned(),
        };
        self.mark_ledger(SessionState::Interrupted);
        self.core.phase = RecordingPhase::Interrupted;
        self.status = status;
        self.stage = Stage::Persisting(PersistPurpose::Failure);
    }
}

// -- A file without a ledger --

impl RecordingControl {
    /// Ends the session and keeps its metadata on display.
    pub(crate) fn end_session(&mut self, ctx: Context)
        requires
            old(self)@.sound(),
        ensures
            final(self)@ == old(self)@.session_over(ctx),
            final(self)@.sound(),
            final(self).stage == old(self).stage,
    {
        proof {
            reveal(ControlView::session_over);
        }
        let writing = self.is_writing();
        self.core.finish_recording_session(ctx, writing);
        match self.metadata.take() {
            Some(metadata) => {
                self.last_metadata = Some(metadata);
            },
            None => {},
        }
    }

    /// Follows up the writer of a file without a ledger, which ended.
    pub fn file_ended(&mut self, event: RecordingEvent, ctx: Context)
        requires
            old(self)@.well_formed(),
            old(self)@.at_rest(),
            ctx.valid(),
        ensures
            final(self)@ == old(self)@.file_ended(event_facts(event), ctx),
            final(self)@.well_formed(),
    {
        proof {
            reveal(ControlView::file_ended);
            reveal(ControlView::session_over);
        }
        let mut reported: Option<RecordingEvent> = None;
        if let Some(recorder) = &mut self.recorder {
            reported = Some(recorder.settle_event(event));
        }
        match reported {
            None => {},
            Some(RecordingEvent::Finished(summary)) => {
                if self.core.session && self.destination.is_some() {
                    self.staged = Some(summary);
                    self.stage = Stage::Staging;
                } else {
                    self.file_written(summary, ctx);
                }
            },
            Some(RecordingEvent::Interrupted(summary, reason)) => {
                self.status = cut_short_status(
                    reason.as_str(),
                    summary.totals.rows,
                    summary.path.as_str(),
                );
                self.core.phase = RecordingPhase::Interrupted;
                self.last_recording = Some(summary);
                self.end_session(ctx);
                self.recorder = None;
            },
            Some(RecordingEvent::Failed(error)) => {
                self.core.phase = RecordingPhase::Interrupted;
                self.status = error;
                self.end_session(ctx);
                self.recorder = None;
            },
        }
    }

    /// Says that a file was written completely.
    fn file_written(&mut self, summary: RecordingSummary, ctx: Context)
        requires
            old(self)@.well_formed(),
            old(self)@.at_rest(),
        ensures
            final(self)@ == old(self)@.file_written(summary_facts(summary), ctx),
            final(self)@.well_formed(),
    {
        proof {
            reveal(ControlView::file_written);
        }
        self.status = written_status(
            summary.totals.rows,
            summary.path.as_str(),
            summary.totals.completeness(),
        );
        self.last_recording = Some(summary);
        if self.core.session {
            self.core.phase = RecordingPhase::Saved;
            self.end_session(ctx);
        }
        self.recorder = None;
    }

    /// Goes on once the finished file was copied to its destination, or could
    /// not be.
    pub(crate) fn after_staging(&mut self, error: Option<String>, ctx: Context)
        requires
            old(self)@.well_formed(),
            old(self)@.stage == Stage::Staging,
            ctx.valid(),
        ensures
            final(self)@ == old(self)@.after_staging(text_of(error), ctx),
            final(self)@.well_formed(),
    {
        proof {
            reveal(ControlView::after_staging);
        }
        match error {
            Some(error) => self.staging_failed(error, ctx),
            None => self.file_staged(ctx),
        }
    }

    /// Keeps the finished file where it is.
    fn staging_failed(&mut self, error: String, ctx: Context)
        requires
            old(self)@.well_formed(),
            old(self)@.stage == Stage::Staging,
        ensures
            final(self)@ == old(self)@.unstaged(error@, ctx),
            final(self)@.well_formed(),
    {
        proof {
            reveal(ControlView::unstaged);
        }
        self.destination = None;
        let mut status = error;
        if let Some(summary) = self.staged.take() {
            status = say(status.as_str(), "；恢复文件仍保留在 ", summary.path.as_str());
            self.last_recording = Some(summary);
        }
        self.fail(status);
        self.end_session(ctx);
        self.recorder = None;
    }

    /// Annotates the file at its destination.
    fn file_staged(&mut self, ctx: Context)
        requires
            old(self)@.well_formed(),
            old(self)@.stage == Stage::Staging,
            ctx.valid(),
        ensures
            final(self)@ == old(self)@.copied(ctx),
            final(self)@.well_formed(),
    {
        proof {
            reveal(ControlView::copied);
        }
        let path = match self.destination.take() {
            Some(path) => path,
            None => "".to_owned(),
        };
        let totals = match &self.staged {
            Some(staged) => staged.totals,
            None => RecordingTotals::from_offsets(RecordingOffsets::default()),
        };
        let summary = RecordingSummary { path, totals };
        if let Some(metadata) = &mut self.metadata {
            let end = match metadata.timestamps.ended_at_utc {
                Some(end) => end,
                None => ctx.utc,
            };
            metadata.carry_on(false, end);
            metadata.finalize(&summary, end);
            metadata.mark_saved(ctx.utc);
            self.last_recording = Some(summary);
            self.stage = Stage::Annotating;
        } else {
            self.staged = None;
            self.stage = Stage::Rest;
            self.file_written(summary, ctx);
        }
    }

    /// Goes on once the metadata of the copied file were written, or could not
    /// be.
    pub(crate) fn after_annotating(&mut self, error: Option<String>, ctx: Context)
        requires
            old(self)@.well_formed(),
            old(self)@.stage == Stage::Annotating,
        ensures
            final(self)@ == old(self)@.after_annotating(text_of(error), ctx),
            final(self)@.well_formed(),
    {
        proof {
            reveal(ControlView::after_annotating);
            reveal(ControlView::file_written);
            reveal(ControlView::session_over);
        }
        let pending = match self.staged.take() {
            Some(staged) => staged.path,
            None => "".to_owned(),
        };
        self.stage = Stage::Rest;
        match error {
            Some(error) => {
                let said_first = say("数据文件已写入，但元数据保存失败：", "", error.as_str());
                let status = say(
                    said_first.as_str(),
                    "；恢复文件仍保留在 ",
                    pending.as_str(),
                );
                self.fail(status);
                self.end_session(ctx);
                self.recorder = None;
            },
            None => {
                if let Some(summary) = self.last_recording.take() {
                    self.file_written(summary, ctx);
                }
            },
        }
    }
}

} // verus!
