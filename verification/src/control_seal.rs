//! Pausing and interrupting a session: its current file is closed.
use vstd::prelude::*;
use vstd::string::*;

use crate::control_model::{
    ControlView, PauseFollowUp, PersistPurpose, SealPurpose, Stage, StartPurpose,
};
use crate::options::{PauseReason, RecordingPhase};
use crate::recording::Recorder;
use crate::recording_control::{lemma_finalizing_push, text_of, FinalizingSegment, RecordingControl};
use crate::recording_session::SessionState;
use crate::session_core::Context;
use crate::session_text::{auto_paused_status, paused_status, writer_fault_status};

verus! {

impl RecordingControl {
    /// The state in which the session is left when its file is closed.
    pub(crate) fn state_after(&self, purpose: SealPurpose) -> (state: SessionState)
        ensures
            state == self@.sealed_state(purpose),
    {
        match purpose {
            SealPurpose::Pause(_) => match self.core.pause_reason {
                Some(PauseReason::UsbDisconnected) => SessionState::WaitingForReconnect,
                _ => SessionState::Paused,
            },
            SealPurpose::Interrupt => SessionState::Interrupted,
            SealPurpose::Rotate => SessionState::Recording,
            SealPurpose::Stop => SessionState::Interrupted,
        }
    }

    /// Begins to close the current file.
    pub(crate) fn seal(&mut self, purpose: SealPurpose, ctx: Context)
        requires
            old(self)@.well_formed(),
            old(self)@.at_rest(),
            ctx.valid(),
        ensures
            final(self)@ == old(self)@.sealing(purpose, ctx),
            final(self)@.well_formed(),
    {
        proof {
            reveal(ControlView::sealing);
        }
        let finishing: Option<bool> = match &self.recorder {
            Some(recorder) => Some(recorder.is_finishing()),
            None => None,
        };
        match finishing {
            Some(true) => self.file_sealed(purpose, ctx),
            Some(false) => {
                self.stage = Stage::Finishing(purpose);
            },
            None => {
                let state = self.state_after(purpose);
                self.mark_ledger(state);
                self.stage = Stage::Persisting(PersistPurpose::Sealed(purpose));
            },
        }
    }

    /// Lets go of the current file.
    pub(crate) fn release_file(&mut self) -> (recorder: Recorder)
        requires
            old(self)@.recorder is Some,
        ensures
            final(self)@ == old(self)@.released(),
            recorder@ == old(self)@.recorder->0,
            *final(self) == (RecordingControl {
                recorder: None,
                core: final(self).core,
                ..*old(self)
            }),
            old(self).core.well_formed() ==> final(self).core.well_formed(),
    {
        proof {
            reveal(ControlView::released);
        }
        let recorder = self.recorder.take().unwrap();
        self.core.continuation = recorder.continuation_offsets();
        recorder
    }

    /// Follows up the current file, whose writer is finishing it.
    pub(crate) fn file_sealed(&mut self, purpose: SealPurpose, ctx: Context)
        requires
            old(self)@.well_formed(),
            old(self)@.recorder is Some,
            ctx.valid(),
        ensures
            final(self)@ == old(self)@.sealed(purpose, ctx),
            final(self)@.well_formed(),
    {
        proof {
            reveal(ControlView::sealed);
        }
        let index: u32 = self.core.next_segment_index.saturating_sub(1);
        let state = self.state_after(purpose);
        let mut recorder = self.release_file();
        let totals = recorder.totals();
        let _ = recorder.request_finish(true);
        self.measure(totals, ctx);
        self.mark_ledger(state);
        self.bound_ledger(index, totals, false);
        let segment = FinalizingSegment { index, recorder };
        let ghost before = self.finalizing@;
        self.finalizing.push(segment);
        self.stage = Stage::Persisting(PersistPurpose::Sealed(purpose));
        proof {
            lemma_finalizing_push(before, segment);
        }
        assert(self@ =~= old(self)@.sealed(purpose, ctx));
    }

    /// Goes on once the current file is closed, or could not be.
    pub(crate) fn after_sealing(&mut self, purpose: SealPurpose, error: Option<String>, ctx: Context)
        requires
            old(self)@.sound(),
            ctx.valid(),
        ensures
            final(self)@ == old(self)@.after_seal(purpose, text_of(error), ctx),
            final(self)@.well_formed(),
    {
        proof {
            reveal(ControlView::after_seal);
        }
        match purpose {
            SealPurpose::Pause(follow) => {
                self.after_pausing(error, ctx);
                self.pause_further(follow, ctx);
            },
            SealPurpose::Interrupt => self.report_fault(error, ctx),
            SealPurpose::Rotate => match error {
                Some(error) => self.fail(error),
                None => self.start_file(StartPurpose::Rotate, ctx),
            },
            SealPurpose::Stop => self.after_stopping(error, ctx),
        }
    }

    /// Goes on once the file of a paused session is closed, or could not be.
    pub(crate) fn after_pausing(&mut self, error: Option<String>, ctx: Context)
        ensures
            final(self)@ == old(self)@.after_pause(text_of(error), ctx),
            old(self)@.sound() ==> final(self)@.sound(),
            final(self).stage == Stage::Rest,
    {
        proof {
            reveal(ControlView::after_pause);
        }
        match error {
            Some(error) => self.fail(error),
            None => {
                let writing = self.is_writing();
                self.status = paused_status(
                    self.core.recording_elapsed(ctx.now_us, ctx.rate, writing),
                    self.core.tallies.energy.total,
                );
                self.stage = Stage::Rest;
            },
        }
    }

    /// Says why the session was interrupted.
    pub(crate) fn report_fault(&mut self, error: Option<String>, ctx: Context)
        ensures
            final(self)@ == old(self)@.after_interruption(text_of(error), ctx),
            old(self)@.sound() ==> final(self)@.sound(),
            final(self).stage == Stage::Rest,
    {
        proof {
            reveal(ControlView::after_interruption);
        }
        let fault = match self.fault.take() {
            Some(fault) => fault,
            None => "".to_owned(),
        };
        let reason = match &error {
            Some(error) => Some(error.as_str()),
            None => None,
        };
        self.status = writer_fault_status(ctx.language, fault.as_str(), reason);
        self.stage = Stage::Rest;
    }

    /// Goes on once the file of a stopped session is closed, or could not be.
    pub(crate) fn after_stopping(&mut self, error: Option<String>, ctx: Context)
        ensures
            final(self)@ == old(self)@.after_stop(text_of(error), ctx),
            old(self)@.sound() ==> final(self)@.sound(),
            final(self).stage == Stage::Rest,
    {
        proof {
            reveal(ControlView::after_stop);
        }
        self.status = match error {
            Some(error) => error,
            None => ctx.language.pick(
                "录制已安全封口并保留在恢复列表",
                "Recording safely sealed and retained in the recovery list",
            ).to_owned(),
        };
        self.core.phase = RecordingPhase::Interrupted;
        self.core.sleep_held = false;
        self.stage = Stage::Rest;
    }

    /// Goes on after a pause.
    pub(crate) fn pause_further(&mut self, follow: PauseFollowUp, ctx: Context)
        ensures
            final(self)@ == old(self)@.paused_further(follow, ctx),
            old(self)@.well_formed() && old(self)@.at_rest() ==> final(self)@.well_formed(),
            final(self).stage == old(self).stage,
    {
        proof {
            reveal(ControlView::paused_further);
        }
        match follow {
            PauseFollowUp::Plain => {},
            PauseFollowUp::Automatic => {
                self.status = auto_paused_status(ctx.language, self.rule);
            },
            PauseFollowUp::Disconnected => {
                self.core.phase = RecordingPhase::WaitingForReconnect;
                self.status = ctx.language.pick(
                    "USB 已中断 · 保留当前录制并等待原设备重连",
                    "USB interrupted · Recording retained while waiting for the original device",
                ).to_owned();
            },
        }
    }

    /// Pauses the session at the user's request.
    pub fn pause_recording(&mut self, ctx: Context)
        requires
            old(self)@.well_formed(),
            old(self)@.at_rest(),
            ctx.valid(),
        ensures
            final(self)@ == old(self)@.pause(PauseReason::Manual, PauseFollowUp::Plain, ctx),
            final(self)@.well_formed(),
    {
        self.pause_recording_with_reason(PauseReason::Manual, PauseFollowUp::Plain, ctx);
    }

    /// Pauses the session.
    pub fn pause_recording_with_reason(
        &mut self,
        reason: PauseReason,
        follow: PauseFollowUp,
        ctx: Context,
    )
        requires
            old(self)@.well_formed(),
            old(self)@.at_rest(),
            ctx.valid(),
        ensures
            final(self)@ == old(self)@.pause(reason, follow, ctx),
            final(self)@.well_formed(),
    {
        proof {
            reveal(ControlView::pause);
        }
        if !self.core.session || self.core.paused {
            self.pause_further(follow, ctx);
            return;
        }
        let writing = self.is_writing();
        if let Some(metadata) = &mut self.metadata {
            metadata.stop(reason.interval_reason(), ctx.utc);
            metadata.refresh_durations(ctx.utc);
        }
        self.core.pause(reason, ctx, writing);
        self.seal(SealPurpose::Pause(follow), ctx);
    }

    /// Interrupts the session because its writer failed with `error`.
    pub fn interrupt_recording_after_writer_failure(&mut self, error: String, ctx: Context)
        requires
            old(self)@.well_formed(),
            old(self)@.at_rest(),
            ctx.valid(),
        ensures
            final(self)@ == old(self)@.interrupt(error@, ctx),
            final(self)@.well_formed(),
    {
        proof {
            reveal(ControlView::interrupt);
        }
        let writing = self.is_writing();
        self.core.hold(ctx, writing);
        self.core.phase = RecordingPhase::Interrupted;
        self.fault = Some(error);
        self.seal(SealPurpose::Interrupt, ctx);
    }
}

} // verus!
