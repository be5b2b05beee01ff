//! Recording samples: rows for the writer, the automatic pause, new files.
use vstd::prelude::*;
use vstd::string::*;

use crate::control_model::{ControlView, PauseFollowUp, SealPurpose, Stage, ResumeFollowUp};
use crate::control_model::{SEGMENT_ROWS, SEGMENT_US};
use crate::measurement::MeasurementSample;
use crate::options::PauseReason;
use crate::recording::{PushPlan, RecordingRow, RecordingTotals};
use crate::recording_control::RecordingControl;
use crate::session_core::{AutoWatch, Context, SessionCore};
use crate::statistics::RecordingSessionStatistics;

verus! {

/// The statistics with all of `samples`.
fn statistics_with(
    statistics: RecordingSessionStatistics,
    samples: &Vec<MeasurementSample>,
) -> (result: RecordingSessionStatistics)
    ensures
        result == statistics.with_all(samples@),
{
    let mut result = statistics;
    let mut index: usize = 0;
    assert(samples@.take(0) =~= Seq::<MeasurementSample>::empty());
    while index < samples.len()
        invariant
            index <= samples@.len(),
            result == statistics.with_all(samples@.take(index as int)),
        decreases samples.len() - index,
    {
        result.push(&samples[index]);
        assert(samples@.take(index + 1).drop_last() =~= samples@.take(index as int));
        index += 1;
    }
    assert(samples@.take(index as int) =~= samples@);
    result
}

impl RecordingControl {
    /// Shows `samples` to the statistics and to the automatic rule.
    fn observe(&mut self, samples: &Vec<MeasurementSample>) -> (watch: AutoWatch)
        ensures
            final(self)@ == old(self)@.observed(samples@),
            watch == AutoWatch::at(old(self)@.core).seen_all(
                old(self)@.core,
                old(self)@.rule,
                samples@,
            ),
            *final(self) == (RecordingControl { core: final(self).core, ..*old(self) }),
            final(self).core == (SessionCore {
                statistics: final(self).core.statistics,
                below_since_us: final(self).core.below_since_us,
                above_since_us: final(self).core.above_since_us,
                ..old(self).core
            }),
    {
        proof {
            reveal(ControlView::observed);
        }
        let watch = AutoWatch::watch(&self.core, self.rule, samples);
        if self.core.session && !self.core.paused {
            self.core.statistics = statistics_with(self.core.statistics, samples);
        }
        self.core.below_since_us = watch.below_since_us;
        self.core.above_since_us = watch.above_since_us;
        watch
    }

    /// Takes samples that arrived; returns the rows that the writer is to take,
    /// if it is to take any.
    pub fn append_measurements(
        &mut self,
        samples: Vec<MeasurementSample>,
        streaming: bool,
        ctx: Context,
    ) -> (rows: Option<Vec<RecordingRow>>)
        requires
            old(self)@.well_formed(),
            old(self)@.at_rest(),
            old(self)@.has_room(samples@.len()),
            ctx.valid(),
        ensures
            final(self)@ == old(self)@.append(samples@, streaming, ctx),
            final(self)@.well_formed(),
            rows is Some <==> final(self)@.stage is Sending,
            rows matches Some(rows) ==> rows@ == old(self)@.recorder->0.rows(samples@),
    {
        proof {
            reveal(ControlView::append);
        }
        let watch = self.observe(&samples);
        if self.core.session && !self.core.paused {
            self.add_up(&samples);
            return self.offer(samples, watch.pause, ctx);
        }
        if watch.resume {
            proof {
                lemma_resuming_sends_nothing(self@, streaming, ctx);
            }
            self.resume_recording(streaming, ResumeFollowUp::Automatic, ctx);
        }
        None
    }

    /// Adds `samples` up.
    fn add_up(&mut self, samples: &Vec<MeasurementSample>)
        ensures
            final(self)@ == old(self)@.tallied(samples@),
            *final(self) == (RecordingControl { core: final(self).core, ..*old(self) }),
            final(self).core == (SessionCore {
                tallies: final(self).core.tallies,
                ..old(self).core
            }),
    {
        proof {
            reveal(ControlView::tallied);
        }
        if samples.len() > 0 {
            self.core.tallies = self.core.tallies.count(&samples[samples.len() - 1]);
        }
    }

    /// Offers `samples` to the writer; returns the rows that it is to take.
    fn offer(&mut self, samples: Vec<MeasurementSample>, pause: bool, ctx: Context) -> (rows:
        Option<Vec<RecordingRow>>)
        requires
            old(self)@.well_formed(),
            old(self)@.at_rest(),
            old(self)@.has_room(samples@.len()),
            ctx.valid(),
        ensures
            final(self)@ == old(self)@.offered(samples@, pause, ctx),
            final(self)@.well_formed(),
            rows is Some <==> final(self)@.stage is Sending,
            rows matches Some(rows) ==> rows@ == old(self)@.recorder->0.rows(samples@),
    {
        proof {
            reveal(ControlView::offered);
        }
        let plan: Option<PushPlan> = match &self.recorder {
            Some(recorder) => Some(recorder.push(&samples)),
            None => None,
        };
        match plan {
            Some(PushPlan::Nothing) => {
                proof {
                    lemma_recorded_sends_nothing(self@, pause, ctx);
                }
                self.rows_recorded(pause, ctx);
                None
            },
            Some(PushPlan::Refused(reason)) => {
                proof {
                    lemma_interrupting_sends_nothing(self@, reason@, ctx);
                }
                self.interrupt_recording_after_writer_failure(reason, ctx);
                None
            },
            Some(PushPlan::Send(rows)) => {
                self.outgoing = samples;
                self.stage = Stage::Sending(pause);
                Some(rows)
            },
            None => {
                let error = ctx.language.pick(
                    "录制器不可用，实时数据仍在采集",
                    "Recording writer unavailable; live sampling is still active",
                ).to_owned();
                proof {
                    lemma_interrupting_sends_nothing(self@, error@, ctx);
                }
                self.interrupt_recording_after_writer_failure(error, ctx);
                None
            },
        }
    }

    /// Notes that the writer took the rows.
    pub(crate) fn rows_taken(&mut self, pause: bool, ctx: Context)
        requires
            old(self)@.well_formed(),
            old(self)@.stage is Sending,
            ctx.valid(),
        ensures
            final(self)@ == old(self)@.taken(pause, ctx),
            final(self)@.well_formed(),
    {
        proof {
            reveal(ControlView::taken);
        }
        let mut samples: Vec<MeasurementSample> = Vec::new();
        std::mem::swap(&mut samples, &mut self.outgoing);
        if let Some(recorder) = &mut self.recorder {
            recorder.rows_taken(&samples);
        }
        self.stage = Stage::Rest;
        assert(self.outgoing@ =~= Seq::<MeasurementSample>::empty());
        self.rows_recorded(pause, ctx);
    }

    /// Notes that the writer is gone.
    pub(crate) fn writer_lost(&mut self, ctx: Context)
        requires
            old(self)@.well_formed(),
            old(self)@.stage is Sending,
            ctx.valid(),
        ensures
            final(self)@ == old(self)@.lost(ctx),
            final(self)@.well_formed(),
    {
        proof {
            reveal(ControlView::lost);
        }
        let mut error = "recording writer stopped unexpectedly".to_owned();
        if let Some(recorder) = &mut self.recorder {
            error = recorder.writer_lost();
        }
        self.outgoing = Vec::new();
        self.stage = Stage::Rest;
        assert(self.outgoing@ =~= Seq::<MeasurementSample>::empty());
        self.interrupt_recording_after_writer_failure(error, ctx);
    }

    /// Takes over what is recorded, and pauses or begins a new file where that
    /// is due.
    fn rows_recorded(&mut self, pause: bool, ctx: Context)
        requires
            old(self)@.well_formed(),
            old(self)@.at_rest(),
            old(self)@.recorder is Some,
            ctx.valid(),
        ensures
            final(self)@ == old(self)@.recorded(pause, ctx),
            final(self)@.well_formed(),
    {
        proof {
            reveal(ControlView::recorded);
            reveal(ControlView::measured);
        }
        let totals: Option<RecordingTotals> = match &self.recorder {
            Some(recorder) => Some(recorder.totals()),
            None => None,
        };
        if let Some(totals) = totals {
            self.measure(totals, ctx);
            self.core.sync_recording_clock_to_samples(totals.elapsed_us, ctx.now_us);
        }
        if pause {
            self.pause_recording_with_reason(
                PauseReason::Automatic(self.rule.metric),
                PauseFollowUp::Automatic,
                ctx,
            );
        } else {
            self.rotate_recording_segment_if_needed(ctx);
        }
    }

    /// Begins a new file where the current one is long enough.
    pub(crate) fn rotate_recording_segment_if_needed(&mut self, ctx: Context)
        requires
            old(self)@.well_formed(),
            old(self)@.at_rest(),
            ctx.valid(),
        ensures
            final(self)@ == old(self)@.rotate(ctx),
            final(self)@.well_formed(),
    {
        proof {
            reveal(ControlView::rotate);
        }
        let full: bool = match &self.recorder {
            Some(recorder) => {
                let totals = recorder.totals();
                let start = self.core.segment_start;
                totals.rows.saturating_sub(start.sample_index) >= SEGMENT_ROWS
                    || totals.elapsed_us.saturating_sub(start.elapsed_us) >= SEGMENT_US
            },
            None => false,
        };
        if full {
            self.seal(SealPurpose::Rotate, ctx);
        }
    }
}

/// Closing a file waits for no rows.
proof fn lemma_sealing_sends_nothing(view: ControlView, purpose: SealPurpose, ctx: Context)
    requires
        !(view.stage is Sending),
    ensures
        !(view.sealing(purpose, ctx).stage is Sending),
{
    reveal(ControlView::sealing);
    reveal(ControlView::sealed);
    reveal(ControlView::released);
    reveal(ControlView::measured);
    reveal(ControlView::ledger_in);
    reveal(ControlView::ledger_bounded);
}

/// Interrupting a session waits for no rows.
proof fn lemma_interrupting_sends_nothing(view: ControlView, error: Seq<char>, ctx: Context)
    requires
        !(view.stage is Sending),
    ensures
        !(view.interrupt(error, ctx).stage is Sending),
{
    reveal(ControlView::interrupt);
    let held = ControlView {
        core: SessionCore {
            phase: crate::options::RecordingPhase::Interrupted,
            ..view.core.held(ctx, view.writing())
        },
        fault: Some(error),
        ..view
    };
    lemma_sealing_sends_nothing(held, SealPurpose::Interrupt, ctx);
}

/// Pausing a session waits for no rows.
proof fn lemma_pausing_sends_nothing(
    view: ControlView,
    reason: PauseReason,
    follow: PauseFollowUp,
    ctx: Context,
)
    requires
        !(view.stage is Sending),
    ensures
        !(view.pause(reason, follow, ctx).stage is Sending),
{
    reveal(ControlView::pause);
    reveal(ControlView::paused_further);
    let stopped = ControlView {
        facts: match view.facts {
            Some(facts) => Some(facts.stopped(reason.recorded(), ctx.utc).with_durations(ctx.utc)),
            None => None,
        },
        core: view.core.paused_for(reason, ctx, view.writing()),
        ..view
    };
    lemma_sealing_sends_nothing(stopped, SealPurpose::Pause(follow), ctx);
}

/// What follows recorded rows waits for no more of them.
proof fn lemma_recorded_sends_nothing(view: ControlView, pause: bool, ctx: Context)
    requires
        !(view.stage is Sending),
    ensures
        !(view.recorded(pause, ctx).stage is Sending),
{
    reveal(ControlView::recorded);
    reveal(ControlView::measured);
    reveal(ControlView::rotate);
    let totals = view.recorder->0.totals;
    let synced = ControlView {
        core: view.core.synced(totals.elapsed_us, ctx.now_us),
        ..view.measured(totals, ctx)
    };
    lemma_pausing_sends_nothing(
        synced,
        PauseReason::Automatic(view.rule.metric),
        PauseFollowUp::Automatic,
        ctx,
    );
    lemma_sealing_sends_nothing(synced, SealPurpose::Rotate, ctx);
}

/// Going on waits for no rows.
proof fn lemma_resuming_sends_nothing(view: ControlView, streaming: bool, ctx: Context)
    requires
        view.stage == Stage::Rest,
    ensures
        !(view.resume(streaming, ResumeFollowUp::Automatic, ctx).stage is Sending),
{
    reveal(ControlView::resume);
    reveal(ControlView::resumed_further);
    reveal(ControlView::starting);
    reveal(ControlView::after_start);
    reveal(ControlView::resumes);
}

} // verus!
