//! What a frame does about the writers of a recording, in order.
use vstd::prelude::*;

use crate::control_model::{
    ControlView, EventFacts, MergeFacts, PersistPurpose, SealPurpose, Stage,
};
use crate::options::RecordingPhase;
use crate::recording::RecordingEvent;
use crate::recording_control::{event_facts, events_facts, RecordingControl};
use crate::session_core::Context;

verus! {

/// Where the poll of a frame stands. Between two steps everything that the
/// recording controls wait for is done.
#[derive(Debug, Clone, Copy, PartialEq, Eq, Structural)]
pub enum PollStep {
    /// A session that is recorded must have a live writer.
    CheckWriter,
    /// A writer that is finishing is followed up with the closed files.
    AdoptWriter,
    /// The writers of the closed files may have ended.
    Segments,
    /// A session whose files are closed is merged; a file without a session may
    /// have ended.
    Files,
    Done,
}

impl PollStep {
    /// The step after this one.
    pub open spec fn following(self) -> PollStep {
        match self {
            PollStep::CheckWriter => PollStep::AdoptWriter,
            PollStep::AdoptWriter => PollStep::Segments,
            PollStep::Segments => PollStep::Files,
            PollStep::Files => PollStep::Done,
            PollStep::Done => PollStep::Done,
        }
    }
}

/// What the writers report.
#[derive(Debug)]
pub struct WriterReports {
    /// Of each closed file, how its writer ended, if it ended.
    pub segments: Vec<Option<RecordingEvent>>,
    /// How the writer of the open file ended, if it ended.
    pub file: Option<RecordingEvent>,
}

/// How a writer ended, if it ended.
pub open spec fn file_facts(file: Option<RecordingEvent>) -> Option<EventFacts> {
    match file {
        Some(event) => Some(event_facts(event)),
        None => None,
    }
}

impl ControlView {
    /// The controls after one step of a poll. With a ledger the files of a
    /// session are merged; only without one does an open file end by itself.
    pub open spec fn poll_stepped(
        self,
        step: PollStep,
        segments: Seq<Option<EventFacts>>,
        file: Option<EventFacts>,
        ctx: Context,
    ) -> ControlView {
        match step {
            PollStep::CheckWriter => self.checked(ctx),
            PollStep::AdoptWriter => self.adopted(ctx),
            PollStep::Segments => self.polled(segments, ctx),
            PollStep::Files => if self.ledger is Some {
                self.finalize()
            } else {
                match file {
                    Some(event) => self.file_ended(event, ctx),
                    None => self,
                }
            },
            PollStep::Done => self,
        }
    }

    /// Whether the recording badge tells the truth: a session that shows it is
    /// not paused and has a live writer behind it.
    pub open spec fn badge_holds(self) -> bool {
        self.core.session && self.core.phase == RecordingPhase::Recording ==> {
            &&& !self.core.paused
            &&& self.recorder matches Some(recorder) && !recorder.finishing
        }
    }

    /// What holds from the first step of a poll on: the badge tells the truth,
    /// and only what a poll asks for is awaited.
    pub open spec fn in_poll(self) -> bool {
        &&& self.badge_holds()
        &&& match self.stage {
            Stage::Rest => true,
            Stage::Finishing(purpose) => purpose == SealPurpose::Interrupt && self.core.phase
                != RecordingPhase::Recording,
            Stage::Persisting(PersistPurpose::Sealed(purpose)) => purpose == SealPurpose::Interrupt
                && self.core.phase != RecordingPhase::Recording,
            Stage::Persisting(PersistPurpose::Segments) => true,
            Stage::Persisting(PersistPurpose::Failure) => true,
            Stage::Merging => true,
            Stage::Staging => true,
            Stage::Annotating => true,
            _ => false,
        }
    }

    /// The controls after an answer to what they wait for.
    pub open spec fn answered(self, answer: Answer) -> ControlView {
        match answer {
            Answer::Reply(reply, ctx) => self.replied(reply, ctx),
            Answer::Merged(merged, ctx) => if self.stage == Stage::Merging {
                self.merged(merged, ctx)
            } else {
                self
            },
        }
    }

    /// The controls after `answers`, in their order.
    pub open spec fn answered_all(self, answers: Seq<Answer>) -> ControlView
        decreases answers.len(),
    {
        if answers.len() == 0 {
            self
        } else {
            self.answered_all(answers.drop_last()).answered(answers.last())
        }
    }

    /// The controls after a step of a poll and what was answered.
    pub open spec fn turned(self, step: PollStep, turn: PollTurn) -> ControlView {
        self.poll_stepped(step, turn.segments, turn.file, turn.ctx).answered_all(turn.answers)
    }

    /// The controls after the steps of a poll from `step` on, one for each of
    /// `turns`.
    pub open spec fn poll_run(self, step: PollStep, turns: Seq<PollTurn>) -> ControlView
        decreases turns.len(),
    {
        if turns.len() == 0 {
            self
        } else {
            self.turned(step, turns.first()).poll_run(step.following(), turns.drop_first())
        }
    }
}

/// An answer to what the controls wait for.
pub ghost enum Answer {
    /// It happened, or failed.
    Reply(Result<Seq<char>, Seq<char>>, Context),
    /// The files of a session were merged and read back.
    Merged(MergeFacts, Context),
}

/// What a step of a poll meets: what the writers report, and what is answered
/// before the next step.
pub ghost struct PollTurn {
    pub segments: Seq<Option<EventFacts>>,
    pub file: Option<EventFacts>,
    pub ctx: Context,
    pub answers: Seq<Answer>,
}

impl RecordingControl {
    /// Whether the writer of the open file is asked how it ended.
    pub fn follows_file(&self) -> (follows: bool)
        ensures
            follows == (self@.ledger is None && self@.recorder is Some),
    {
        self.ledger.is_none() && self.recorder.is_some()
    }

    /// Takes one step of a poll and returns the next.
    pub fn poll_recording(&mut self, step: PollStep, reports: WriterReports, ctx: Context) -> (next:
        PollStep)
        requires
            old(self)@.well_formed(),
            old(self)@.at_rest(),
            step == PollStep::Segments ==> reports.segments@.len() == old(self)@.finalizing.len(),
            ctx.valid(),
        ensures
            next == step.following(),
            final(self)@ == old(self)@.poll_stepped(
                step,
                events_facts(reports.segments@),
                file_facts(reports.file),
                ctx,
            ),
            final(self)@.well_formed(),
            step == PollStep::CheckWriter || old(self)@.badge_holds() ==> final(self)@.badge_holds(),
    {
        proof {
            let segments = events_facts(reports.segments@);
            let file = file_facts(reports.file);
            if step == PollStep::CheckWriter {
                lemma_checking_makes_the_badge_hold(self@, ctx);
            } else if self@.badge_holds() {
                law_poll_steps_keep_the_badge_true(self@, step, segments, file, ctx);
            }
        }
        match step {
            PollStep::CheckWriter => {
                self.check_writer(ctx);
                PollStep::AdoptWriter
            },
            PollStep::AdoptWriter => {
                self.adopt_finishing_writer(ctx);
                PollStep::Segments
            },
            PollStep::Segments => {
                self.poll_finalizing_recording_segments(reports.segments, ctx);
                PollStep::Files
            },
            PollStep::Files => {
                if self.ledger.is_some() {
                    self.finalize_saved_recording_session();
                } else {
                    match reports.file {
                        Some(event) => self.file_ended(event, ctx),
                        None => {},
                    }
                }
                PollStep::Done
            },
            PollStep::Done => PollStep::Done,
        }
    }
}

/// A poll that finds nothing to do leaves the recording alone: where the
/// session has its live writer, no writer is finishing and none reports, every
/// step but the merging of a session that is being saved changes nothing.
pub proof fn law_a_quiet_poll_changes_nothing(
    view: ControlView,
    step: PollStep,
    segments: Seq<Option<EventFacts>>,
    ctx: Context,
)
    requires
        view.well_formed(),
        view.at_rest(),
        view.inconsistency(ctx.language) is None,
        view.recorder matches Some(recorder) ==> !recorder.finishing,
        segments.len() == view.finalizing.len(),
        forall|i: int| 0 <= i < segments.len() ==> (#[trigger] segments[i]) is None,
        step == PollStep::Files ==> view.finalize() == view,
    ensures
        view.poll_stepped(step, segments, None, ctx) == view,
{
    reveal(ControlView::checked);
    reveal(ControlView::adopted);
    reveal(ControlView::polled);
    lemma_quiet_segments(view, segments, ctx);
}

/// Writers that report nothing end nothing.
proof fn lemma_quiet_segments(view: ControlView, segments: Seq<Option<EventFacts>>, ctx: Context)
    requires
        forall|i: int| 0 <= i < segments.len() ==> (#[trigger] segments[i]) is None,
    ensures
        view.segments_ended(segments, ctx) == view,
    decreases segments.len(),
{
    reveal_with_fuel(ControlView::segments_ended, 2);
    if segments.len() > 0 {
        lemma_quiet_segments(view, segments.drop_last(), ctx);
    }
}

/// Once the writer was checked, the badge tells the truth.
proof fn lemma_checking_makes_the_badge_hold(view: ControlView, ctx: Context)
    requires
        view.at_rest(),
    ensures
        view.checked(ctx).in_poll(),
{
    reveal(ControlView::checked);
    reveal(ControlView::inconsistency);
    reveal(ControlView::interrupt);
    reveal(ControlView::sealing);
    reveal(ControlView::sealed);
    reveal(ControlView::released);
    reveal(ControlView::measured);
    reveal(ControlView::ledger_in);
    reveal(ControlView::ledger_bounded);
}

/// Writers of closed files that end leave the session and its writer alone;
/// one that failed interrupts the session.
proof fn lemma_segments_keep_the_badge(
    view: ControlView,
    segments: Seq<Option<EventFacts>>,
    ctx: Context,
)
    ensures
        view.badge_holds() ==> view.segments_ended(segments, ctx).badge_holds(),
        view.segments_ended(segments, ctx).stage == view.stage,
        view.core.phase != RecordingPhase::Recording ==> view.segments_ended(
            segments,
            ctx,
        ).core.phase != RecordingPhase::Recording,
    decreases segments.len(),
{
    if segments.len() > 0 {
        let next = match segments.last() {
            Some(event) => view.segment_ended(segments.len() - 1, event, ctx),
            None => view,
        };
        reveal(ControlView::segment_ended);
        reveal(ControlView::measured);
        reveal(ControlView::ledger_in);
        reveal(ControlView::ledger_bounded);
        lemma_segments_keep_the_badge(next, segments.drop_last(), ctx);
    }
}

/// No step of a poll makes the recording badge lie, whatever the writers
/// report.
pub proof fn law_poll_steps_keep_the_badge_true(
    view: ControlView,
    step: PollStep,
    segments: Seq<Option<EventFacts>>,
    file: Option<EventFacts>,
    ctx: Context,
)
    requires
        view.in_poll(),
    ensures
        view.poll_stepped(step, segments, file, ctx).in_poll(),
{
    match step {
        PollStep::CheckWriter => {
            reveal(ControlView::checked);
            reveal(ControlView::inconsistency);
        },
        PollStep::AdoptWriter => {
            reveal(ControlView::adopted);
            reveal(ControlView::released);
            reveal(ControlView::measured);
            reveal(ControlView::ledger_bounded);
        },
        PollStep::Segments => {
            reveal(ControlView::polled);
            lemma_segments_keep_the_badge(view, segments, ctx);
        },
        PollStep::Files => {
            reveal(ControlView::finalize);
            reveal(ControlView::file_ended);
            reveal(ControlView::file_written);
            reveal(ControlView::session_over);
        },
        PollStep::Done => {},
    }
}

/// No answer that comes between the steps of a poll makes the recording badge
/// lie, whether what was awaited happened or failed.
pub proof fn law_answers_keep_the_badge_true(view: ControlView, answer: Answer)
    requires
        view.in_poll(),
    ensures
        view.answered(answer).in_poll(),
{
    reveal(ControlView::replied);
    reveal(ControlView::persisted);
    reveal(ControlView::sealed);
    reveal(ControlView::released);
    reveal(ControlView::measured);
    reveal(ControlView::ledger_in);
    reveal(ControlView::ledger_bounded);
    reveal(ControlView::after_seal);
    reveal(ControlView::after_interruption);
    reveal(ControlView::merged);
    reveal(ControlView::merge_failed);
    reveal(ControlView::saved);
    reveal(ControlView::after_staging);
    reveal(ControlView::unstaged);
    reveal(ControlView::copied);
    reveal(ControlView::after_annotating);
    reveal(ControlView::file_written);
    reveal(ControlView::session_over);
}

/// Any number of answers keeps what holds in a poll.
proof fn lemma_all_answers_keep_the_badge(view: ControlView, answers: Seq<Answer>)
    requires
        view.in_poll(),
    ensures
        view.answered_all(answers).in_poll(),
    decreases answers.len(),
{
    if answers.len() > 0 {
        lemma_all_answers_keep_the_badge(view, answers.drop_last());
        law_answers_keep_the_badge_true(
            view.answered_all(answers.drop_last()),
            answers.last(),
        );
    }
}

/// The further steps of a poll keep what holds in it.
proof fn lemma_later_steps_keep_the_badge(view: ControlView, step: PollStep, turns: Seq<PollTurn>)
    requires
        view.in_poll(),
    ensures
        view.poll_run(step, turns).in_poll(),
    decreases turns.len(),
{
    if turns.len() > 0 {
        let turn = turns.first();
        law_poll_steps_keep_the_badge_true(view, step, turn.segments, turn.file, turn.ctx);
        lemma_all_answers_keep_the_badge(
            view.poll_stepped(step, turn.segments, turn.file, turn.ctx),
            turn.answers,
        );
        lemma_later_steps_keep_the_badge(
            view.turned(step, turn),
            step.following(),
            turns.drop_first(),
        );
    }
}

/// The recording badge is a promise that every poll keeps: whatever state it
/// begins in, whatever the writers report and whatever is answered, from its
/// first step on a session that shows the badge is not paused and has a live
/// writer behind it. With a turn for each step this is the state after the
/// poll; with fewer, or with fewer answers, it is any state on the way.
pub proof fn law_a_poll_makes_the_badge_true(view: ControlView, turns: Seq<PollTurn>)
    requires
        view.at_rest(),
        turns.len() > 0,
    ensures
        view.poll_run(PollStep::CheckWriter, turns).badge_holds(),
{
    let turn = turns.first();
    lemma_checking_makes_the_badge_hold(view, turn.ctx);
    lemma_all_answers_keep_the_badge(view.checked(turn.ctx), turn.answers);
    lemma_later_steps_keep_the_badge(
        view.turned(PollStep::CheckWriter, turn),
        PollStep::AdoptWriter,
        turns.drop_first(),
    );
}

} // verus!
