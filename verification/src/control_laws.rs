//! What the recording controls promise.
use vstd::prelude::*;

use crate::control_model::{
    before_index, bounded, next_index, segment_position, ControlView, EventFacts, LedgerFacts,
    MergeFacts, PauseFollowUp, PersistPurpose, ResumeFollowUp, SealPurpose, Stage, StartPurpose,
    SummaryFacts,
};
use crate::i18n::Language;
use crate::measurement::MeasurementSample;
use crate::options::{PauseReason, RecordingPhase, SampleRateOption};
use crate::recording::{totals_of_offsets, RecorderView, RecordingTotals};
use crate::recording_session::{
    IntervalReason, RecordingTimeInterval, SegmentFacts, SessionFacts, SessionState,
};
use crate::session_core::{law_only_an_automatic_pause_ends_by_itself, Context, SessionCore};

verus! {

/// Closing a file keeps the phase, the session and its pause.
proof fn lemma_sealing_keeps_the_session(view: ControlView, purpose: SealPurpose, ctx: Context)
    ensures
        ({
            let after = view.sealing(purpose, ctx);
            &&& after.core.phase == view.core.phase
            &&& after.core.session == view.core.session
            &&& after.core.paused == view.core.paused
            &&& after.core.pause_reason == view.core.pause_reason
            &&& after.core.tallies == view.core.tallies
            &&& after.core.elapsed_before_us == view.core.elapsed_before_us
            &&& after.core.anchor_us == view.core.anchor_us
            &&& after.directory == view.directory
            &&& after.ledger is Some == view.ledger is Some
            &&& after.facts is Some == view.facts is Some
        }),
{
    reveal(ControlView::sealing);
    reveal(ControlView::sealed);
    reveal(ControlView::released);
    reveal(ControlView::measured);
    reveal(ControlView::ledger_in);
    reveal(ControlView::ledger_bounded);
}

/// The recording badge is a promise: once the writer was checked, a session
/// that shows it is not paused and has a live writer behind it.
pub proof fn law_recording_means_a_live_writer(view: ControlView, ctx: Context)
    ensures
        ({
            let after = view.checked(ctx);
            after.core.session && after.core.phase == RecordingPhase::Recording
                ==> !after.core.paused && (after.recorder matches Some(recorder)
                && !recorder.finishing)
        }),
{
    reveal(ControlView::checked);
    reveal(ControlView::inconsistency);
    match view.inconsistency(ctx.language) {
        Some(error) => {
            lemma_interruption(view, error, ctx);
        },
        None => {},
    }
}

/// An interruption stops the clock, keeps what was recorded and leaves the
/// session to be taken up again.
proof fn lemma_interruption(view: ControlView, error: Seq<char>, ctx: Context)
    ensures
        ({
            let after = view.interrupt(error, ctx);
            &&& after.core.phase == RecordingPhase::Interrupted
            &&& after.core.paused
            &&& after.core.anchor_us is None
            &&& after.core.session == view.core.session
            &&& after.core.tallies.energy.total == view.core.tallies.energy.total
            &&& after.core.tallies.capacity.total == view.core.tallies.capacity.total
            &&& after.core.tallies.net_energy.total == view.core.tallies.net_energy.total
            &&& after.directory == view.directory
            &&& after.ledger is Some == view.ledger is Some
            &&& after.facts is Some == view.facts is Some
        }),
{
    reveal(ControlView::interrupt);
    let held = ControlView {
        core: SessionCore {
            phase: RecordingPhase::Interrupted,
            ..view.core.held(ctx, view.writing())
        },
        fault: Some(error),
        ..view
    };
    lemma_sealing_keeps_the_session(held, SealPurpose::Interrupt, ctx);
}

/// A writer that is lost while it takes rows interrupts the session and loses
/// nothing that was recorded: the session can be taken up again.
pub proof fn law_lost_writer_keeps_the_session(view: ControlView, error: Seq<char>, ctx: Context)
    requires
        view.well_formed(),
        view.stage is Sending,
    ensures
        ({
            let after = view.replied(Err(error), ctx);
            &&& after.core.phase == RecordingPhase::Interrupted
            &&& after.core.paused
            &&& after.core.session == view.core.session
            &&& after.core.tallies.energy.total == view.core.tallies.energy.total
            &&& after.core.tallies.capacity.total == view.core.tallies.capacity.total
            &&& after.core.tallies.net_energy.total == view.core.tallies.net_energy.total
            &&& after.directory == view.directory
            &&& after.ledger is Some == view.ledger is Some
            &&& after.facts is Some == view.facts is Some
        }),
{
    reveal(ControlView::replied);
    reveal(ControlView::lost);
    let lost = ControlView {
        recorder: Some(
            RecorderView {
                interrupted: Some("recording writer stopped unexpectedly"@),
                ..view.recorder->0
            },
        ),
        outgoing: Seq::empty(),
        ..view
    };
    lemma_interruption(
        lost.awaits(Stage::Rest),
        "recording writer stopped unexpectedly"@,
        ctx,
    );
}

/// Samples that arrive while the user paused the session, or while its device
/// is gone, change nothing of the recording: not its totals, not its
/// statistics, not its files, and the session stays paused.
pub proof fn law_paused_samples_are_not_recorded(
    view: ControlView,
    samples: Seq<MeasurementSample>,
    streaming: bool,
    ctx: Context,
)
    requires
        view.core.session,
        view.core.paused,
        view.core.pause_reason != Some(PauseReason::Automatic(view.rule.metric)),
    ensures
        ({
            let after = view.append(samples, streaming, ctx);
            after == (ControlView {
                core: SessionCore {
                    below_since_us: after.core.below_since_us,
                    above_since_us: after.core.above_since_us,
                    ..view.core
                },
                ..view
            })
        }),
{
    reveal(ControlView::append);
    reveal(ControlView::observed);
    law_only_an_automatic_pause_ends_by_itself(view.core, view.rule, samples);
}

/// A session that the user pauses is not recorded from then on: its clock
/// stands, what it came to stays, and the reason is kept.
pub proof fn law_pausing_keeps_what_was_recorded(
    view: ControlView,
    reason: PauseReason,
    follow: PauseFollowUp,
    ctx: Context,
)
    requires
        view.core.session,
        !view.core.paused,
    ensures
        ({
            let after = view.pause(reason, follow, ctx);
            &&& after.core.phase == RecordingPhase::Paused
            &&& after.core.session
            &&& after.core.paused
            &&& after.core.pause_reason == Some(reason)
            &&& after.core.anchor_us is None
            &&& after.core.elapsed_before_us == view.core.elapsed(
                ctx.now_us,
                ctx.rate,
                view.writing(),
            )
            &&& after.core.tallies.energy.total == view.core.tallies.energy.total
            &&& after.core.tallies.capacity.total == view.core.tallies.capacity.total
            &&& after.core.tallies.net_energy.total == view.core.tallies.net_energy.total
        }),
{
    reveal(ControlView::pause);
    let stopped = ControlView {
        facts: match view.facts {
            Some(facts) => Some(facts.stopped(reason.recorded(), ctx.utc).with_durations(ctx.utc)),
            None => None,
        },
        core: view.core.paused_for(reason, ctx, view.writing()),
        ..view
    };
    lemma_sealing_keeps_the_session(stopped, SealPurpose::Pause(follow), ctx);
}

/// When a file is long enough the next one carries on where it ended: its
/// first row follows the last one, its time and its amounts go on, and the
/// ledger says so.
pub proof fn law_next_file_carries_on(view: ControlView, path: Seq<char>, ctx: Context)
    requires
        view.well_formed(),
        view.stage == Stage::Finishing(SealPurpose::Rotate),
        view.directory is Some,
        view.ledger is Some,
    ensures
        ({
            let told = view.replied(Ok(path), ctx);
            let sealed = told.replied(Ok(path), ctx);
            let started = sealed.replied(Ok(path), ctx);
            let after = started.replied(Ok(path), ctx);
            let before = view.recorder->0;
            &&& after.stage == Stage::Rest
            &&& after.recorder is Some
            &&& after.recorder->0.totals == before.totals
            &&& !after.recorder->0.finishing
            &&& after.finalizing.len() == view.finalizing.len() + 1
            &&& after.ledger->0.segments.last().start_row == before.totals.rows
            &&& after.ledger->0.segments.last().start_elapsed_us == before.totals.elapsed_us
            &&& after.ledger->0.state == SessionState::Recording
        }),
{
    reveal(ControlView::replied);
    reveal(ControlView::sealed);
    reveal(ControlView::released);
    reveal(ControlView::measured);
    reveal(ControlView::ledger_in);
    reveal(ControlView::ledger_bounded);
    reveal(ControlView::persisted);
    reveal(ControlView::after_seal);
    reveal(ControlView::starting);
    reveal(ControlView::started);
    reveal(ControlView::after_start);
    let before = view.recorder->0;
    assert(totals_of_offsets(before.totals.as_offsets()) == before.totals);
}

/// A session is saved only where as many samples were read back as were
/// recorded, and where the metadata that were read back name this session;
/// otherwise it stays recoverable with everything it had.
pub proof fn law_only_a_complete_file_is_saved(view: ControlView, merged: MergeFacts, ctx: Context)
    requires
        view.well_formed(),
        view.stage == Stage::Merging,
    ensures
        ({
            let after = view.merged(merged, ctx);
            let complete = merged.imported_rows == view.facts->0.rows && merged.session_id == Some(
                view.facts->0.session_id,
            );
            &&& complete <==> after.core.phase == RecordingPhase::Saved
            &&& complete ==> !after.core.session && after.ledger is None && after.directory is None
            &&& !complete ==> {
                &&& after.core.phase == RecordingPhase::Interrupted
                &&& after.core.session == view.core.session
                &&& after.directory == view.directory
                &&& after.facts == view.facts
                &&& after.ledger == Some(
                    LedgerFacts { state: SessionState::Interrupted, ..view.ledger->0 },
                )
            }
        }),
{
    reveal(ControlView::merged);
    reveal(ControlView::merge_error);
    reveal(ControlView::merge_failed);
    reveal(ControlView::saved);
    reveal(ControlView::final_facts);
    reveal(ControlView::ledger_in);
}

/// Idle sleep is held off for the sake of a recording: once a session is saved
/// the machine may sleep again.
pub proof fn law_a_saved_session_lets_the_machine_sleep(
    view: ControlView,
    merged: MergeFacts,
    ctx: Context,
)
    requires
        view.well_formed(),
        view.stage == Stage::Merging,
    ensures
        view.merged(merged, ctx).core.phase == RecordingPhase::Saved ==> !view.merged(
            merged,
            ctx,
        ).core.sleep_held,
{
    reveal(ControlView::merged);
    reveal(ControlView::merge_failed);
    reveal(ControlView::saved);
    reveal(ControlView::final_facts);
    reveal(ControlView::ledger_in);
}

/// A disconnection that the user did not ask for never ends a session: it
/// waits for its device.
pub proof fn law_disconnection_keeps_the_session(view: ControlView, reply: Result<
    Seq<char>,
    Seq<char>,
>, ctx: Context)
    requires
        view.core.session,
        view.stage == Stage::Persisting(
            PersistPurpose::Sealed(SealPurpose::Pause(PauseFollowUp::Disconnected)),
        ),
    ensures
        ({
            let after = view.replied(reply, ctx);
            &&& after.core.session
            &&& after.core.phase == RecordingPhase::WaitingForReconnect
            &&& after.core.paused == view.core.paused
            &&& after.directory == view.directory
            &&& after.ledger == view.ledger
            &&& after.facts == view.facts
        }),
{
    reveal(ControlView::replied);
    reveal(ControlView::persisted);
    reveal(ControlView::after_seal);
    reveal(ControlView::after_pause);
    reveal(ControlView::paused_further);
}

/// A session goes on from the newest sample: what passed while it was paused
/// is left out of its totals, and the pause is marked on the plot.
pub proof fn law_going_on_leaves_the_pause_out(
    view: ControlView,
    follow: ResumeFollowUp,
    start_us: i64,
    latest: MeasurementSample,
    ctx: Context,
)
    requires
        ctx.latest == Some(latest),
        view.core.active_pause_us == Some(start_us),
        view.core.plotted(ctx.latest)->0 >= start_us,
    ensures
        ({
            let after = view.resumes(follow, ctx);
            &&& after.core.phase == RecordingPhase::Recording
            &&& !after.core.paused
            &&& after.core.tallies == view.core.tallies.moved(Some(latest))
            &&& after.pauses.last().start_us == start_us
            &&& after.pauses.last().end_us == view.core.plotted(ctx.latest)->0
            &&& after.pauses.len() == view.pauses.len() + 1
        }),
{
    reveal(ControlView::resumes);
    reveal(ControlView::ledger_in);
}

/// A running session is never replaced by an earlier one: nothing changes but
/// what is said, whichever device is connected.
pub proof fn law_a_running_session_is_not_replaced(
    view: ControlView,
    connected: Option<Seq<char>>,
    directory: Seq<char>,
    ledger: LedgerFacts,
    facts: SessionFacts,
    samples: Seq<MeasurementSample>,
    ctx: Context,
)
    requires
        view.core.session,
    ensures
        view.load(connected, directory, ledger, facts, samples, ctx) == view.says(
            ctx.language.chosen("请先保存当前录制"@, "Save the current recording first"@),
        ),
        !view.can_load(connected, facts.device.serial, samples, ctx.language),
{
    reveal(ControlView::load);
    reveal(ControlView::load_refusal);
}

/// An earlier session goes on only while a device is connected, and only on
/// its own one where it names one.
pub proof fn law_a_session_goes_on_with_its_device(
    view: ControlView,
    connected: Option<Seq<char>>,
    serial: Seq<char>,
    samples: Seq<MeasurementSample>,
    language: Language,
)
    ensures
        view.can_load(connected, serial, samples, language) <==> {
            &&& !view.core.session
            &&& connected is Some
            &&& serial.len() > 0 ==> connected == Some(serial)
            &&& samples.len() > 0
        },
{
    reveal(ControlView::load_refusal);
}

/// A session begins with nothing in it: its storage is made, its first file is
/// begun, and from then on it is recorded, under the metadata that it was
/// given. It has no rows, no pauses and nothing of an earlier recording.
pub proof fn law_a_new_session_begins_empty(
    view: ControlView,
    draft: SessionFacts,
    directory: Seq<char>,
    path: Seq<char>,
    written: Seq<char>,
    ctx: Context,
)
    requires
        view.stage == Stage::Rest,
        view.recorder is None,
        !view.core.session,
        !view.sleep_protection,
    ensures
        ({
            let asked = view.start(Some(draft));
            let made = asked.replied(Ok(directory), ctx);
            let opened = made.replied(Ok(path), ctx);
            let after = opened.replied(Ok(written), ctx);
            let recorder = after.recorder->0;
            let segment = after.ledger->0.segments[0];
            &&& asked.stage == Stage::Creating
            &&& made.stage == Stage::Starting(StartPurpose::New)
            &&& after.stage == Stage::Rest
            &&& after.core.phase == RecordingPhase::Recording
            &&& after.core.session
            &&& !after.core.paused
            &&& after.directory == Some(directory)
            &&& after.facts == Some(draft)
            &&& after.recorder is Some
            &&& recorder.path == path
            &&& recorder.totals.rows == 0
            &&& recorder.totals.elapsed_us == 0
            &&& recorder.totals.energy_throughput == 0
            &&& recorder.totals.charge_throughput == 0
            &&& !recorder.finishing
            &&& after.ledger is Some
            &&& after.ledger->0.state == SessionState::Recording
            &&& after.ledger->0.format == view.format
            &&& after.ledger->0.segments.len() == 1
            &&& segment.index == 0
            &&& segment.start_row == 0
            &&& segment.end_row == 0
            &&& segment.start_elapsed_us == 0
            &&& !segment.sealed
            &&& after.core.next_segment_index == 1
            &&& after.pauses.len() == 0
            &&& after.last_recording is None
            &&& after.last_facts is None
            &&& after.destination is None
            &&& after.begun
        }),
{
    reveal(ControlView::start);
    reveal(ControlView::replied);
    reveal(ControlView::created);
    reveal(ControlView::starting);
    reveal(ControlView::started);
    reveal(ControlView::persisted);
    reveal(ControlView::after_start);
    reveal(ControlView::begins);
}

/// A session that runs, or a file that is being written, is not disturbed by the
/// wish to begin another, and without a device none is begun.
pub proof fn law_a_session_is_begun_only_at_rest(view: ControlView, draft: Option<SessionFacts>)
    ensures
        draft is Some && (view.recorder is Some || view.core.session) ==> view.start(draft) == view,
        draft is None ==> view.start(draft) == view.says("请先连接 KM003C，再开始录制"@),
{
    reveal(ControlView::start);
}

/// Samples of a session that is recorded are handed to its writer, all of them
/// and as they are.
pub proof fn law_samples_are_handed_to_the_writer(
    view: ControlView,
    samples: Seq<MeasurementSample>,
    streaming: bool,
    ctx: Context,
)
    requires
        view.core.session,
        !view.core.paused,
        view.recorder is Some,
        !view.recorder->0.finishing,
        samples.len() > 0,
    ensures
        ({
            let sent = view.append(samples, streaming, ctx);
            &&& sent.stage is Sending
            &&& sent.outgoing == samples
            &&& sent.recorder == view.recorder
            &&& sent.facts == view.facts
            &&& sent.ledger == view.ledger
            &&& sent.core.phase == view.core.phase
            &&& sent.core.session
            &&& !sent.core.paused
        }),
{
    reveal(ControlView::append);
    reveal(ControlView::observed);
    reveal(ControlView::tallied);
    reveal(ControlView::offered);
}

/// Once the writer took the samples they count: the file has as many rows more,
/// the metadata say the same, and the session goes on in the same file unless it
/// is long enough, which is after 32,768 rows or thirty seconds.
pub proof fn law_rows_that_were_taken_count(
    view: ControlView,
    reply: Seq<char>,
    ctx: Context,
)
    requires
        view.well_formed(),
        view.stage == Stage::Sending(false),
        !view.recorder->0.finishing,
        view.recorder->0.totals.rows >= view.core.segment_start.sample_index,
    ensures
        ({
            let after = view.replied(Ok(reply), ctx);
            let before = view.recorder->0;
            let now = after.recorder->0;
            let rows = now.totals.rows - view.core.segment_start.sample_index;
            let time = now.totals.elapsed_us - view.core.segment_start.elapsed_us;
            &&& after.recorder is Some
            &&& now.totals.rows == before.totals.rows + view.outgoing.len()
            &&& after.outgoing.len() == 0
            &&& after.facts is Some == view.facts is Some
            &&& after.facts matches Some(facts) ==> {
                &&& facts.rows == now.totals.rows
                &&& facts.effective_duration_us == now.totals.elapsed_us
                &&& facts.cumulative_energy == now.totals.energy_throughput
                &&& facts.cumulative_capacity == now.totals.charge_throughput
                &&& facts.net_energy == now.totals.energy
                &&& facts.session_id == view.facts->0.session_id
            }
            &&& rows >= 32_768 || time >= 30_000_000 ==> after.stage == Stage::Finishing(
                SealPurpose::Rotate,
            )
            &&& rows < 32_768 && time < 30_000_000 ==> after.stage == Stage::Rest
            &&& after.core.phase == view.core.phase
            &&& after.core.tallies == view.core.tallies
        }),
{
    reveal(ControlView::replied);
    reveal(ControlView::taken);
    reveal(ControlView::recorded);
    reveal(ControlView::measured);
    reveal(ControlView::rotate);
    reveal(ControlView::sealing);
}

/// What a file of the session came to is noted under its number and nowhere
/// else: where its rows end, when they end, and whether it is complete.
pub proof fn law_the_end_of_a_file_is_noted_under_its_number(
    segments: Seq<SegmentFacts>,
    at: int,
    totals: RecordingTotals,
    sealed: bool,
)
    requires
        0 <= at < segments.len(),
        forall|i: int| 0 <= i < at ==> (#[trigger] segments[i]).index != segments[at].index,
    ensures
        ({
            let after = bounded(segments, segments[at].index, totals, sealed);
            &&& after.len() == segments.len()
            &&& after[at].end_row == totals.rows
            &&& after[at].end_elapsed_us == totals.elapsed_us
            &&& sealed ==> after[at].sealed
            &&& !sealed ==> after[at].sealed == segments[at].sealed
            &&& after[at].index == segments[at].index
            &&& after[at].file_name == segments[at].file_name
            &&& after[at].start_row == segments[at].start_row
            &&& after[at].start_elapsed_us == segments[at].start_elapsed_us
            &&& forall|i: int|
                0 <= i < segments.len() && i != at ==> #[trigger] after[i] == segments[i]
        }),
{
    lemma_position_of(segments, at);
}

/// The entry of a file is the first one with its number.
proof fn lemma_position_of(segments: Seq<SegmentFacts>, at: int)
    requires
        0 <= at < segments.len(),
        forall|i: int| 0 <= i < at ==> (#[trigger] segments[i]).index != segments[at].index,
    ensures
        segment_position(segments, segments[at].index) == at,
    decreases segments.len(),
{
    let index = segments[at].index;
    let earlier = segments.drop_last();
    if at < earlier.len() {
        assert(earlier[at].index == index);
        assert forall|i: int| 0 <= i < at implies (#[trigger] earlier[i]).index
            != earlier[at].index by {
            assert(earlier[i] == segments[i]);
        }
        lemma_position_of(earlier, at);
    } else {
        lemma_no_position(earlier, index);
    }
}

/// An entry that is found is one of the entries.
proof fn lemma_position_is_an_entry(segments: Seq<SegmentFacts>, index: u32)
    ensures
        -1 <= segment_position(segments, index) < segments.len(),
    decreases segments.len(),
{
    if segments.len() > 0 {
        lemma_position_is_an_entry(segments.drop_last(), index);
    }
}

/// A number that no file has stands nowhere.
proof fn lemma_no_position(segments: Seq<SegmentFacts>, index: u32)
    requires
        forall|i: int| 0 <= i < segments.len() ==> (#[trigger] segments[i]).index != index,
    ensures
        segment_position(segments, index) == -1,
    decreases segments.len(),
{
    if segments.len() > 0 {
        let earlier = segments.drop_last();
        assert(segments[segments.len() - 1].index != index);
        assert forall|i: int| 0 <= i < earlier.len() implies (#[trigger] earlier[i]).index
            != index by {
            assert(earlier[i] == segments[i]);
        }
        lemma_no_position(earlier, index);
    }
}

/// A file gets a number that no earlier file has, and no number is left out
/// behind the largest one.
pub proof fn law_the_next_file_has_a_number_of_its_own(segments: Seq<SegmentFacts>)
    requires
        forall|i: int| 0 <= i < segments.len() ==> (#[trigger] segments[i]).index < u32::MAX,
    ensures
        forall|i: int|
            0 <= i < segments.len() ==> (#[trigger] segments[i]).index < next_index(segments),
        segments.len() == 0 ==> next_index(segments) == 0,
        segments.len() > 0 ==> exists|i: int|
            0 <= i < segments.len() && (#[trigger] segments[i]).index + 1 == next_index(segments),
    decreases segments.len(),
{
    if segments.len() > 0 {
        let earlier = segments.drop_last();
        assert forall|i: int| 0 <= i < earlier.len() implies (#[trigger] earlier[i]).index
            < u32::MAX by {
            assert(earlier[i] == segments[i]);
        }
        law_the_next_file_has_a_number_of_its_own(earlier);
        assert(segments[segments.len() - 1].index < u32::MAX);
        assert forall|i: int| 0 <= i < segments.len() implies (#[trigger] segments[i]).index
            < next_index(segments) by {
            if i < earlier.len() {
                assert(earlier[i].index < next_index(earlier));
            }
        }
        if next_index(segments) == segments.last().index + 1 {
            assert(segments[segments.len() - 1].index + 1 == next_index(segments));
        } else {
            let i = choose|i: int|
                0 <= i < earlier.len() && (#[trigger] earlier[i]).index + 1 == next_index(earlier);
            assert(segments[i].index + 1 == next_index(segments));
        }
    }
}

/// Closing a file keeps what it came to: the next one carries on from there, its
/// end is noted in the ledger, the metadata hold its totals, and its writer is
/// followed up until it is done.
pub proof fn law_a_closed_file_is_carried_on(
    view: ControlView,
    purpose: SealPurpose,
    reply: Seq<char>,
    at: int,
    ctx: Context,
)
    requires
        view.well_formed(),
        view.stage == Stage::Finishing(purpose),
        view.ledger is Some,
        view.facts is Some,
        view.core.next_segment_index > 0,
        0 <= at < view.ledger->0.segments.len(),
        view.ledger->0.segments[at].index + 1 == view.core.next_segment_index,
        forall|i: int|
            0 <= i < at ==> (#[trigger] view.ledger->0.segments[i]).index
                != view.ledger->0.segments[at].index,
    ensures
        ({
            let after = view.replied(Ok(reply), ctx);
            let totals = view.recorder->0.totals;
            let next = after.core.continuation;
            let noted = after.ledger->0.segments[at];
            &&& after.recorder is None
            &&& next.sample_index == totals.rows
            &&& next.elapsed_us == totals.elapsed_us
            &&& next.energy == totals.energy
            &&& next.charge == totals.charge
            &&& next.energy_throughput == totals.energy_throughput
            &&& next.charge_throughput == totals.charge_throughput
            &&& next.cumulative_missing_samples == totals.missing_samples
            &&& after.ledger is Some
            &&& noted.end_row == totals.rows
            &&& noted.end_elapsed_us == totals.elapsed_us
            &&& noted.start_row == view.ledger->0.segments[at].start_row
            &&& after.facts is Some
            &&& after.facts->0.rows == totals.rows
            &&& after.facts->0.effective_duration_us == totals.elapsed_us
            &&& after.finalizing.len() == view.finalizing.len() + 1
            &&& after.finalizing.last().index == view.ledger->0.segments[at].index
            &&& after.finalizing.last().recorder.finishing
            &&& after.finalizing.last().recorder.totals == totals
            &&& purpose == SealPurpose::Rotate ==> after.ledger->0.state == SessionState::Recording
            &&& purpose == SealPurpose::Stop || purpose == SealPurpose::Interrupt
                ==> after.ledger->0.state == SessionState::Interrupted
            &&& purpose is Pause && view.core.pause_reason == Some(PauseReason::UsbDisconnected)
                ==> after.ledger->0.state == SessionState::WaitingForReconnect
            &&& purpose is Pause && view.core.pause_reason != Some(PauseReason::UsbDisconnected)
                ==> after.ledger->0.state == SessionState::Paused
        }),
{
    reveal(ControlView::replied);
    reveal(ControlView::sealed);
    reveal(ControlView::released);
    reveal(ControlView::measured);
    reveal(ControlView::ledger_in);
    reveal(ControlView::ledger_bounded);
    lemma_position_of(view.ledger->0.segments, at);
}

/// A pause is written down with its reason and its beginning: a lost device
/// among the disconnections, any other reason among the pauses.
pub proof fn law_a_pause_is_written_down(
    view: ControlView,
    reason: PauseReason,
    follow: PauseFollowUp,
    ctx: Context,
)
    requires
        view.core.session,
        !view.core.paused,
        view.facts is Some,
    ensures
        ({
            let after = view.pause(reason, follow, ctx);
            let before = view.facts->0;
            let facts = after.facts->0;
            &&& after.facts is Some
            &&& reason == PauseReason::UsbDisconnected ==> {
                &&& facts.disconnects.len() == before.disconnects.len() + 1
                &&& facts.disconnects.last().started_at_utc == ctx.utc
                &&& facts.disconnects.last().ended_at_utc is None
                &&& facts.disconnects.last().reason == IntervalReason::UsbDisconnected
                &&& facts.pauses == before.pauses
            }
            &&& reason != PauseReason::UsbDisconnected ==> {
                &&& facts.pauses.len() == before.pauses.len() + 1
                &&& facts.pauses.last().started_at_utc == ctx.utc
                &&& facts.pauses.last().ended_at_utc is None
                &&& facts.pauses.last().reason == (if reason == PauseReason::Manual {
                    IntervalReason::ManualPause
                } else {
                    IntervalReason::AutomaticPause
                })
                &&& facts.disconnects == before.disconnects
            }
        }),
        view.core.active_pause_us is None && ctx.latest is Some ==> view.pause(
            reason,
            follow,
            ctx,
        ).core.active_pause_us is Some,
{
    reveal(ControlView::pause);
    reveal(ControlView::sealing);
    reveal(ControlView::sealed);
    reveal(ControlView::released);
    reveal(ControlView::measured);
    reveal(ControlView::ledger_in);
    reveal(ControlView::ledger_bounded);
}

/// A paused session whose device streams goes on in a file of its own: behind
/// the rows that it has, under the next number, and the pause that it was in is
/// ended in its metadata.
pub proof fn law_a_paused_session_goes_on_in_a_new_file(
    view: ControlView,
    path: Seq<char>,
    written: Seq<char>,
    ctx: Context,
)
    requires
        view.stage == Stage::Rest,
        view.core.session,
        view.core.paused,
        view.core.pause_reason != Some(PauseReason::UsbDisconnected),
        view.recorder is None,
        view.directory is Some,
        view.ledger is Some,
        view.facts is Some,
        view.fault is None,
        !view.sleep_protection,
        view.core.next_segment_index < u32::MAX,
        view.facts->0.pauses.len() > 0,
        view.facts->0.pauses.last().ended_at_utc is None,
    ensures
        ({
            let asked = view.resume(true, ResumeFollowUp::Plain, ctx);
            let opened = asked.replied(Ok(path), ctx);
            let goes = opened.replied(Ok(written), ctx);
            let after = goes.replied(Ok(written), ctx);
            let segment = after.ledger->0.segments.last();
            let pause = after.facts->0.pauses.last();
            &&& asked.stage == Stage::Starting(StartPurpose::Resume(ResumeFollowUp::Plain))
            &&& after.stage == Stage::Rest
            &&& after.core.phase == RecordingPhase::Recording
            &&& after.core.session
            &&& !after.core.paused
            &&& after.recorder is Some
            &&& after.recorder->0.path == path
            &&& after.recorder->0.totals.rows == view.core.continuation.sample_index
            &&& after.recorder->0.totals.elapsed_us == view.core.continuation.elapsed_us
            &&& after.recorder->0.totals.energy_throughput
                == view.core.continuation.energy_throughput
            &&& after.recorder->0.totals.charge_throughput
                == view.core.continuation.charge_throughput
            &&& after.recorder->0.totals.energy == view.core.continuation.energy
            &&& after.ledger is Some
            &&& after.ledger->0.state == SessionState::Recording
            &&& after.ledger->0.segments.len() == view.ledger->0.segments.len() + 1
            &&& segment.index == view.core.next_segment_index
            &&& segment.start_row == view.core.continuation.sample_index
            &&& segment.end_row == segment.start_row
            &&& segment.start_elapsed_us == view.core.continuation.elapsed_us
            &&& !segment.sealed
            &&& after.core.next_segment_index == view.core.next_segment_index + 1
            &&& after.core.below_since_us is None
            &&& after.core.above_since_us is None
            &&& after.facts is Some
            &&& after.facts->0.pauses.len() == view.facts->0.pauses.len()
            &&& pause.ended_at_utc == Some(ctx.utc)
            &&& pause.started_at_utc == view.facts->0.pauses.last().started_at_utc
        }),
{
    reveal(ControlView::resume);
    reveal(ControlView::starting);
    reveal(ControlView::started);
    reveal(ControlView::replied);
    reveal(ControlView::persisted);
    reveal(ControlView::after_start);
    reveal(ControlView::resumes);
    reveal(ControlView::after_resume);
    reveal(ControlView::records_again);
    reveal(ControlView::resumed_further);
    reveal(ControlView::ledger_in);
}

/// A session does not go on that is not paused, whose device does not stream, or
/// whose last file is still being finished: nothing changes but what is said.
pub proof fn law_only_a_paused_session_with_a_device_goes_on(
    view: ControlView,
    streaming: bool,
    follow: ResumeFollowUp,
    ctx: Context,
)
    requires
        !view.core.session || !view.core.paused || !streaming || (
        view.recorder matches Some(recorder) && recorder.finishing),
    ensures
        view.resume(streaming, follow, ctx) == view.says(
            view.resume(streaming, follow, ctx).status,
        ),
        follow == ResumeFollowUp::Plain ==> view.resume(streaming, follow, ctx) == view,
{
    reveal(ControlView::resume);
    reveal(ControlView::resumed_further);
}

/// A session that was stored is taken up where it ended: the time and the
/// amounts that it shows are those of its last sample, its next row follows its
/// last one, its next file gets a number of its own, and it waits, paused, to go
/// on. That the application was restarted is written down.
pub proof fn law_an_earlier_session_is_taken_up_where_it_ended(
    view: ControlView,
    connected: Seq<char>,
    directory: Seq<char>,
    ledger: LedgerFacts,
    facts: SessionFacts,
    samples: Seq<MeasurementSample>,
    ctx: Context,
)
    requires
        !view.core.session,
        samples.len() > 0,
        samples.last().sample_index < u64::MAX,
        facts.device.serial.len() == 0 || facts.device.serial == connected,
        forall|i: int| 0 <= i < ledger.segments.len() ==> (#[trigger] ledger.segments[i]).index
            < u32::MAX,
    ensures
        ({
            let after = view.load(Some(connected), directory, ledger, facts, samples, ctx);
            let last = samples.last();
            let next = after.core.continuation;
            &&& after.core.session
            &&& after.core.paused
            &&& after.core.phase == RecordingPhase::Paused
            &&& after.core.shown_energy() == last.energy_throughput
            &&& after.core.shown_capacity() == last.charge_throughput
            &&& after.core.shown_net_energy() == last.energy
            &&& after.core.shown_duration(ctx.now_us, ctx.rate, false) == last.elapsed_us
            &&& next.sample_index == last.sample_index + 1
            &&& next.elapsed_us == last.elapsed_us
            &&& next.charge == last.charge
            &&& next.energy == last.energy
            &&& next.charge_throughput == last.charge_throughput
            &&& next.energy_throughput == last.energy_throughput
            &&& next.cumulative_missing_samples == last.cumulative_missing_samples
            &&& next.cumulative_interpolated_duration_us
                == last.cumulative_interpolated_duration_us
            &&& next.cumulative_discarded_sequence_samples
                == last.cumulative_discarded_sequence_samples
            &&& after.core.resume_offsets == Some(next)
            &&& after.core.segment_start == next
            &&& forall|i: int|
                0 <= i < ledger.segments.len() ==> (#[trigger] ledger.segments[i]).index
                    < after.core.next_segment_index
            &&& after.directory == Some(directory)
            &&& after.ledger == Some(LedgerFacts { state: SessionState::Paused, ..ledger })
            &&& after.facts is Some
            &&& after.facts->0.pauses == facts.pauses.push(
                RecordingTimeInterval {
                    reason: IntervalReason::ApplicationRestart,
                    started_at_utc: ctx.utc,
                    ended_at_utc: None,
                },
            )
            &&& after.facts->0.session_id == facts.session_id
        }),
{
    reveal(ControlView::load);
    reveal(ControlView::load_refusal);
    reveal(ControlView::loaded);
    law_the_next_file_has_a_number_of_its_own(ledger.segments);
}

/// A recording that is stopped is closed and kept: its file is finished, its end
/// is written down, and it stays in its directory to be taken up or saved.
pub proof fn law_a_stopped_session_is_kept(
    view: ControlView,
    told: bool,
    reply: Seq<char>,
    ctx: Context,
)
    requires
        view.core.session,
        view.recorder is Some,
        !view.recorder->0.finishing,
        view.ledger is Some,
        view.facts is Some,
    ensures
        ({
            let asked = view.stop(told, ctx);
            let closed = asked.replied(Ok(reply), ctx);
            let after = closed.replied(Ok(reply), ctx);
            &&& asked.stage == Stage::Finishing(SealPurpose::Stop)
            &&& after.stage == Stage::Rest
            &&& after.core.phase == RecordingPhase::Interrupted
            &&& after.core.session
            &&& after.core.paused
            &&& !after.core.sleep_held
            &&& after.recorder is None
            &&& after.finalizing.len() == view.finalizing.len() + 1
            &&& after.directory == view.directory
            &&& after.ledger is Some
            &&& after.ledger->0.state == SessionState::Interrupted
            &&& after.ledger->0.segments.len() == view.ledger->0.segments.len()
            &&& after.facts is Some
            &&& after.facts->0.times.ended == Some(ctx.utc)
            &&& after.facts->0.rows == view.recorder->0.totals.rows
            &&& after.core.tallies == view.core.tallies
        }),
{
    reveal(ControlView::stop);
    reveal(ControlView::sealing);
    reveal(ControlView::replied);
    reveal(ControlView::sealed);
    reveal(ControlView::released);
    reveal(ControlView::measured);
    reveal(ControlView::ledger_in);
    reveal(ControlView::ledger_bounded);
    reveal(ControlView::persisted);
    reveal(ControlView::after_seal);
    reveal(ControlView::after_stop);
    lemma_position_is_an_entry(
        view.ledger->0.segments,
        before_index(view.core.next_segment_index),
    );
}

/// A session is saved to the place that was chosen, once all its files are
/// closed; without a place nothing changes but what is said.
pub proof fn law_a_session_is_saved_where_it_was_asked_to(
    view: ControlView,
    destination: Seq<char>,
    reply: Seq<char>,
    ctx: Context,
)
    requires
        view.core.session,
        view.core.phase != RecordingPhase::Finalizing,
        view.ledger is Some,
        view.facts is Some,
        view.directory is Some,
        view.recorder is None,
    ensures
        ({
            let asked = view.save(Some(destination), ctx);
            let noted = asked.replied(Ok(reply), ctx);
            &&& asked.stage == Stage::Persisting(PersistPurpose::Destination)
            &&& noted.stage == Stage::Rest
            &&& noted.core.phase == RecordingPhase::Finalizing
            &&& noted.destination == Some(destination)
            &&& noted.ledger is Some
            &&& noted.ledger->0.state == SessionState::Finalizing
            &&& noted.ledger->0.segments == view.ledger->0.segments
            &&& noted.facts is Some
            &&& noted.facts->0.times.ended == Some(ctx.utc)
            &&& noted.facts->0.rows == view.facts->0.rows
            &&& noted.finalize().stage == Stage::Merging <==> view.finalizing.len() == 0
            &&& view.finalizing.len() > 0 ==> noted.finalize() == noted
        }),
        ({
            let kept = view.save(None, ctx);
            kept == view.says(kept.status)
        }),
{
    reveal(ControlView::save);
    reveal(ControlView::ledger_in);
    reveal(ControlView::replied);
    reveal(ControlView::persisted);
    reveal(ControlView::finalize);
}

/// What was saved is shown as the last recording: at the place that was chosen,
/// with what the merged file amounts to, the end that the session had and the
/// time of saving; no interval of it is left open.
pub proof fn law_a_saved_session_is_the_last_recording(
    view: ControlView,
    merged: MergeFacts,
    ctx: Context,
    i: int,
)
    requires
        view.well_formed(),
        view.stage == Stage::Merging,
        merged.imported_rows == view.facts->0.rows,
        merged.session_id == Some(view.facts->0.session_id),
    ensures
        ({
            let after = view.merged(merged, ctx);
            let before = view.facts->0;
            let facts = after.last_facts->0;
            &&& after.stage == Stage::Rest
            &&& after.last_recording is Some
            &&& after.last_recording->0.path == view.destination->0
            &&& after.last_recording->0.totals == merged.totals
            &&& after.last_facts is Some
            &&& facts.rows == before.rows
            &&& facts.session_id == before.session_id
            &&& facts.cumulative_energy == before.cumulative_energy
            &&& facts.cumulative_capacity == before.cumulative_capacity
            &&& facts.net_energy == before.net_energy
            &&& facts.times.saved == Some(ctx.utc)
            &&& facts.times.ended == (if before.times.ended is Some {
                before.times.ended
            } else {
                Some(ctx.utc)
            })
            &&& facts.times.started == before.times.started
            &&& facts.pauses.len() == before.pauses.len()
            &&& 0 <= i < facts.pauses.len() ==> facts.pauses[i].ended_at_utc is Some
            &&& facts.disconnects.len() == before.disconnects.len()
            &&& 0 <= i < facts.disconnects.len() ==> facts.disconnects[i].ended_at_utc is Some
            &&& after.facts is None
            &&& after.destination is None
        }),
{
    reveal(ControlView::merged);
    reveal(ControlView::merge_error);
    reveal(ControlView::saved);
    reveal(ControlView::final_facts);
}

/// When the writer of a closed file is done, its file is complete and followed
/// up no longer; when it failed, the session is interrupted and says why. The
/// other files are followed up as before.
pub proof fn law_a_finished_file_is_complete(
    view: ControlView,
    at: int,
    place: int,
    summary: SummaryFacts,
    error: Seq<char>,
    ctx: Context,
)
    requires
        0 <= at < view.finalizing.len(),
        view.ledger is Some,
        view.facts is Some,
        0 <= place < view.ledger->0.segments.len(),
        view.ledger->0.segments[place].index == view.finalizing[at].index,
        forall|i: int|
            0 <= i < place ==> (#[trigger] view.ledger->0.segments[i]).index
                != view.finalizing[at].index,
    ensures
        ({
            let done = view.segment_ended(at, EventFacts::Finished(summary), ctx);
            let failed = view.segment_ended(at, EventFacts::Failed(error), ctx);
            let noted = done.ledger->0.segments[place];
            &&& done.finalizing.len() == view.finalizing.len() - 1
            &&& noted.sealed
            &&& noted.end_row == summary.totals.rows
            &&& noted.end_elapsed_us == summary.totals.elapsed_us
            &&& done.facts->0.rows == summary.totals.rows
            &&& done.core == view.core
            &&& failed.finalizing.len() == view.finalizing.len() - 1
            &&& failed.core.phase == RecordingPhase::Interrupted
            &&& failed.core.session == view.core.session
            &&& failed.ledger->0.state == SessionState::Interrupted
            &&& failed.ledger->0.segments == view.ledger->0.segments
            &&& failed.facts == view.facts
            &&& forall|i: int|
                0 <= i < view.finalizing.len() && i != at ==> done.finalizing.contains(
                    #[trigger] view.finalizing[i],
                )
        }),
{
    reveal(ControlView::segment_ended);
    reveal(ControlView::measured);
    reveal(ControlView::ledger_in);
    reveal(ControlView::ledger_bounded);
    lemma_position_of(view.ledger->0.segments, place);
    let left = view.without(at);
    let done = view.segment_ended(at, EventFacts::Finished(summary), ctx);
    assert(done.finalizing == left);
    assert forall|i: int| 0 <= i < view.finalizing.len() && i != at implies left.contains(
        #[trigger] view.finalizing[i],
    ) by {
        if i < left.len() {
            assert(left[i] == view.finalizing[i]);
        } else {
            assert(left[at] == view.finalizing[i]);
        }
    }
}

/// The live buffer is written as a recording of its own: from its first sample
/// on, with as many rows as it holds samples.
pub proof fn law_the_live_buffer_becomes_a_recording(
    view: ControlView,
    path: Seq<char>,
    samples: Seq<MeasurementSample>,
)
    requires
        0 < samples.len() <= u64::MAX,
        samples[0].elapsed_us <= samples.last().elapsed_us,
    ensures
        ({
            let after = view.exported(path, samples, None);
            let recorder = after.recorder->0;
            &&& after.recorder is Some
            &&& recorder.path == path
            &&& recorder.finishing
            &&& recorder.totals.rows == samples.len()
            &&& recorder.totals.elapsed_us == samples.last().elapsed_us - samples[0].elapsed_us
            &&& after.core == view.core
        }),
        ({
            let failed = view.exported(path, samples, Some(path));
            failed == view.says(path)
        }),
{
    reveal(ControlView::exported);
}

/// Clearing forgets what the last recording showed.
pub proof fn law_clearing_forgets_the_last_recording(
    view: ControlView,
    now_us: u64,
    rate: SampleRateOption,
)
    requires
        !view.core.session,
    ensures
        ({
            let after = view.cleared();
            &&& after.core.phase == RecordingPhase::Idle
            &&& after.core.shown_energy() == 0
            &&& after.core.shown_capacity() == 0
            &&& after.core.shown_net_energy() == 0
            &&& after.core.shown_duration(now_us, rate, false) == 0
            &&& after.core.plot_origin_us == 0
            &&& after.core.resume_offsets is None
            &&& after.last_recording is None
        }),
{
    reveal(ControlView::cleared);
}

/// What a session that is recorded shows goes with its newest sample: what its
/// earlier stretches came to, and what the counters gained since the current one
/// began. Its statistics take in every sample.
pub proof fn law_shown_amounts_follow_the_newest_sample(
    view: ControlView,
    samples: Seq<MeasurementSample>,
    streaming: bool,
    ctx: Context,
)
    requires
        view.core.session,
        !view.core.paused,
        view.recorder is Some,
        !view.recorder->0.finishing,
        samples.len() > 0,
        samples.last().energy_throughput >= view.core.tallies.energy.origin,
        samples.last().charge_throughput >= view.core.tallies.capacity.origin,
        view.core.tallies.energy.completed + (samples.last().energy_throughput
            - view.core.tallies.energy.origin) <= i128::MAX,
        view.core.tallies.capacity.completed + (samples.last().charge_throughput
            - view.core.tallies.capacity.origin) <= i128::MAX,
        samples.last().energy_throughput - view.core.tallies.energy.origin <= i128::MAX,
        samples.last().charge_throughput - view.core.tallies.capacity.origin <= i128::MAX,
        i128::MIN <= samples.last().energy - view.core.tallies.net_energy.origin <= i128::MAX,
        i128::MIN <= view.core.tallies.net_energy.completed + (samples.last().energy
            - view.core.tallies.net_energy.origin) <= i128::MAX,
    ensures
        ({
            let sent = view.append(samples, streaming, ctx);
            let last = samples.last();
            let tallies = view.core.tallies;
            &&& sent.core.shown_energy() == tallies.energy.completed + (last.energy_throughput
                - tallies.energy.origin)
            &&& sent.core.shown_capacity() == tallies.capacity.completed + (last.charge_throughput
                - tallies.capacity.origin)
            &&& sent.core.shown_net_energy() == tallies.net_energy.completed + (last.energy
                - tallies.net_energy.origin)
            &&& sent.core.statistics == view.core.statistics.with_all(samples)
        }),
{
    reveal(ControlView::append);
    reveal(ControlView::observed);
    reveal(ControlView::tallied);
    reveal(ControlView::offered);
}

} // verus!
