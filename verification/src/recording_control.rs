//! The recording controls.
//!
//! A request or a reply leads to the next state; the state says what is
//! awaited from outside: a writer that takes rows, is started or told to
//! finish, a manifest that is written, files that are merged. Whoever performs
//! it replies with what became of it.
use vstd::prelude::*;
use vstd::string::*;

use crate::control_model::{
    bounded, next_index, segment_position, ControlView, EventFacts, FinalizingFacts, LedgerFacts,
    MergeFacts, Stage, SummaryFacts,
};
use crate::measurement::MeasurementSample;
use crate::options::{AutoCaptureRule, RecordingPhase};
use crate::recording::{
    Recorder, RecorderView, RecordingEvent, RecordingFormat, RecordingSummary, RecordingTotals,
};
use crate::recording_session::{
    segment_facts, RecordingSegmentMetadata, RecordingSessionMetadataV1, SegmentFacts, SessionFacts,
    SessionState,
};
use crate::session_core::{Context, SessionCore};
use crate::statistics::PauseInterval;

verus! {

/// A file that its writer is finishing.
#[derive(Debug)]
pub struct FinalizingSegment {
    pub index: u32,
    pub recorder: Recorder,
}

impl View for FinalizingSegment {
    type V = FinalizingFacts;

    open spec fn view(&self) -> FinalizingFacts {
        FinalizingFacts { index: self.index, recorder: self.recorder@ }
    }
}

/// The files of a session that is being recorded.
#[derive(Debug)]
pub struct SessionLedger {
    pub state: SessionState,
    pub format: RecordingFormat,
    pub segments: Vec<RecordingSegmentMetadata>,
}

impl View for SessionLedger {
    type V = LedgerFacts;

    open spec fn view(&self) -> LedgerFacts {
        LedgerFacts {
            state: self.state,
            format: self.format,
            segments: segment_facts(self.segments@),
        }
    }
}

/// Appending an entry, seen from outside.
pub(crate) proof fn lemma_facts_push(
    segments: Seq<RecordingSegmentMetadata>,
    segment: RecordingSegmentMetadata,
)
    ensures
        segment_facts(segments.push(segment)) == segment_facts(segments).push(segment@),
{
    assert(segment_facts(segments.push(segment)) =~= segment_facts(segments).push(segment@));
}

/// Replacing an entry, seen from outside.
proof fn lemma_facts_update(
    segments: Seq<RecordingSegmentMetadata>,
    at: int,
    segment: RecordingSegmentMetadata,
)
    requires
        0 <= at < segments.len(),
    ensures
        segment_facts(segments.update(at, segment)) == segment_facts(segments).update(
            at,
            segment@,
        ),
{
    assert(segment_facts(segments.update(at, segment)) =~= segment_facts(segments).update(
        at,
        segment@,
    ));
}

/// Where a first part without an entry of file number `index` ends.
proof fn lemma_position(segments: Seq<SegmentFacts>, index: u32, at: int)
    requires
        0 <= at <= segments.len(),
        forall|i: int| 0 <= i < at ==> #[trigger] segments[i].index != index,
    ensures
        at < segments.len() && segments[at].index == index ==> segment_position(segments, index)
            == at,
        at == segments.len() ==> segment_position(segments, index) == -1,
    decreases segments.len(),
{
    if segments.len() > 0 {
        let front = segments.drop_last();
        if at < segments.len() - 1 {
            lemma_position(front, index, at);
        } else {
            lemma_position(front, index, front.len() as int);
        }
    }
}

impl SessionLedger {
    /// Notes the end of file number `index`.
    pub(crate) fn bound(&mut self, index: u32, totals: RecordingTotals, sealed: bool)
        ensures
            final(self)@ == (LedgerFacts {
                segments: bounded(old(self)@.segments, index, totals, sealed),
                ..old(self)@
            }),
    {
        let mut at: usize = 0;
        let ghost facts = self@.segments;
        while at < self.segments.len()
            invariant
                *self == *old(self),
                facts == self@.segments,
                at <= self.segments@.len(),
                forall|i: int| 0 <= i < at ==> #[trigger] facts[i].index != index,
            decreases self.segments.len() - at,
        {
            assert(facts[at as int] == self.segments@[at as int]@);
            if self.segments[at].index == index {
                let mut segment = self.segments[at].copied();
                segment.end_row = totals.rows;
                segment.end_elapsed_us = totals.elapsed_us;
                if sealed {
                    segment.sealed = true;
                }
                proof {
                    lemma_position(facts, index, at as int);
                    lemma_facts_update(self.segments@, at as int, segment);
                }
                self.segments.set(at, segment);
                return;
            }
            at += 1;
        }
        proof {
            lemma_position(facts, index, at as int);
        }
    }

    /// The number of the next file.
    pub fn following_index(&self) -> (index: u32)
        ensures
            index == next_index(self@.segments),
    {
        let mut next: u32 = 0;
        let mut at: usize = 0;
        let ghost facts = self@.segments;
        assert(facts.take(0) =~= Seq::<SegmentFacts>::empty());
        while at < self.segments.len()
            invariant
                facts == self@.segments,
                at <= self.segments@.len(),
                next == next_index(facts.take(at as int)),
            decreases self.segments.len() - at,
        {
            assert(facts.take(at + 1).drop_last() =~= facts.take(at as int));
            assert(facts.take(at + 1).last() == self.segments@[at as int]@);
            let after: u32 = self.segments[at].index.saturating_add(1);
            if after > next {
                next = after;
            }
            at += 1;
        }
        assert(facts.take(at as int) =~= facts);
        next
    }

    /// The same entries once more.
    pub(crate) fn copied_segments(&self) -> (copy: Vec<RecordingSegmentMetadata>)
        ensures
            segment_facts(copy@) == self@.segments,
    {
        let mut copy: Vec<RecordingSegmentMetadata> = Vec::new();
        let mut at: usize = 0;
        while at < self.segments.len()
            invariant
                at <= self.segments@.len(),
                segment_facts(copy@) =~= self@.segments.take(at as int),
            decreases self.segments.len() - at,
        {
            let segment = self.segments[at].copied();
            proof {
                lemma_facts_push(copy@, segment);
            }
            copy.push(segment);
            at += 1;
        }
        assert(self@.segments.take(at as int) =~= self@.segments);
        copy
    }
}

/// What merging the files of a session came to.
#[derive(Debug)]
pub struct MergeReport {
    pub totals: RecordingTotals,
    pub imported_rows: u64,
    pub session_id: Option<String>,
}

impl View for MergeReport {
    type V = MergeFacts;

    open spec fn view(&self) -> MergeFacts {
        MergeFacts {
            totals: self.totals,
            imported_rows: self.imported_rows,
            session_id: text_of(self.session_id),
        }
    }
}

/// The characters of a text that may be missing.
pub open spec fn text_of(text: Option<String>) -> Option<Seq<char>> {
    match text {
        Some(text) => Some(text@),
        None => None,
    }
}

/// What is known of a recorder that may be missing.
pub open spec fn recorder_of(recorder: Option<Recorder>) -> Option<RecorderView> {
    match recorder {
        Some(recorder) => Some(recorder@),
        None => None,
    }
}

/// What is known of a session that may be missing.
pub open spec fn facts_of(metadata: Option<RecordingSessionMetadataV1>) -> Option<SessionFacts> {
    match metadata {
        Some(metadata) => Some(metadata@),
        None => None,
    }
}

/// What is known of the files of a session that may be missing.
pub open spec fn ledger_of(ledger: Option<SessionLedger>) -> Option<LedgerFacts> {
    match ledger {
        Some(ledger) => Some(ledger@),
        None => None,
    }
}

/// What is known of the files that are being finished.
#[verifier::opaque]
pub open spec fn finalizing_of(segments: Seq<FinalizingSegment>) -> Seq<FinalizingFacts> {
    segments.map_values(|segment: FinalizingSegment| segment@)
}

/// One more file that is being finished.
pub(crate) proof fn lemma_finalizing_push(
    segments: Seq<FinalizingSegment>,
    segment: FinalizingSegment,
)
    ensures
        finalizing_of(segments.push(segment)) == finalizing_of(segments).push(segment@),
{
    reveal(finalizing_of);
    assert(finalizing_of(segments.push(segment)) =~= finalizing_of(segments).push(segment@));
}

/// How many files are being finished.
pub(crate) proof fn lemma_finalizing_len(segments: Seq<FinalizingSegment>)
    ensures
        finalizing_of(segments).len() == segments.len(),
        forall|i: int| 0 <= i < segments.len() ==> #[trigger] finalizing_of(segments)[i] == segments[i]@,
{
    reveal(finalizing_of);
}

/// What is known of a finished file.
pub open spec fn summary_facts(summary: RecordingSummary) -> SummaryFacts {
    SummaryFacts { path: summary.path@, totals: summary.totals }
}

/// What is known of a finished file that may be missing.
pub open spec fn summary_of(summary: Option<RecordingSummary>) -> Option<SummaryFacts> {
    match summary {
        Some(summary) => Some(summary_facts(summary)),
        None => None,
    }
}

/// What is known of the end of a writer.
pub open spec fn event_facts(event: RecordingEvent) -> EventFacts {
    match event {
        RecordingEvent::Finished(summary) => EventFacts::Finished(summary_facts(summary)),
        RecordingEvent::Interrupted(summary, reason) => EventFacts::Interrupted(
            summary_facts(summary),
            reason@,
        ),
        RecordingEvent::Failed(error) => EventFacts::Failed(error@),
    }
}

/// What is known of the ends of several writers.
pub open spec fn events_facts(events: Seq<Option<RecordingEvent>>) -> Seq<Option<EventFacts>> {
    events.map_values(
        |event: Option<RecordingEvent>|
            match event {
                Some(event) => Some(event_facts(event)),
                None => None,
            },
    )
}

/// What is known of a reply.
pub open spec fn reply_of(reply: Result<String, String>) -> Result<Seq<char>, Seq<char>> {
    match reply {
        Ok(text) => Ok(text@),
        Err(error) => Err(error@),
    }
}

/// The recording controls.
#[derive(Debug)]
pub struct RecordingControl {
    pub core: SessionCore,
    pub stage: Stage,
    pub status: String,
    pub fault: Option<String>,
    pub recorder: Option<Recorder>,
    pub finalizing: Vec<FinalizingSegment>,
    pub directory: Option<String>,
    pub ledger: Option<SessionLedger>,
    pub metadata: Option<RecordingSessionMetadataV1>,
    pub draft: Option<RecordingSessionMetadataV1>,
    pub last_recording: Option<RecordingSummary>,
    pub last_metadata: Option<RecordingSessionMetadataV1>,
    pub destination: Option<String>,
    pub staged: Option<RecordingSummary>,
    pub pauses: Vec<PauseInterval>,
    pub outgoing: Vec<MeasurementSample>,
    pub rule: AutoCaptureRule,
    pub format: RecordingFormat,
    pub sleep_protection: bool,
    pub begun: bool,
}

impl View for RecordingControl {
    type V = ControlView;

    open spec fn view(&self) -> ControlView {
        ControlView {
            core: self.core,
            stage: self.stage,
            status: self.status@,
            fault: text_of(self.fault),
            recorder: recorder_of(self.recorder),
            finalizing: finalizing_of(self.finalizing@),
            directory: text_of(self.directory),
            ledger: ledger_of(self.ledger),
            facts: facts_of(self.metadata),
            draft: facts_of(self.draft),
            last_recording: summary_of(self.last_recording),
            last_facts: facts_of(self.last_metadata),
            destination: text_of(self.destination),
            staged: summary_of(self.staged),
            pauses: self.pauses@,
            outgoing: self.outgoing@,
            rule: self.rule,
            format: self.format,
            sleep_protection: self.sleep_protection,
            begun: self.begun,
        }
    }
}

impl RecordingControl {
    /// No session was ever recorded.
    pub fn new() -> (control: RecordingControl)
        ensures
            control@.well_formed(),
            control@.at_rest(),
            control@.core == SessionCore::idle(),
            control@.status == "尚未录制"@,
            control@.recorder is None,
            control@.finalizing.len() == 0,
            control@.directory is None,
            control@.ledger is None,
            control@.facts is None,
            control@.draft is None,
            control@.last_recording is None,
            control@.last_facts is None,
            control@.destination is None,
            control@.staged is None,
            control@.pauses.len() == 0,
            control@.outgoing.len() == 0,
            control@.fault is None,
            !control@.begun,
            control@.format == RecordingFormat::Parquet,
            control@.sleep_protection,
            control@.rule == (AutoCaptureRule {
                enabled: false,
                metric: crate::options::AutoCaptureMetric::Power,
                threshold_milli: 100,
                sustain_ms: 3_000,
            }),
    {
        proof {
            lemma_finalizing_len(Seq::empty());
        }
        RecordingControl {
            core: SessionCore::new(),
            stage: Stage::Rest,
            status: "尚未录制".to_owned(),
            fault: None,
            recorder: None,
            finalizing: Vec::new(),
            directory: None,
            ledger: None,
            metadata: None,
            draft: None,
            last_recording: None,
            last_metadata: None,
            destination: None,
            staged: None,
            pauses: Vec::new(),
            outgoing: Vec::new(),
            rule: AutoCaptureRule::default(),
            format: RecordingFormat::Parquet,
            sleep_protection: true,
            begun: false,
        }
    }

    /// Whether samples are being written.
    pub fn is_writing(&self) -> (writing: bool)
        ensures
            writing == self@.writing(),
    {
        self.recorder.is_some()
    }

    /// Interrupts the session and shows `error`.
    pub(crate) fn fail(&mut self, error: String)
        ensures
            final(self)@ == old(self)@.fails(error@),
    {
        self.core.phase = RecordingPhase::Interrupted;
        self.status = error;
        self.stage = Stage::Rest;
    }

    /// Takes over what was recorded.
    pub(crate) fn measure(&mut self, totals: RecordingTotals, ctx: Context)
        requires
            old(self)@.facts matches Some(facts) ==> facts.valid(),
            ctx.valid(),
        ensures
            final(self)@ == old(self)@.measured(totals, ctx),
            final(self)@.facts matches Some(facts) ==> facts.valid(),
            *final(self) == (RecordingControl { metadata: final(self).metadata, ..*old(self) }),
    {
        proof {
            reveal(ControlView::measured);
        }
        if let Some(metadata) = &mut self.metadata {
            metadata.update_from_totals(totals);
            metadata.refresh_durations(ctx.utc);
        }
        assert(self@ =~= old(self)@.measured(totals, ctx));
    }

    /// Puts the ledger into another state.
    pub(crate) fn mark_ledger(&mut self, state: SessionState)
        ensures
            final(self)@ == old(self)@.ledger_in(state),
            *final(self) == (RecordingControl { ledger: final(self).ledger, ..*old(self) }),
            final(self).ledger is Some == old(self).ledger is Some,
    {
        proof {
            reveal(ControlView::ledger_in);
        }
        if let Some(ledger) = &mut self.ledger {
            ledger.state = state;
        }
        assert(self@ =~= old(self)@.ledger_in(state));
    }

    /// Notes the end of a file in the ledger.
    pub(crate) fn bound_ledger(&mut self, index: u32, totals: RecordingTotals, sealed: bool)
        ensures
            final(self)@ == old(self)@.ledger_bounded(index, totals, sealed),
            *final(self) == (RecordingControl { ledger: final(self).ledger, ..*old(self) }),
            final(self).ledger is Some == old(self).ledger is Some,
    {
        proof {
            reveal(ControlView::ledger_bounded);
        }
        if let Some(ledger) = &mut self.ledger {
            ledger.bound(index, totals, sealed);
        }
        assert(self@ =~= old(self)@.ledger_bounded(index, totals, sealed));
    }
}

} // verus!
