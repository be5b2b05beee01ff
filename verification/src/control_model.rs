//! What recording controls do, as a state machine: a request or a reply leads
//! to the next state, and the state says what is awaited from outside.
use vstd::prelude::*;

use crate::chart::{larger, smaller};
use crate::i18n::Language;
use crate::measurement::MeasurementSample;
use crate::options::{AutoCaptureRule, PauseReason, RecordingPhase};
use crate::recording::{
    excess, in_counter, RecorderView, RecordingFormat, RecordingOffsets, RecordingTotals,
};
use crate::recording_session::{IntervalReason, SegmentFacts, SessionFacts, SessionState};
use crate::session_core::{AutoWatch, Context, SessionCore};
use crate::session_text::{
    auto_paused_text, auto_resumed_text, cut_short_text, paused_text, row_mismatch_text, said,
    save_failed_text, saved_text, segment_name, writer_fault_text, written_text,
};
use crate::statistics::PauseInterval;

verus! {

/// Rows after which a new file of the session begins.
pub const SEGMENT_ROWS: u64 = 32_768;

/// Recorded time after which a new file of the session begins.
pub const SEGMENT_US: u64 = 30_000_000;

/// What follows a pause.
#[derive(Debug, Clone, Copy, PartialEq, Eq, Structural)]
pub enum PauseFollowUp {
    Plain,
    Automatic,
    Disconnected,
}

/// What follows when a session goes on.
#[derive(Debug, Clone, Copy, PartialEq, Eq, Structural)]
pub enum ResumeFollowUp {
    Plain,
    Automatic,
    Reconnected,
}

/// Why the current file of a session is closed.
#[derive(Debug, Clone, Copy, PartialEq, Eq, Structural)]
pub enum SealPurpose {
    Pause(PauseFollowUp),
    Interrupt,
    Rotate,
    Stop,
}

/// Why a new file of a session is begun.
#[derive(Debug, Clone, Copy, PartialEq, Eq, Structural)]
pub enum StartPurpose {
    New,
    Resume(ResumeFollowUp),
    Rotate,
}

/// Why the manifest of a session is written.
#[derive(Debug, Clone, Copy, PartialEq, Eq, Structural)]
pub enum PersistPurpose {
    Sealed(SealPurpose),
    Started(StartPurpose),
    Resumed(ResumeFollowUp),
    Destination,
    Segments,
    Failure,
    Loaded,
}

/// What a session waits for.
#[derive(Debug, Clone, Copy, PartialEq, Eq, Structural)]
pub enum Stage {
    /// Nothing.
    Rest,
    /// The writer takes the rows; afterwards the session may pause by itself.
    Sending(bool),
    /// The writer is told to finish.
    Finishing(SealPurpose),
    /// The manifest is written.
    Persisting(PersistPurpose),
    /// The storage of a new session is made.
    Creating,
    /// A writer is started.
    Starting(StartPurpose),
    /// Idle sleep is held off.
    Sleeping(StartPurpose),
    /// The files of the session are merged and read back.
    Merging,
    /// The file of a session without a ledger is copied to its destination.
    Staging,
    /// The metadata of that file are written and read back.
    Annotating,
}

/// The files of a session that is being recorded.
#[verifier::ext_equal]
pub ghost struct LedgerFacts {
    pub state: SessionState,
    pub format: RecordingFormat,
    pub segments: Seq<SegmentFacts>,
}

/// A file that its writer is finishing.
pub ghost struct FinalizingFacts {
    pub index: u32,
    pub recorder: RecorderView,
}

/// A finished file.
pub ghost struct SummaryFacts {
    pub path: Seq<char>,
    pub totals: RecordingTotals,
}

/// How a writer ended.
pub ghost enum EventFacts {
    Finished(SummaryFacts),
    Interrupted(SummaryFacts, Seq<char>),
    Failed(Seq<char>),
}

/// What merging the files of a session came to.
pub ghost struct MergeFacts {
    /// What the merged file amounts to.
    pub totals: RecordingTotals,
    /// How many samples were read back from it.
    pub imported_rows: u64,
    /// The session that its metadata name.
    pub session_id: Option<Seq<char>>,
}

/// The position of the entry of file number `index`, and -1 where there is
/// none.
pub open spec fn segment_position(segments: Seq<SegmentFacts>, index: u32) -> int
    decreases segments.len(),
{
    if segments.len() == 0 {
        -1
    } else {
        let before = segment_position(segments.drop_last(), index);
        if before >= 0 {
            before
        } else if segments.last().index == index {
            segments.len() - 1
        } else {
            -1
        }
    }
}

/// The entries with the end of file number `index` noted.
pub open spec fn bounded(
    segments: Seq<SegmentFacts>,
    index: u32,
    totals: RecordingTotals,
    sealed: bool,
) -> Seq<SegmentFacts> {
    let at = segment_position(segments, index);
    if at < 0 {
        segments
    } else {
        segments.update(
            at,
            SegmentFacts {
                end_row: totals.rows,
                end_elapsed_us: totals.elapsed_us,
                sealed: segments[at].sealed || sealed,
                ..segments[at]
            },
        )
    }
}

/// One more than `index`, as far as there is more.
pub open spec fn after_index(index: u32) -> u32 {
    smaller(index + 1, u32::MAX as int) as u32
}

/// One less than `index`, as far as there is less.
pub open spec fn before_index(index: u32) -> u32 {
    larger(index - 1, 0) as u32
}

/// The number of the next file, given the earlier ones.
pub open spec fn next_index(segments: Seq<SegmentFacts>) -> u32
    decreases segments.len(),
{
    if segments.len() == 0 {
        0
    } else {
        larger(
            next_index(segments.drop_last()) as int,
            after_index(segments.last().index) as int,
        ) as u32
    }
}

/// What a session carries on from after `last`.
pub open spec fn offsets_after(last: MeasurementSample) -> RecordingOffsets {
    RecordingOffsets {
        elapsed_us: last.elapsed_us,
        sample_index: in_counter(last.sample_index + 1),
        charge: last.charge,
        energy: last.energy,
        charge_throughput: last.charge_throughput,
        energy_throughput: last.energy_throughput,
        cumulative_missing_samples: last.cumulative_missing_samples,
        cumulative_interpolated_duration_us: last.cumulative_interpolated_duration_us,
        cumulative_discarded_sequence_samples: last.cumulative_discarded_sequence_samples,
    }
}

/// The state of the recording controls.
pub ghost struct ControlView {
    pub core: SessionCore,
    pub stage: Stage,
    pub status: Seq<char>,
    /// What went wrong, until the operation that reports it is through.
    pub fault: Option<Seq<char>>,
    pub recorder: Option<RecorderView>,
    pub finalizing: Seq<FinalizingFacts>,
    pub directory: Option<Seq<char>>,
    pub ledger: Option<LedgerFacts>,
    pub facts: Option<SessionFacts>,
    /// The metadata of a session whose storage is being made.
    pub draft: Option<SessionFacts>,
    pub last_recording: Option<SummaryFacts>,
    pub last_facts: Option<SessionFacts>,
    pub destination: Option<Seq<char>>,
    /// A finished file that is being copied to its destination.
    pub staged: Option<SummaryFacts>,
    pub pauses: Seq<PauseInterval>,
    /// The samples whose rows the writer is taking.
    pub outgoing: Seq<MeasurementSample>,
    pub rule: AutoCaptureRule,
    pub format: RecordingFormat,
    pub sleep_protection: bool,
    /// Whether a session began since this was last asked.
    pub begun: bool,
}

impl ControlView {
    /// Whether samples are being written.
    pub open spec fn writing(self) -> bool {
        self.recorder is Some
    }

    /// What holds of the controls whatever they wait for.
    pub open spec fn sound(self) -> bool {
        &&& self.core.well_formed()
        &&& self.facts matches Some(facts) ==> facts.valid()
        &&& self.draft matches Some(facts) ==> facts.valid()
    }

    /// What holds of the controls at all times.
    pub open spec fn well_formed(self) -> bool {
        &&& self.sound()
        &&& self.stage matches Stage::Finishing(_) ==> self.recorder is Some
        &&& self.stage matches Stage::Sending(_) ==> self.recorder is Some
            && self.outgoing.len() > 0 && self.recorder->0.totals.rows + self.outgoing.len()
            <= u64::MAX
        &&& self.stage == Stage::Creating ==> self.draft is Some
        &&& self.stage matches Stage::Starting(_) ==> self.directory is Some
            && self.ledger is Some
        &&& self.stage == Stage::Merging ==> self.can_merge()
        &&& self.stage == Stage::Staging ==> self.staged is Some && self.destination is Some
        &&& self.stage == Stage::Annotating ==> self.staged is Some && self.last_recording is Some
            && self.facts is Some
    }

    /// Whether nothing is awaited.
    pub open spec fn at_rest(self) -> bool {
        self.stage == Stage::Rest
    }

    /// Whether the writer can be asked to take `count` more rows.
    pub open spec fn has_room(self, count: nat) -> bool {
        self.recorder matches Some(recorder) ==> recorder.totals.rows + count <= u64::MAX
    }

    /// The controls, showing `status`.
    pub open spec fn says(self, status: Seq<char>) -> ControlView {
        ControlView { status, ..self }
    }

    /// The controls in another phase.
    pub open spec fn enters(self, phase: RecordingPhase) -> ControlView {
        ControlView { core: SessionCore { phase, ..self.core }, ..self }
    }

    /// The serial number of the device that the session waits for, if it does.
    pub open spec fn awaited_serial(self) -> Option<Seq<char>> {
        if self.core.phase == RecordingPhase::WaitingForReconnect {
            match self.facts {
                Some(facts) => Some(facts.device.serial),
                None => Some(""@),
            }
        } else {
            None
        }
    }

    /// The controls, waiting for something.
    pub open spec fn awaits(self, stage: Stage) -> ControlView {
        ControlView { stage, ..self }
    }

    /// The controls, interrupted with `error` on display.
    pub open spec fn fails(self, error: Seq<char>) -> ControlView {
        self.enters(RecordingPhase::Interrupted).says(error).awaits(Stage::Rest)
    }

    /// The session's metadata with what was recorded.
    #[verifier::opaque]
    pub open spec fn measured(self, totals: RecordingTotals, ctx: Context) -> ControlView {
        ControlView {
            facts: match self.facts {
                Some(facts) => Some(facts.with_totals(totals).with_durations(ctx.utc)),
                None => None,
            },
            ..self
        }
    }

    /// The ledger in another state.
    #[verifier::opaque]
    pub open spec fn ledger_in(self, state: SessionState) -> ControlView {
        ControlView {
            ledger: match self.ledger {
                Some(ledger) => Some(LedgerFacts { state, ..ledger }),
                None => None,
            },
            ..self
        }
    }

    /// The ledger with the end of a file noted.
    #[verifier::opaque]
    pub open spec fn ledger_bounded(
        self,
        index: u32,
        totals: RecordingTotals,
        sealed: bool,
    ) -> ControlView {
        ControlView {
            ledger: match self.ledger {
                Some(ledger) => Some(
                    LedgerFacts {
                        segments: bounded(ledger.segments, index, totals, sealed),
                        ..ledger
                    },
                ),
                None => None,
            },
            ..self
        }
    }

    // -- Closing the current file --

    /// The state in which a session is left when its file is closed.
    pub open spec fn sealed_state(self, purpose: SealPurpose) -> SessionState {
        match purpose {
            SealPurpose::Pause(_) => if self.core.pause_reason == Some(
                PauseReason::UsbDisconnected,
            ) {
                SessionState::WaitingForReconnect
            } else {
                SessionState::Paused
            },
            SealPurpose::Interrupt => SessionState::Interrupted,
            SealPurpose::Rotate => SessionState::Recording,
            SealPurpose::Stop => SessionState::Interrupted,
        }
    }

    /// The current file is to be closed.
    #[verifier::opaque]
    pub open spec fn sealing(self, purpose: SealPurpose, ctx: Context) -> ControlView {
        match self.recorder {
            Some(recorder) => if recorder.finishing {
                self.sealed(purpose, ctx)
            } else {
                self.awaits(Stage::Finishing(purpose))
            },
            None => self.ledger_in(self.sealed_state(purpose)).awaits(
                Stage::Persisting(PersistPurpose::Sealed(purpose)),
            ),
        }
    }

    /// The writer was told to finish the current file.
    #[verifier::opaque]
    pub open spec fn sealed(self, purpose: SealPurpose, ctx: Context) -> ControlView {
        let recorder = self.recorder->0;
        let index = before_index(self.core.next_segment_index);
        let released = self.released();
        ControlView {
            finalizing: self.finalizing.push(
                FinalizingFacts {
                    index,
                    recorder: RecorderView { finishing: true, ..recorder },
                },
            ),
            ..released.measured(recorder.totals, ctx).ledger_in(
                self.sealed_state(purpose),
            ).ledger_bounded(index, recorder.totals, false).awaits(
                Stage::Persisting(PersistPurpose::Sealed(purpose)),
            )
        }
    }

    /// The current file is no longer written; a next one carries on from it.
    #[verifier::opaque]
    pub open spec fn released(self) -> ControlView {
        ControlView {
            recorder: None,
            core: SessionCore {
                continuation: self.recorder->0.totals.as_offsets(),
                ..self.core
            },
            ..self
        }
    }

    /// What follows once the current file is closed, or could not be.
    #[verifier::opaque]
    pub open spec fn after_seal(
        self,
        purpose: SealPurpose,
        error: Option<Seq<char>>,
        ctx: Context,
    ) -> ControlView {
        match purpose {
            SealPurpose::Pause(follow) => self.after_pause(error, ctx).paused_further(follow, ctx),
            SealPurpose::Interrupt => self.after_interruption(error, ctx),
            SealPurpose::Rotate => match error {
                Some(error) => self.fails(error),
                None => self.starting(StartPurpose::Rotate, ctx),
            },
            SealPurpose::Stop => self.after_stop(error, ctx),
        }
    }

    /// The file of a paused session is closed, or could not be.
    #[verifier::opaque]
    pub open spec fn after_pause(self, error: Option<Seq<char>>, ctx: Context) -> ControlView {
        match error {
            Some(error) => self.fails(error),
            None => self.says(
                paused_text(
                    self.core.elapsed(ctx.now_us, ctx.rate, self.writing()),
                    self.core.tallies.energy.total,
                ),
            ).awaits(Stage::Rest),
        }
    }

    /// The file of an interrupted session is closed, or could not be.
    #[verifier::opaque]
    pub open spec fn after_interruption(
        self,
        error: Option<Seq<char>>,
        ctx: Context,
    ) -> ControlView {
        let fault = match self.fault {
            Some(fault) => fault,
            None => ""@,
        };
        ControlView {
            fault: None,
            ..self.says(writer_fault_text(ctx.language, fault, error)).awaits(Stage::Rest)
        }
    }

    /// The file of a stopped session is closed, or could not be.
    #[verifier::opaque]
    pub open spec fn after_stop(self, error: Option<Seq<char>>, ctx: Context) -> ControlView {
        let status = match error {
            Some(error) => error,
            None => ctx.language.chosen(
                "录制已安全封口并保留在恢复列表"@,
                "Recording safely sealed and retained in the recovery list"@,
            ),
        };
        ControlView {
            core: SessionCore {
                phase: RecordingPhase::Interrupted,
                sleep_held: false,
                ..self.core
            },
            ..self.says(status).awaits(Stage::Rest)
        }
    }

    /// What follows a pause.
    #[verifier::opaque]
    pub open spec fn paused_further(self, follow: PauseFollowUp, ctx: Context) -> ControlView {
        match follow {
            PauseFollowUp::Plain => self,
            PauseFollowUp::Automatic => self.says(auto_paused_text(ctx.language, self.rule)),
            PauseFollowUp::Disconnected => self.enters(RecordingPhase::WaitingForReconnect).says(
                ctx.language.chosen(
                    "USB 已中断 · 保留当前录制并等待原设备重连"@,
                    "USB interrupted · Recording retained while waiting for the original device"@,
                ),
            ),
        }
    }

    // -- Pausing --

    /// A pause is asked for.
    #[verifier::opaque]
    pub open spec fn pause(
        self,
        reason: PauseReason,
        follow: PauseFollowUp,
        ctx: Context,
    ) -> ControlView {
        if !self.core.session || self.core.paused {
            self.paused_further(follow, ctx)
        } else {
            let stopped = ControlView {
                facts: match self.facts {
                    Some(facts) => Some(
                        facts.stopped(reason.recorded(), ctx.utc).with_durations(ctx.utc),
                    ),
                    None => None,
                },
                core: self.core.paused_for(reason, ctx, self.writing()),
                ..self
            };
            stopped.sealing(SealPurpose::Pause(follow), ctx)
        }
    }

    /// The writer failed with `error`.
    #[verifier::opaque]
    pub open spec fn interrupt(self, error: Seq<char>, ctx: Context) -> ControlView {
        let held = ControlView {
            core: SessionCore {
                phase: RecordingPhase::Interrupted,
                ..self.core.held(ctx, self.writing())
            },
            fault: Some(error),
            ..self
        };
        held.sealing(SealPurpose::Interrupt, ctx)
    }

    // -- Beginning a file --

    /// What the next file carries on from.
    pub open spec fn next_offsets(self, purpose: StartPurpose) -> RecordingOffsets {
        if purpose == StartPurpose::New {
            RecordingOffsets::none()
        } else {
            self.core.continuation
        }
    }

    /// A new file is to be begun.
    #[verifier::opaque]
    pub open spec fn starting(self, purpose: StartPurpose, ctx: Context) -> ControlView {
        if self.writing() {
            self.after_start(purpose, None, ctx)
        } else if self.directory is None {
            self.after_start(purpose, Some("录制会话目录不存在"@), ctx)
        } else if self.ledger is None {
            self.after_start(purpose, Some("录制会话清单不存在"@), ctx)
        } else {
            self.awaits(Stage::Starting(purpose))
        }
    }

    /// A writer of a new file was started at `path`.
    #[verifier::opaque]
    pub open spec fn started(
        self,
        purpose: StartPurpose,
        path: Seq<char>,
        ctx: Context,
    ) -> ControlView {
        let offsets = self.next_offsets(purpose);
        let index = self.core.next_segment_index;
        let ledger = self.ledger->0;
        ControlView {
            core: SessionCore {
                segment_start: offsets,
                continuation: offsets,
                next_segment_index: after_index(index),
                ..self.core
            },
            ledger: Some(
                LedgerFacts {
                    segments: ledger.segments.push(
                        SegmentFacts {
                            index,
                            file_name: segment_name(index, ledger.format),
                            start_row: offsets.sample_index,
                            end_row: offsets.sample_index,
                            start_elapsed_us: offsets.elapsed_us,
                            end_elapsed_us: offsets.elapsed_us,
                            sealed: false,
                        },
                    ),
                    ..ledger
                },
            ),
            recorder: Some(RecorderView::started(path, ctx.latest, offsets)),
            ..self.awaits(Stage::Persisting(PersistPurpose::Started(purpose)))
        }
    }

    /// What follows once a new file was begun, or could not be.
    #[verifier::opaque]
    pub open spec fn after_start(
        self,
        purpose: StartPurpose,
        error: Option<Seq<char>>,
        ctx: Context,
    ) -> ControlView {
        match (purpose, error) {
            (StartPurpose::New, Some(error)) => self.fails(error),
            (StartPurpose::New, None) => self.begins(ctx),
            (StartPurpose::Rotate, Some(error)) => self.stalls(error, ctx),
            (StartPurpose::Rotate, None) => self.awaits(Stage::Rest),
            (StartPurpose::Resume(follow), Some(error)) => self.fails(error).resumed_further(
                follow,
                ctx,
            ),
            (StartPurpose::Resume(follow), None) => if self.sleep_protection
                && !self.core.sleep_held {
                self.awaits(Stage::Sleeping(purpose))
            } else {
                self.resumes(follow, ctx)
            },
        }
    }

    // -- Going on --

    /// Whether the session can go on.
    pub open spec fn can_resume(self, streaming: bool) -> bool {
        &&& self.core.session
        &&& self.core.paused
        &&& streaming
        &&& self.recorder matches Some(recorder) ==> !recorder.finishing
    }

    /// The session is to go on.
    #[verifier::opaque]
    pub open spec fn resume(
        self,
        streaming: bool,
        follow: ResumeFollowUp,
        ctx: Context,
    ) -> ControlView {
        if !self.can_resume(streaming) {
            self.resumed_further(follow, ctx)
        } else {
            let carried = ControlView {
                facts: match self.facts {
                    Some(facts) => Some(
                        facts.continued(
                            self.core.pause_reason == Some(PauseReason::UsbDisconnected),
                            ctx.utc,
                        ).with_durations(ctx.utc),
                    ),
                    None => None,
                },
                ..self
            };
            carried.starting(StartPurpose::Resume(follow), ctx)
        }
    }

    /// The session goes on from the newest sample.
    #[verifier::opaque]
    pub open spec fn resumes(self, follow: ResumeFollowUp, ctx: Context) -> ControlView {
        ControlView {
            pauses: match (self.core.active_pause_us, self.core.plotted(ctx.latest)) {
                (Some(start_us), Some(end_us)) => if end_us >= start_us {
                    self.pauses.push(PauseInterval { start_us, end_us })
                } else {
                    self.pauses
                },
                _ => self.pauses,
            },
            core: self.core.resumed(ctx),
            ..self.ledger_in(SessionState::Recording).awaits(
                Stage::Persisting(PersistPurpose::Resumed(follow)),
            )
        }
    }

    /// What follows once the session goes on, or its manifest could not be
    /// written.
    #[verifier::opaque]
    pub open spec fn after_resume(
        self,
        follow: ResumeFollowUp,
        error: Option<Seq<char>>,
        ctx: Context,
    ) -> ControlView {
        match error {
            Some(error) => ControlView { fault: None, ..self.stalls(error, ctx) },
            None => self.records_again(ctx),
        }.resumed_further(follow, ctx)
    }

    /// The controls, interrupted with `error` on display and their clock
    /// stopped.
    #[verifier::opaque]
    pub open spec fn stalls(self, error: Seq<char>, ctx: Context) -> ControlView {
        let failed = self.fails(error);
        ControlView { core: failed.core.frozen(ctx, self.writing()), ..failed }
    }

    /// The session is recorded again.
    #[verifier::opaque]
    pub open spec fn records_again(self, ctx: Context) -> ControlView {
        let status = match self.fault {
            Some(warning) => warning,
            None => ctx.language.chosen("录制中 · 已继续采集"@, "Recording · Capture resumed"@),
        };
        ControlView {
            core: SessionCore { below_since_us: None, above_since_us: None, ..self.core },
            fault: None,
            ..self.says(status).awaits(Stage::Rest)
        }
    }

    /// What is said when a session goes on by itself or after its device came
    /// back.
    #[verifier::opaque]
    pub open spec fn resumed_further(self, follow: ResumeFollowUp, ctx: Context) -> ControlView {
        match follow {
            ResumeFollowUp::Plain => self,
            ResumeFollowUp::Automatic => self.says(auto_resumed_text(ctx.language, self.rule)),
            ResumeFollowUp::Reconnected => self.says(
                ctx.language.chosen(
                    "USB 已重连 · 正在续录同一段记录"@,
                    "USB reconnected · Continuing the same recording"@,
                ),
            ),
        }
    }

    // -- A new session --

    /// A session of a device is to begin; `draft` is what its metadata would
    /// be.
    #[verifier::opaque]
    pub open spec fn start(self, draft: Option<SessionFacts>) -> ControlView {
        if draft is None {
            self.says("请先连接 KM003C，再开始录制"@)
        } else if self.writing() || self.core.session {
            self
        } else {
            ControlView { draft, ..self.awaits(Stage::Creating) }
        }
    }

    /// The storage of the new session was made in `directory`.
    #[verifier::opaque]
    pub open spec fn created(self, directory: Seq<char>, ctx: Context) -> ControlView {
        let made = ControlView {
            directory: Some(directory),
            ledger: Some(
                LedgerFacts {
                    state: SessionState::Recording,
                    format: self.format,
                    segments: Seq::empty(),
                },
            ),
            facts: self.draft,
            draft: None,
            core: SessionCore {
                segment_start: RecordingOffsets::none(),
                continuation: RecordingOffsets::none(),
                next_segment_index: 0,
                ..self.core
            },
            ..self
        };
        made.starting(StartPurpose::New, ctx)
    }

    /// The new session is recorded from the newest sample on.
    #[verifier::opaque]
    pub open spec fn begins(self, ctx: Context) -> ControlView {
        let begun = ControlView {
            core: self.core.begun(ctx),
            status: ctx.language.chosen(
                "记录中 · 已启用分段恢复，保存时再选择目标位置"@,
                "Recording · Segmented recovery is active; choose the destination when saving"@,
            ),
            last_recording: None,
            last_facts: None,
            destination: None,
            pauses: Seq::empty(),
            begun: true,
            ..self
        };
        if self.sleep_protection {
            begun.awaits(Stage::Sleeping(StartPurpose::New))
        } else {
            begun.awaits(Stage::Rest)
        }
    }

    /// Idle sleep is held off, or could not be.
    #[verifier::opaque]
    pub open spec fn after_sleep(
        self,
        purpose: StartPurpose,
        error: Option<Seq<char>>,
        ctx: Context,
    ) -> ControlView {
        match purpose {
            StartPurpose::Resume(follow) => self.guarded_again(error, ctx).resumes(follow, ctx),
            _ => self.guarded(error, ctx),
        }
    }

    /// Idle sleep is held off for a session that goes on, or could not be.
    #[verifier::opaque]
    pub open spec fn guarded_again(self, error: Option<Seq<char>>, ctx: Context) -> ControlView {
        match error {
            Some(error) => ControlView {
                fault: Some(
                    said(
                        ctx.language.chosen(
                            "已继续录制，但睡眠保护不可用"@,
                            "Recording resumed, but sleep protection is unavailable"@,
                        ),
                        " · "@,
                        error,
                    ),
                ),
                ..self
            },
            None => ControlView {
                core: SessionCore { sleep_held: true, ..self.core },
                fault: None,
                ..self
            },
        }
    }

    /// Idle sleep is held off for a new session, or could not be.
    #[verifier::opaque]
    pub open spec fn guarded(self, error: Option<Seq<char>>, ctx: Context) -> ControlView {
        let held = ControlView {
            core: SessionCore { sleep_held: error is None, ..self.core },
            ..self.awaits(Stage::Rest)
        };
        match error {
            Some(error) => held.says(
                said(
                    ctx.language.chosen(
                        "录制已开始，但睡眠保护不可用"@,
                        "Recording started, but sleep protection is unavailable"@,
                    ),
                    " · "@,
                    error,
                ),
            ),
            None => held,
        }
    }

    // -- Samples --

    /// The samples seen by the statistics and by the automatic rule.
    #[verifier::opaque]
    pub open spec fn observed(self, samples: Seq<MeasurementSample>) -> ControlView {
        let watch = AutoWatch::at(self.core).seen_all(self.core, self.rule, samples);
        ControlView {
            core: SessionCore {
                statistics: if self.core.session && !self.core.paused {
                    self.core.statistics.with_all(samples)
                } else {
                    self.core.statistics
                },
                below_since_us: watch.below_since_us,
                above_since_us: watch.above_since_us,
                ..self.core
            },
            ..self
        }
    }

    /// Samples arrived.
    #[verifier::opaque]
    pub open spec fn append(
        self,
        samples: Seq<MeasurementSample>,
        streaming: bool,
        ctx: Context,
    ) -> ControlView {
        let watch = AutoWatch::at(self.core).seen_all(self.core, self.rule, samples);
        let observed = self.observed(samples);
        if self.core.session && !self.core.paused {
            observed.tallied(samples).offered(samples, watch.pause, ctx)
        } else if watch.resume {
            observed.resume(streaming, ResumeFollowUp::Automatic, ctx)
        } else {
            observed
        }
    }

    /// The samples added up.
    #[verifier::opaque]
    pub open spec fn tallied(self, samples: Seq<MeasurementSample>) -> ControlView {
        if samples.len() > 0 {
            ControlView {
                core: SessionCore {
                    tallies: self.core.tallies.counted(samples.last()),
                    ..self.core
                },
                ..self
            }
        } else {
            self
        }
    }

    /// The samples offered to the writer; a session without one that takes
    /// them is interrupted.
    #[verifier::opaque]
    pub open spec fn offered(
        self,
        samples: Seq<MeasurementSample>,
        pause: bool,
        ctx: Context,
    ) -> ControlView {
        match self.recorder {
            Some(recorder) => if samples.len() == 0 {
                self.recorded(pause, ctx)
            } else if recorder.finishing {
                self.interrupt("recording writer is already finishing"@, ctx)
            } else {
                ControlView { outgoing: samples, ..self.awaits(Stage::Sending(pause)) }
            },
            None => self.interrupt(
                ctx.language.chosen(
                    "录制器不可用，实时数据仍在采集"@,
                    "Recording writer unavailable; live sampling is still active"@,
                ),
                ctx,
            ),
        }
    }

    /// The writer took the rows of the samples.
    #[verifier::opaque]
    pub open spec fn taken(self, pause: bool, ctx: Context) -> ControlView {
        let taken = ControlView {
            recorder: Some(self.recorder->0.after_rows(self.outgoing)),
            outgoing: Seq::empty(),
            ..self
        };
        taken.awaits(Stage::Rest).recorded(pause, ctx)
    }

    /// The writer is gone.
    #[verifier::opaque]
    pub open spec fn lost(self, ctx: Context) -> ControlView {
        let lost = ControlView {
            recorder: Some(
                RecorderView {
                    interrupted: Some("recording writer stopped unexpectedly"@),
                    ..self.recorder->0
                },
            ),
            outgoing: Seq::empty(),
            ..self
        };
        lost.awaits(Stage::Rest).interrupt("recording writer stopped unexpectedly"@, ctx)
    }

    /// The samples are in the hands of the writer.
    #[verifier::opaque]
    pub open spec fn recorded(self, pause: bool, ctx: Context) -> ControlView {
        let totals = self.recorder->0.totals;
        let synced = ControlView {
            core: self.core.synced(totals.elapsed_us, ctx.now_us),
            ..self.measured(totals, ctx)
        };
        if pause {
            synced.pause(
                PauseReason::Automatic(self.rule.metric),
                PauseFollowUp::Automatic,
                ctx,
            )
        } else {
            synced.rotate(ctx)
        }
    }

    /// Whether the current file is long enough.
    pub open spec fn file_is_full(self) -> bool {
        match self.recorder {
            Some(recorder) => {
                ||| excess(recorder.totals.rows, self.core.segment_start.sample_index)
                    >= SEGMENT_ROWS
                ||| excess(recorder.totals.elapsed_us, self.core.segment_start.elapsed_us)
                    >= SEGMENT_US
            },
            None => false,
        }
    }

    /// A new file begins where the current one is long enough.
    #[verifier::opaque]
    pub open spec fn rotate(self, ctx: Context) -> ControlView {
        if self.file_is_full() {
            self.sealing(SealPurpose::Rotate, ctx)
        } else {
            self
        }
    }

    // -- Stopping and saving --

    /// The recording is to stop; a session stays recoverable. `told` says
    /// whether a writer without a session could be told to finish.
    #[verifier::opaque]
    pub open spec fn stop(self, told: bool, ctx: Context) -> ControlView {
        if self.core.session {
            let frozen = ControlView {
                core: self.core.frozen(ctx, self.writing()),
                facts: match self.facts {
                    Some(facts) => Some(facts.ended(ctx.utc).with_durations(ctx.utc)),
                    None => None,
                },
                ..self
            };
            frozen.sealing(SealPurpose::Stop, ctx)
        } else {
            match self.recorder {
                Some(recorder) => if recorder.finishing || told {
                    ControlView {
                        recorder: Some(RecorderView { finishing: true, ..recorder }),
                        ..self.says(said("正在安全结束录制："@, ""@, recorder.path))
                    }
                } else {
                    self.fails("recording writer stopped unexpectedly"@)
                },
                None => self,
            }
        }
    }

    /// Whether the session can be saved.
    pub open spec fn can_save(self) -> bool {
        self.core.session && self.core.phase != RecordingPhase::Finalizing
    }

    /// The paused session is to be saved to `destination`, or not after all.
    #[verifier::opaque]
    pub open spec fn save(self, destination: Option<Seq<char>>, ctx: Context) -> ControlView {
        if !self.can_save() {
            self
        } else {
            match destination {
                None => self.says("已取消保存 · 临时录制仍保留，可继续记录或再次保存"@),
                Some(_) => ControlView {
                    destination,
                    facts: match self.facts {
                        Some(facts) => Some(facts.ended(ctx.utc).with_durations(ctx.utc)),
                        None => None,
                    },
                    ..self.ledger_in(SessionState::Finalizing).awaits(
                        Stage::Persisting(PersistPurpose::Destination),
                    )
                },
            }
        }
    }

    // -- Following the writers --

    /// What is wrong with a session that claims to be recorded.
    #[verifier::opaque]
    pub open spec fn inconsistency(self, language: Language) -> Option<Seq<char>> {
        if !(self.core.session && self.core.phase == RecordingPhase::Recording) {
            None
        } else if self.core.paused {
            Some(
                language.chosen(
                    "录制状态不一致：会话已暂停但界面仍显示录制中"@,
                    "Inconsistent recording state: the session is paused while the UI reports recording"@,
                ),
            )
        } else {
            match self.recorder {
                None => Some(
                    language.chosen(
                        "录制状态不一致：录制器已退出"@,
                        "Inconsistent recording state: the recording writer has exited"@,
                    ),
                ),
                Some(recorder) => if recorder.finishing {
                    Some(
                        language.chosen(
                            "录制状态不一致：录制器正在结束"@,
                            "Inconsistent recording state: the recording writer is finishing"@,
                        ),
                    )
                } else {
                    None
                },
            }
        }
    }

    /// The promise of the recording badge is checked: a session that claims to
    /// be recorded without a live writer is interrupted.
    #[verifier::opaque]
    pub open spec fn checked(self, ctx: Context) -> ControlView {
        match self.inconsistency(ctx.language) {
            Some(error) => self.interrupt(error, ctx),
            None => self,
        }
    }

    /// A writer that is finishing is followed up like the file of a sealed
    /// segment.
    #[verifier::opaque]
    pub open spec fn adopted(self, ctx: Context) -> ControlView {
        if self.ledger is Some && (self.recorder matches Some(recorder) && recorder.finishing) {
            let recorder = self.recorder->0;
            let index = before_index(self.core.next_segment_index);
            let adopted = ControlView {
                finalizing: self.finalizing.push(FinalizingFacts { index, recorder }),
                ..self.released().measured(recorder.totals, ctx).ledger_bounded(
                    index,
                    recorder.totals,
                    false,
                )
            };
            if self.core.session && (self.core.phase == RecordingPhase::Recording
                || self.core.phase == RecordingPhase::Paused) {
                ControlView {
                    core: adopted.core.frozen(ctx, false),
                    ..adopted
                }.enters(RecordingPhase::Interrupted).says(
                    ctx.language.chosen(
                        "已恢复异常录制状态 · 可点击继续记录"@,
                        "Recovered an interrupted writer state · Select Resume to continue"@,
                    ),
                )
            } else {
                adopted
            }
        } else {
            self
        }
    }

    /// The list without entry `at`, whose place the last entry takes.
    pub open spec fn without(self, at: int) -> Seq<FinalizingFacts> {
        self.finalizing.update(at, self.finalizing.last()).drop_last()
    }

    /// The writer of a closed file ended.
    #[verifier::opaque]
    pub open spec fn segment_ended(self, at: int, event: EventFacts, ctx: Context) -> ControlView {
        let index = self.finalizing[at].index;
        let followed = ControlView { finalizing: self.without(at), ..self };
        match event {
            EventFacts::Finished(summary) => followed.ledger_bounded(
                index,
                summary.totals,
                true,
            ).measured(summary.totals, ctx),
            EventFacts::Interrupted(summary, _) => followed.ledger_bounded(
                index,
                summary.totals,
                true,
            ).measured(summary.totals, ctx),
            EventFacts::Failed(error) => followed.ledger_in(SessionState::Interrupted).enters(
                RecordingPhase::Interrupted,
            ).says(
                said(
                    ctx.language.chosen(
                        "录制数据段封口失败"@,
                        "Failed to seal a recording segment"@,
                    ),
                    "："@,
                    error,
                ),
            ),
        }
    }

    /// The writers of the closed files were asked; the last one first.
    pub open spec fn segments_ended(
        self,
        events: Seq<Option<EventFacts>>,
        ctx: Context,
    ) -> ControlView
        decreases events.len(),
    {
        if events.len() == 0 {
            self
        } else {
            let next = match events.last() {
                Some(event) => self.segment_ended(events.len() - 1, event, ctx),
                None => self,
            };
            next.segments_ended(events.drop_last(), ctx)
        }
    }

    /// The writers of the closed files were asked, and the manifest is written
    /// where one of them had ended.
    #[verifier::opaque]
    pub open spec fn polled(self, events: Seq<Option<EventFacts>>, ctx: Context) -> ControlView {
        let ended = self.segments_ended(events, ctx);
        if exists|i: int| 0 <= i < events.len() && (#[trigger] events[i]) is Some {
            ended.awaits(Stage::Persisting(PersistPurpose::Segments))
        } else {
            ended
        }
    }

    /// Whether the files of the session can be merged.
    pub open spec fn can_merge(self) -> bool {
        &&& self.core.phase == RecordingPhase::Finalizing
        &&& self.recorder is None
        &&& self.finalizing.len() == 0
        &&& self.directory is Some
        &&& self.destination is Some
        &&& self.ledger is Some
        &&& self.facts is Some
    }

    /// The files of the session are merged once all of them are closed.
    #[verifier::opaque]
    pub open spec fn finalize(self) -> ControlView {
        if self.can_merge() {
            self.awaits(Stage::Merging)
        } else {
            self
        }
    }

    /// The metadata that are saved with the merged file.
    #[verifier::opaque]
    pub open spec fn final_facts(self, now: Context) -> SessionFacts {
        let facts = self.facts->0;
        let end = match facts.times.ended {
            Some(end) => end,
            None => now.utc,
        };
        let settled = facts.settled(end);
        settled.with_totals(settled.totals()).ended(end).with_durations(end).saved(
            now.utc,
        ).with_durations(now.utc)
    }

    /// Why a merged file is not what was recorded.
    #[verifier::opaque]
    pub open spec fn merge_error(self, merged: MergeFacts, ctx: Context) -> Option<Seq<char>> {
        let facts = self.final_facts(ctx);
        if merged.imported_rows != facts.rows {
            Some(row_mismatch_text(facts.rows, merged.imported_rows))
        } else if merged.session_id != Some(facts.session_id) {
            Some("合并校验失败：会话元数据未能重新读取"@)
        } else {
            None
        }
    }

    /// The files of the session were merged and read back.
    #[verifier::opaque]
    pub open spec fn merged(self, merged: MergeFacts, ctx: Context) -> ControlView {
        match self.merge_error(merged, ctx) {
            Some(error) => self.merge_failed(error, ctx),
            None => self.saved(merged.totals, ctx),
        }
    }

    /// The session was saved.
    #[verifier::opaque]
    pub open spec fn saved(self, totals: RecordingTotals, ctx: Context) -> ControlView {
        let facts = self.final_facts(ctx);
        let destination = self.destination->0;
        ControlView {
            core: SessionCore {
                phase: RecordingPhase::Saved,
                ..self.core.over(ctx, self.writing())
            },
            last_recording: Some(SummaryFacts { path: destination, totals }),
            last_facts: Some(facts),
            facts: None,
            destination: None,
            ledger: None,
            directory: None,
            ..self.says(
                saved_text(
                    ctx.language,
                    facts.times.started_text,
                    facts.times.ended_text,
                    totals.rows,
                    totals.measured(),
                    destination,
                ),
            ).awaits(Stage::Rest)
        }
    }

    /// The session could not be saved.
    #[verifier::opaque]
    pub open spec fn merge_failed(self, error: Seq<char>, ctx: Context) -> ControlView {
        self.ledger_in(SessionState::Interrupted).enters(RecordingPhase::Interrupted).says(
            save_failed_text(ctx.language, error, self.directory->0),
        ).awaits(Stage::Persisting(PersistPurpose::Failure))
    }

    /// The event to report where the writer of `recorder` ended: a writer that
    /// finished after it was lost was interrupted.
    pub open spec fn reported(recorder: RecorderView, event: EventFacts) -> EventFacts {
        match (event, recorder.interrupted) {
            (EventFacts::Finished(summary), Some(reason)) => EventFacts::Interrupted(
                summary,
                reason,
            ),
            _ => event,
        }
    }

    /// The writer of a file without a ledger ended.
    #[verifier::opaque]
    pub open spec fn file_ended(self, event: EventFacts, ctx: Context) -> ControlView {
        match self.recorder {
            None => self,
            Some(recorder) => match ControlView::reported(recorder, event) {
                EventFacts::Finished(summary) => if self.core.session && self.destination is Some {
                    ControlView { staged: Some(summary), ..self.awaits(Stage::Staging) }
                } else {
                    self.file_written(summary, ctx)
                },
                EventFacts::Interrupted(summary, reason) => ControlView {
                    last_recording: Some(summary),
                    ..self.enters(RecordingPhase::Interrupted).says(
                        cut_short_text(reason, summary.totals.rows, summary.path),
                    )
                }.session_over(ctx).without_writer(),
                EventFacts::Failed(error) => self.enters(RecordingPhase::Interrupted).says(
                    error,
                ).session_over(ctx).without_writer(),
            },
        }
    }

    /// No file is written any more.
    pub open spec fn without_writer(self) -> ControlView {
        ControlView { recorder: None, ..self }
    }

    /// A file was written completely.
    #[verifier::opaque]
    pub open spec fn file_written(self, summary: SummaryFacts, ctx: Context) -> ControlView {
        let written = ControlView {
            last_recording: Some(summary),
            ..self.says(
                written_text(summary.totals.rows, summary.path, summary.totals.measured()),
            )
        };
        if self.core.session {
            written.enters(RecordingPhase::Saved).session_over(ctx).without_writer()
        } else {
            written.without_writer()
        }
    }

    /// The finished file was copied to its destination, or could not be.
    #[verifier::opaque]
    pub open spec fn after_staging(self, error: Option<Seq<char>>, ctx: Context) -> ControlView {
        match error {
            Some(error) => self.unstaged(error, ctx),
            None => self.copied(ctx),
        }
    }

    /// The finished file stays where it is.
    #[verifier::opaque]
    pub open spec fn unstaged(self, error: Seq<char>, ctx: Context) -> ControlView {
        let staged = self.staged->0;
        ControlView {
            destination: None,
            last_recording: Some(staged),
            staged: None,
            ..self.fails(said(error, "；恢复文件仍保留在 "@, staged.path))
        }.session_over(ctx).without_writer()
    }

    /// The finished file is at its destination and is annotated.
    #[verifier::opaque]
    pub open spec fn copied(self, ctx: Context) -> ControlView {
        let summary = SummaryFacts { path: self.destination->0, ..self.staged->0 };
        match self.facts {
            Some(facts) => {
                let end = match facts.times.ended {
                    Some(end) => end,
                    None => ctx.utc,
                };
                ControlView {
                    destination: None,
                    last_recording: Some(summary),
                    facts: Some(
                        facts.continued(false, end).with_totals(summary.totals).ended(
                            end,
                        ).with_durations(end).saved(ctx.utc).with_durations(ctx.utc),
                    ),
                    ..self.awaits(Stage::Annotating)
                }
            },
            None => ControlView {
                destination: None,
                staged: None,
                ..self.awaits(Stage::Rest)
            }.file_written(summary, ctx),
        }
    }

    /// The metadata of the copied file were written, or could not be.
    #[verifier::opaque]
    pub open spec fn after_annotating(self, error: Option<Seq<char>>, ctx: Context) -> ControlView {
        let rested = ControlView { staged: None, ..self.awaits(Stage::Rest) };
        match error {
            Some(error) => rested.fails(
                said(
                    said("数据文件已写入，但元数据保存失败："@, ""@, error),
                    "；恢复文件仍保留在 "@,
                    self.staged->0.path,
                ),
            ).session_over(ctx).without_writer(),
            None => rested.file_written(self.last_recording->0, ctx),
        }
    }

    /// The session is over; its metadata stay on display.
    #[verifier::opaque]
    pub open spec fn session_over(self, ctx: Context) -> ControlView {
        ControlView {
            core: self.core.over(ctx, self.writing()),
            last_facts: match self.facts {
                Some(facts) => Some(facts),
                None => self.last_facts,
            },
            facts: None,
            ..self
        }
    }

    // -- An earlier session --

    /// Why an earlier session of device `serial` cannot go on.
    #[verifier::opaque]
    pub open spec fn load_refusal(
        self,
        connected: Option<Seq<char>>,
        serial: Seq<char>,
        language: Language,
    ) -> Option<Seq<char>> {
        if self.core.session {
            Some(language.chosen("请先保存当前录制"@, "Save the current recording first"@))
        } else {
            match connected {
                None => Some(
                    language.chosen(
                        "请先连接原 KM003C，再继续恢复录制"@,
                        "Connect the original KM003C before continuing"@,
                    ),
                ),
                Some(connected) => if serial.len() > 0 && serial != connected {
                    Some(
                        said(
                            language.chosen(
                                "设备序列号不匹配，需要原设备"@,
                                "Serial number mismatch; the original device is required"@,
                            ),
                            "："@,
                            serial,
                        ),
                    )
                } else {
                    None
                },
            }
        }
    }

    /// Whether an earlier session of device `serial` with `samples` is taken up
    /// while the device `connected` is there.
    pub open spec fn can_load(
        self,
        connected: Option<Seq<char>>,
        serial: Seq<char>,
        samples: Seq<MeasurementSample>,
        language: Language,
    ) -> bool {
        self.load_refusal(connected, serial, language) is None && samples.len() > 0
    }

    /// An earlier session was read while the device `connected` was there: it
    /// is refused, or taken up where it has samples.
    #[verifier::opaque]
    pub open spec fn load(
        self,
        connected: Option<Seq<char>>,
        directory: Seq<char>,
        ledger: LedgerFacts,
        facts: SessionFacts,
        samples: Seq<MeasurementSample>,
        ctx: Context,
    ) -> ControlView {
        match self.load_refusal(connected, facts.device.serial, ctx.language) {
            Some(refusal) => self.says(refusal),
            None => if samples.len() == 0 {
                self.says(
                    ctx.language.chosen(
                        "恢复会话没有采样点"@,
                        "The recovery session has no samples"@,
                    ),
                )
            } else {
                self.loaded(directory, ledger, facts, samples, ctx)
            },
        }
    }

    /// An earlier session is taken up where it ended, and waits to go on.
    #[verifier::opaque]
    pub open spec fn loaded(
        self,
        directory: Seq<char>,
        ledger: LedgerFacts,
        facts: SessionFacts,
        samples: Seq<MeasurementSample>,
        ctx: Context,
    ) -> ControlView {
        let last = samples.last();
        let offsets = offsets_after(last);
        ControlView {
            core: self.core.taken_up(last, offsets, samples, next_index(ledger.segments)),
            directory: Some(directory),
            ledger: Some(LedgerFacts { state: SessionState::Paused, ..ledger }),
            facts: Some(facts.stopped(IntervalReason::ApplicationRestart, ctx.utc)),
            ..self.says(
                ctx.language.chosen(
                    "恢复会话已载入 · 点击“继续记录”后续录"@,
                    "Recovery session loaded · Select Resume to continue"@,
                ),
            ).awaits(Stage::Persisting(PersistPurpose::Loaded))
        }
    }

    // -- The live buffer --

    /// The live buffer was handed to a writer at `path`, or could not be.
    #[verifier::opaque]
    pub open spec fn exported(
        self,
        path: Seq<char>,
        samples: Seq<MeasurementSample>,
        error: Option<Seq<char>>,
    ) -> ControlView {
        match error {
            Some(error) => self.says(error),
            None => ControlView {
                recorder: Some(
                    RecorderView {
                        finishing: true,
                        ..RecorderView::started(
                            path,
                            Some(samples[0]),
                            RecordingOffsets::none(),
                        ).after_rows(samples)
                    },
                ),
                last_recording: None,
                ..self.says(said("正在导出 "@, ""@, path))
            },
        }
    }

    /// The live data and the statistics of the last recording are forgotten.
    #[verifier::opaque]
    pub open spec fn cleared(self) -> ControlView {
        ControlView {
            core: SessionCore {
                phase: RecordingPhase::Idle,
                statistics: crate::statistics::RecordingSessionStatistics::none(),
                resume_offsets: None,
                last: crate::session_core::FrozenTotals::none(),
                plot_origin_us: 0,
                plot_origin_index: None,
                ..self.core
            },
            last_recording: None,
            ..self.says("尚未录制"@)
        }
    }

    // -- Replies --

    /// The manifest was written, or could not be.
    #[verifier::opaque]
    pub open spec fn persisted(
        self,
        purpose: PersistPurpose,
        error: Option<Seq<char>>,
        ctx: Context,
    ) -> ControlView {
        match purpose {
            PersistPurpose::Sealed(purpose) => self.after_seal(purpose, error, ctx),
            PersistPurpose::Started(purpose) => self.after_start(purpose, error, ctx),
            PersistPurpose::Resumed(follow) => self.after_resume(follow, error, ctx),
            PersistPurpose::Destination => match error {
                Some(error) => self.fails(error),
                None => self.enters(RecordingPhase::Finalizing).says(
                    ctx.language.chosen(
                        "正在合并并校验录制数据…"@,
                        "Merging and validating recording data…"@,
                    ),
                ).awaits(Stage::Rest),
            },
            PersistPurpose::Segments => match error {
                Some(error) => self.fails(error),
                None => self.awaits(Stage::Rest),
            },
            PersistPurpose::Failure => self.awaits(Stage::Rest),
            PersistPurpose::Loaded => self.awaits(Stage::Rest),
        }
    }

    /// What was awaited happened, or failed.
    #[verifier::opaque]
    pub open spec fn replied(self, reply: Result<Seq<char>, Seq<char>>, ctx: Context) -> ControlView {
        let error = match reply {
            Ok(_) => None,
            Err(error) => Some(error),
        };
        match self.stage {
            Stage::Rest => self,
            Stage::Sending(pause) => match reply {
                Ok(_) => self.taken(pause, ctx),
                Err(_) => self.lost(ctx),
            },
            Stage::Finishing(purpose) => match reply {
                Ok(_) => self.sealed(purpose, ctx),
                Err(_) => self.released().after_seal(
                    purpose,
                    Some("recording writer stopped unexpectedly"@),
                    ctx,
                ),
            },
            Stage::Persisting(purpose) => self.persisted(purpose, error, ctx),
            Stage::Creating => match reply {
                Ok(directory) => self.created(directory, ctx),
                Err(error) => ControlView { draft: None, ..self.fails(error) },
            },
            Stage::Starting(purpose) => match reply {
                Ok(path) => self.started(purpose, path, ctx),
                Err(error) => self.after_start(purpose, Some(error), ctx),
            },
            Stage::Sleeping(purpose) => self.after_sleep(purpose, error, ctx),
            Stage::Merging => match reply {
                Ok(_) => self,
                Err(error) => self.merge_failed(error, ctx),
            },
            Stage::Staging => self.after_staging(error, ctx),
            Stage::Annotating => self.after_annotating(error, ctx),
        }
    }
}

} // verus!
