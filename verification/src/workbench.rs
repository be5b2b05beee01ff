//! The workbench: what every message from the device leads to.
//!
//! Messages arrive in frames. A frame handles a bounded number of them, joins
//! the measurements of successive ones, and hands those over before any other
//! message is handled. Whenever the recording controls wait for something, the
//! next message waits too.
use vstd::prelude::*;
use vstd::string::*;

use crate::chart_state::ChartState;
use crate::connection::ConnectionPhase;
use crate::control_laws::{law_pausing_keeps_what_was_recorded, law_samples_are_handed_to_the_writer};
use crate::control_model::{
    ControlView, LedgerFacts, PauseFollowUp, ResumeFollowUp, Stage, StartPurpose,
};
use crate::i18n::Language;
use crate::imports::{ImportShelf, ImportedRecording, ShelfView};
use crate::link::{DeviceLink, LinkView};
use crate::live::{
    law_a_new_recording_begins_with_the_newest_sample, lemma_measured_in_two, measure,
    measurements_of, progress_after, LiveData, LiveView,
};
use crate::measurement::{
    GraphSampleRate, MeasurementAccumulator, MeasurementSample, PlotMetric, Progress, RawSample,
    MAX_SAMPLES,
};
use crate::offline::{
    catalog_facts, drawable, drop_unsupported_metrics, CatalogEntry, OfflineBrowser, OfflineFacts,
    OfflineRecording, OfflineView,
};
use crate::options::{
    ChartFollowMode, PauseReason, PlotSource, RecordingPhase, SampleRateOption, WorkspaceTab,
};
use crate::pd_decoder::{PdEvent, PdSession};
use crate::pd_panel::{PdPanel, PdPanelView};
use crate::port::{PortNotice, PortStatus, PortView, PortWatch};
use crate::recording::{DeviceFacts, RecordingMetadata, RecordingRow, RecordingTotals};
use crate::recording_control::{reply_of, RecordingControl};
use crate::recording_session::{segment_facts, RecordingSessionManifestV1};
use crate::session_core::Context;
use crate::session_text::said;
use crate::streaming::UsbCommand;
use crate::timeline::{newest_entries, PdTraceEntry, TRACE_ENTRIES};
use crate::utc::UtcInstant;

verus! {

/// How many messages one frame handles.
pub const MAX_USB_MESSAGES_PER_FRAME: usize = 64;

/// The clocks at one moment.
#[derive(Debug, Clone, Copy, PartialEq, Eq, Structural)]
pub struct Clock {
    /// The reading of a clock that never goes back.
    pub now_us: u64,
    pub utc: UtcInstant,
}

/// A message from the task that talks to the device.
pub enum UsbMessage {
    Connected(RecordingMetadata),
    ConnectionFailed(String),
    Samples(Vec<RawSample>),
    StreamingStarted(GraphSampleRate),
    PdEvents(Vec<PdEvent>),
    /// The device reported the state of its port.
    PdStatusUpdate(PortStatus),
    PdTrace(Vec<PdTraceEntry>),
    OfflineCatalog(Vec<CatalogEntry>),
    OfflineLogDownloaded(OfflineRecording),
    OfflineOperationFailed(String),
    StreamingStopped,
    Error(String),
    Disconnected,
}

/// The state of the workbench.
pub ghost struct WorkbenchView {
    pub language: Language,
    pub link: LinkView,
    pub progress: Progress,
    pub live: LiveView,
    pub control: ControlView,
    pub chart: ChartState,
    pub offline: OfflineView,
    pub shelf: ShelfView,
    pub pd: PdPanelView,
    pub port: PortView,
    /// Measurements that were not handed over yet.
    pub pending: Seq<MeasurementSample>,
    /// What the advanced analysis draws.
    pub metrics: Seq<PlotMetric>,
    pub tab: WorkspaceTab,
    /// How many messages the frame has handled.
    pub handled: int,
}

impl WorkbenchView {
    /// What holds at all times.
    pub open spec fn well_formed(self) -> bool {
        &&& self.progress.well_formed()
        &&& self.live.well_formed()
        &&& self.control.well_formed()
        &&& self.chart.well_formed()
        &&& self.pd.well_formed()
        &&& self.metrics.len() == 3
        &&& 0 <= self.handled <= MAX_USB_MESSAGES_PER_FRAME
    }

    /// What a session is handled with.
    pub open spec fn context(self, clock: Clock) -> Context {
        Context {
            language: self.language,
            now_us: clock.now_us,
            utc: clock.utc,
            rate: self.link.current_rate,
            latest: self.live.newest_sample(),
        }
    }

    /// Whether an earlier session of device `serial` with `samples` is taken up.
    pub open spec fn can_load(self, serial: Seq<char>, samples: Seq<MeasurementSample>) -> bool {
        self.control.can_load(self.link.serial(), serial, samples, self.language)
    }

    /// A device was connected.
    #[verifier::opaque]
    pub open spec fn connected(self, device: DeviceFacts) -> WorkbenchView {
        WorkbenchView {
            link: self.link.connected(device, self.control.awaited_serial(), self.language),
            control: match self.control.awaited_serial() {
                Some(expected) => if LinkView::is_awaited(expected, device.serial) {
                    self.control.enters(RecordingPhase::Recovering)
                } else {
                    self.control
                },
                None => self.control,
            },
            offline: self.offline.renewed(),
            pd: PdPanelView { session: PdSession::initial(), ..self.pd },
            port: self.port.tells(PortNotice::Forget),
            ..self
        }
    }

    /// Samples arrived.
    #[verifier::opaque]
    pub open spec fn sampled(self, raw: Seq<RawSample>) -> WorkbenchView {
        let rate = self.link.current_rate.rate();
        WorkbenchView {
            progress: progress_after(self.progress, raw, rate),
            pending: self.pending + measurements_of(
                self.progress,
                raw,
                rate,
                self.control.core.resume_offsets,
            ),
            ..self
        }
    }

    /// The measurements that wait are handed over: to the live data, and then
    /// to the recording.
    #[verifier::opaque]
    pub open spec fn flushed(self, clock: Clock) -> WorkbenchView {
        let live = LiveView {
            discarded: self.progress.discarded as u64,
            ..self.live
        }.appended(self.pending);
        let shown = WorkbenchView { live, pending: Seq::empty(), ..self };
        WorkbenchView {
            control: self.control.append(
                self.pending,
                self.link.streaming,
                shown.context(clock),
            ),
            ..shown
        }
    }

    /// The device streams. A session that waited for it goes on.
    #[verifier::opaque]
    pub open spec fn streaming(
        self,
        rate: SampleRateOption,
        clock: Clock,
    ) -> WorkbenchView {
        let started = WorkbenchView {
            link: self.link.started(rate),
            progress: Progress { previous: None, ..self.progress },
            ..self
        };
        if self.control.core.phase == RecordingPhase::Recovering && self.control.core.pause_reason
            == Some(PauseReason::UsbDisconnected) {
            WorkbenchView {
                control: self.control.resume(
                    true,
                    ResumeFollowUp::Reconnected,
                    started.context(clock),
                ),
                ..started
            }
        } else {
            started
        }
    }

    /// A stored recording arrived and is shown.
    #[verifier::opaque]
    pub open spec fn downloaded(self, recording: OfflineFacts) -> WorkbenchView {
        WorkbenchView {
            offline: self.offline.downloaded(recording, self.link.device),
            chart: self.chart.showing(PlotSource::Offline),
            metrics: seq![
                drawable(self.metrics[0]),
                drawable(self.metrics[1]),
                drawable(self.metrics[2]),
            ],
            ..self
        }
    }

    /// The device is gone. A session waits for it, unless the user asked for
    /// this.
    #[verifier::opaque]
    pub open spec fn disconnected(self, clock: Clock, told: bool) -> WorkbenchView {
        let gone = WorkbenchView {
            link: self.link.gone(clock.now_us),
            offline: OfflineView { busy: false, ..self.offline },
            pd: PdPanelView { session: PdSession::initial(), ..self.pd },
            port: self.port.gone(),
            ..self
        };
        WorkbenchView {
            control: if self.control.core.session && !self.link.disconnect_requested {
                self.control.pause(
                    PauseReason::UsbDisconnected,
                    PauseFollowUp::Disconnected,
                    gone.context(clock),
                )
            } else {
                self.control.stop(told, gone.context(clock))
            },
            ..gone
        }
    }

    /// A session that just began is shown from its start.
    #[verifier::opaque]
    pub open spec fn settled(self) -> WorkbenchView {
        if self.control.begun {
            WorkbenchView {
                control: ControlView { begun: false, ..self.control },
                shelf: self.shelf.closed(self.language),
                chart: self.chart.begun(),
                live: self.live.restarted(),
                ..self
            }
        } else {
            self
        }
    }

    /// What the recording controls waited for came to `reply`.
    #[verifier::opaque]
    pub open spec fn replied(
        self,
        reply: Result<Seq<char>, Seq<char>>,
        clock: Clock,
    ) -> WorkbenchView {
        WorkbenchView {
            control: self.control.replied(reply, self.context(clock)),
            ..self
        }.settled()
    }
}

/// The workbench.
pub struct Workbench {
    pub language: Language,
    pub link: DeviceLink,
    pub accumulator: MeasurementAccumulator,
    pub live: LiveData,
    pub control: RecordingControl,
    pub chart: ChartState,
    pub offline: OfflineBrowser,
    pub shelf: ImportShelf,
    pub pd: PdPanel,
    pub port: PortWatch,
    pub pending: Vec<MeasurementSample>,
    pub metrics: [PlotMetric; 3],
    pub tab: WorkspaceTab,
    pub handled: usize,
}

impl View for Workbench {
    type V = WorkbenchView;

    open spec fn view(&self) -> WorkbenchView {
        WorkbenchView {
            language: self.language,
            link: self.link@,
            progress: self.accumulator@,
            live: self.live@,
            control: self.control@,
            chart: self.chart,
            offline: self.offline@,
            shelf: self.shelf@,
            pd: self.pd@,
            port: self.port@,
            pending: self.pending@,
            metrics: self.metrics@,
            tab: self.tab,
            handled: self.handled as int,
        }
    }
}

impl Workbench {
    /// Nothing has happened yet.
    pub fn new(demo: bool, now_us: u64) -> (workbench: Workbench)
        ensures
            workbench@.well_formed(),
            workbench@.control.at_rest(),
            workbench@.control.core == crate::session_core::SessionCore::idle(),
            workbench@.control.recorder is None,
            !workbench@.control.begun,
            workbench@.language == Language::SimplifiedChinese,
            workbench@.link == LinkView::fresh(demo, now_us),
            workbench@.progress == Progress::initial(),
            workbench@.live == LiveView::empty(
                crate::live::LIVE_POINTS as int,
                crate::navigator::OVERVIEW_POINTS as int,
            ),
            workbench@.chart == ChartState::initial(),
            workbench@.offline == OfflineView::fresh(),
            workbench@.shelf == ShelfView::fresh(),
            workbench@.pd == PdPanelView::fresh(),
            workbench@.port == PortView::fresh(),
            workbench@.pending.len() == 0,
            workbench@.metrics == seq![PlotMetric::Voltage, PlotMetric::Current, PlotMetric::Power],
            workbench@.tab == WorkspaceTab::Monitor,
            workbench@.handled == 0,
    {
        let metrics = [PlotMetric::Voltage, PlotMetric::Current, PlotMetric::Power];
        assert(metrics@ =~= seq![PlotMetric::Voltage, PlotMetric::Current, PlotMetric::Power]);
        Workbench {
            language: Language::SimplifiedChinese,
            link: DeviceLink::new(demo, now_us),
            accumulator: MeasurementAccumulator::default(),
            live: LiveData::new(),
            control: RecordingControl::new(),
            chart: ChartState::new(),
            offline: OfflineBrowser::new(),
            shelf: ImportShelf::new(),
            pd: PdPanel::new(),
            port: PortWatch::new(),
            pending: Vec::new(),
            metrics,
            tab: WorkspaceTab::Monitor,
            handled: 0,
        }
    }

    /// What a session is handled with.
    pub fn context(&self, clock: Clock) -> (ctx: Context)
        ensures
            ctx == self@.context(clock),
    {
        Context {
            language: self.language,
            now_us: clock.now_us,
            utc: clock.utc,
            rate: self.link.current_rate,
            latest: self.live.latest(),
        }
    }

    // -- A frame --

    /// Begins a frame.
    pub fn begin_frame(&mut self)
        ensures
            final(self)@ == (WorkbenchView { handled: 0, ..old(self)@ }),
    {
        self.handled = 0;
    }

    /// Whether the frame handles one more message.
    pub fn wants_message(&self) -> (wants: bool)
        ensures
            wants == (self@.handled < MAX_USB_MESSAGES_PER_FRAME),
    {
        self.handled < MAX_USB_MESSAGES_PER_FRAME
    }

    /// Whether more messages may be waiting than the frame has handled.
    pub fn has_backlog(&self) -> (backlog: bool)
        ensures
            backlog == (self@.handled == MAX_USB_MESSAGES_PER_FRAME),
    {
        self.handled == MAX_USB_MESSAGES_PER_FRAME
    }

    /// Whether the measurements that wait are handed over before `message`.
    pub fn must_flush(&self, message: &UsbMessage) -> (must: bool)
        ensures
            must == (!(message is Samples) && self@.pending.len() > 0),
    {
        match message {
            UsbMessage::Samples(_) => false,
            _ => self.pending.len() > 0,
        }
    }

    /// Hands over the measurements that wait; returns the rows that the writer
    /// is to take.
    pub fn flush(&mut self, clock: Clock) -> (rows: Option<Vec<RecordingRow>>)
        requires
            old(self)@.well_formed(),
            old(self)@.control.at_rest(),
            old(self)@.control.has_room(old(self)@.pending.len()),
            clock.utc.valid(),
        ensures
            final(self)@ == old(self)@.flushed(clock),
            final(self)@.well_formed(),
            rows is Some <==> final(self)@.control.stage is Sending,
            rows matches Some(rows) ==> rows@ == old(self)@.control.recorder->0.rows(
                old(self)@.pending,
            ),
    {
        proof {
            reveal(WorkbenchView::flushed);
        }
        self.live.discarded_sequence_samples =
        self.accumulator.cumulative_discarded_sequence_samples();
        self.live.append(&self.pending);
        let mut samples: Vec<MeasurementSample> = Vec::new();
        std::mem::swap(&mut samples, &mut self.pending);
        let ctx = self.context(clock);
        assert(self@.pending =~= Seq::<MeasurementSample>::empty());
        let rows = self.control.append_measurements(samples, self.link.streaming, ctx);
        rows
    }

    // -- Messages --

    /// A device was connected. Returns what the device is told.
    pub fn on_connected(&mut self, device: RecordingMetadata) -> (command: Option<UsbCommand>)
        requires
            old(self)@.well_formed(),
            old(self)@.control.at_rest(),
        ensures
            final(self)@ == old(self)@.connected(device@),
            final(self)@.well_formed(),
            command == (if old(self)@.pd.trace_enabled {
                Some(UsbCommand::SetPdTraceEnabled(true))
            } else {
                None
            }),
    {
        proof {
            reveal(WorkbenchView::connected);
        }
        let awaited = self.control.awaited_serial();
        let found: bool = self.link.connected(device, awaited, self.language);
        if found {
            self.control.device_returned();
        }
        self.offline.device_connected();
        self.pd.reset_decoder();
        self.port.tell(PortNotice::Forget);
        if self.pd.trace_enabled {
            Some(UsbCommand::SetPdTraceEnabled(true))
        } else {
            None
        }
    }

    /// Samples arrived.
    pub fn on_samples(&mut self, raw: &Vec<RawSample>)
        requires
            old(self)@.well_formed(),
            old(self)@.progress.samples + raw@.len() <= MAX_SAMPLES,
        ensures
            final(self)@ == old(self)@.sampled(raw@),
            final(self)@.well_formed(),
    {
        proof {
            reveal(WorkbenchView::sampled);
        }
        let rate = self.link.current_rate.to_graph_rate();
        let offsets = self.control.core.resume_offsets;
        measure(&mut self.accumulator, raw, rate, offsets, &mut self.pending);
    }

    /// The device streams at `rate`.
    pub fn on_streaming_started(&mut self, rate: GraphSampleRate, clock: Clock)
        requires
            old(self)@.well_formed(),
            old(self)@.control.at_rest(),
            clock.utc.valid(),
        ensures
            final(self)@.link.current_rate.rate() == rate,
            final(self)@ == old(self)@.streaming(final(self)@.link.current_rate, clock),
            final(self)@.well_formed(),
    {
        proof {
            reveal(WorkbenchView::streaming);
        }
        self.link.streaming_started(rate);
        self.accumulator.reset_continuity();
        if self.control.core.phase == RecordingPhase::Recovering && self.control.core.pause_reason
            == Some(PauseReason::UsbDisconnected) {
            let ctx = self.context(clock);
            self.control.resume_recording(true, ResumeFollowUp::Reconnected, ctx);
        }
    }

    /// A stored recording arrived and is shown.
    pub fn on_log_downloaded(&mut self, recording: OfflineRecording)
        requires
            old(self)@.well_formed(),
        ensures
            final(self)@ == old(self)@.downloaded(recording@),
            final(self)@.well_formed(),
    {
        proof {
            reveal(WorkbenchView::downloaded);
        }
        let device = match &self.link.device {
            Some(device) => Some(device.copied()),
            None => None,
        };
        self.offline.log_downloaded(recording, device);
        self.chart.show_loaded(PlotSource::Offline);
        self.metrics = drop_unsupported_metrics(self.metrics);
    }

    /// The device is gone. `told` says whether a writer without a session
    /// could be told to finish.
    pub fn on_disconnected(&mut self, told: bool, clock: Clock)
        requires
            old(self)@.well_formed(),
            old(self)@.control.at_rest(),
            clock.utc.valid(),
        ensures
            final(self)@ == old(self)@.disconnected(clock, told),
            final(self)@.well_formed(),
    {
        proof {
            reveal(WorkbenchView::disconnected);
        }
        let requested: bool = self.link.disconnect_requested;
        self.link.disconnected(clock.now_us);
        self.pd.reset_decoder();
        self.port.leave();
        self.offline.device_gone();
        let ctx = self.context(clock);
        if self.control.core.session && !requested {
            self.control.pause_recording_with_reason(
                PauseReason::UsbDisconnected,
                PauseFollowUp::Disconnected,
                ctx,
            );
        } else {
            self.control.stop_recording(told, ctx);
        }
    }
}

/// What a message leads to. `rate` is the rate of a device that streams.
pub open spec fn after_message(
    view: WorkbenchView,
    message: UsbMessage,
    rate: SampleRateOption,
    told: bool,
    clock: Clock,
) -> WorkbenchView {
    match message {
        UsbMessage::Connected(device) => view.connected(device@),
        UsbMessage::ConnectionFailed(error) => WorkbenchView {
            link: view.link.failed_to_connect(error@, view.language, clock.now_us),
            ..view
        },
        UsbMessage::Samples(raw) => view.sampled(raw@),
        UsbMessage::StreamingStarted(_) => view.streaming(rate, clock),
        UsbMessage::PdEvents(events) => WorkbenchView {
            pd: view.pd.after_events(events@),
            port: view.port.after_events(events@, clock.now_us),
            ..view
        },
        UsbMessage::PdStatusUpdate(status) => WorkbenchView {
            port: view.port.reported(status, clock.now_us),
            ..view
        },
        UsbMessage::PdTrace(entries) => WorkbenchView {
            pd: PdPanelView {
                trace: newest_entries(view.pd.trace + entries@, TRACE_ENTRIES as int),
                ..view.pd
            },
            ..view
        },
        UsbMessage::OfflineCatalog(catalog) => WorkbenchView {
            offline: view.offline.listed(catalog_facts(catalog@)),
            ..view
        },
        UsbMessage::OfflineLogDownloaded(recording) => view.downloaded(recording@),
        UsbMessage::OfflineOperationFailed(error) => WorkbenchView {
            offline: OfflineView {
                busy: false,
                ..view.offline.says(said("离线记录操作失败："@, ""@, error@))
            },
            ..view
        },
        UsbMessage::StreamingStopped => WorkbenchView { link: view.link.stopped(), ..view },
        UsbMessage::Error(error) => WorkbenchView { link: view.link.broken(error@), ..view },
        UsbMessage::Disconnected => view.disconnected(clock, told),
    }
}

impl Workbench {
    /// Handles one message. Measurements that wait are handed over before any
    /// message but further samples. Returns what the device is told.
    pub fn process_message(&mut self, message: UsbMessage, told: bool, clock: Clock) -> (command:
        Option<UsbCommand>)
        requires
            old(self)@.well_formed(),
            old(self)@.control.at_rest(),
            old(self)@.handled < MAX_USB_MESSAGES_PER_FRAME,
            message is Samples || old(self)@.pending.len() == 0,
            message matches UsbMessage::Samples(raw) ==> old(self)@.progress.samples + raw@.len()
                <= MAX_SAMPLES,
            clock.utc.valid(),
        ensures
            final(self)@ == after_message(
                WorkbenchView { handled: old(self)@.handled + 1, ..old(self)@ },
                message,
                final(self)@.link.current_rate,
                told,
                clock,
            ),
            message matches UsbMessage::StreamingStarted(rate)
                ==> final(self)@.link.current_rate.rate() == rate,
            final(self)@.well_formed(),
            command == (if message is Connected && old(self)@.pd.trace_enabled {
                Some(UsbCommand::SetPdTraceEnabled(true))
            } else {
                None
            }),
    {
        self.handled = self.handled + 1;
        match message {
            UsbMessage::Connected(device) => {
                return self.on_connected(device);
            },
            UsbMessage::ConnectionFailed(error) => {
                self.link.connection_failed(error, self.language, clock.now_us);
            },
            UsbMessage::Samples(raw) => {
                self.on_samples(&raw);
            },
            UsbMessage::StreamingStarted(rate) => {
                self.on_streaming_started(rate, clock);
            },
            UsbMessage::PdEvents(events) => {
                self.port.receive_events(&events, clock.now_us);
                self.pd.receive_events(&events);
            },
            UsbMessage::PdStatusUpdate(status) => {
                self.port.report(status, clock.now_us);
            },
            UsbMessage::PdTrace(entries) => {
                self.pd.receive_trace(entries);
            },
            UsbMessage::OfflineCatalog(catalog) => {
                self.offline.catalog_received(catalog);
            },
            UsbMessage::OfflineLogDownloaded(recording) => {
                self.on_log_downloaded(recording);
            },
            UsbMessage::OfflineOperationFailed(error) => {
                self.offline.operation_failed(error.as_str());
            },
            UsbMessage::StreamingStopped => {
                self.link.streaming_stopped();
            },
            UsbMessage::Error(error) => {
                self.link.error(error);
            },
            UsbMessage::Disconnected => {
                self.on_disconnected(told, clock);
            },
        }
        None
    }

    // -- What else happens --

    /// Ends the messages of a frame: the tracker of the port learns the time,
    /// and a missing device is looked for once it is due. Returns what the
    /// device task is told.
    pub fn end_frame(&mut self, clock: Clock) -> (command: Option<UsbCommand>)
        requires
            old(self)@.well_formed(),
        ensures
            final(self)@ == (WorkbenchView {
                port: old(self)@.port.tells(PortNotice::Tick { now_us: clock.now_us }),
                link: if old(self)@.link.retries(clock.now_us) {
                    old(self)@.link.connecting(clock.now_us)
                } else {
                    old(self)@.link
                },
                ..old(self)@
            }),
            final(self)@.well_formed(),
            command == (if old(self)@.link.retries(clock.now_us)
                && old(self)@.link.may_connect() {
                Some(old(self)@.link.connect_command())
            } else {
                None
            }),
    {
        self.port.tell(PortNotice::Tick { now_us: clock.now_us });
        self.link.maybe_retry_connection(clock.now_us)
    }

    /// Lets demonstration data stand for `device`, which counts as attached.
    pub fn enable_demo_device(&mut self, device: RecordingMetadata, now_us: u64)
        requires
            old(self)@.well_formed(),
        ensures
            final(self)@ == (WorkbenchView {
                link: old(self)@.link.demonstrating(device@),
                port: old(self)@.port.tells(PortNotice::Event { connected: true, now_us }),
                ..old(self)@
            }),
            final(self)@.well_formed(),
    {
        self.link.enable_demo_device(device);
        self.port.tell(PortNotice::Event { connected: true, now_us });
    }

    /// Shows a session that just began from its start.
    pub fn settle(&mut self)
        requires
            old(self)@.well_formed(),
        ensures
            final(self)@ == old(self)@.settled(),
            final(self)@.well_formed(),
    {
        proof {
            reveal(WorkbenchView::settled);
        }
        if self.control.begun {
            self.control.begun = false;
            self.shelf.close(self.language);
            self.chart.begin_session();
            self.live.restart();
        }
    }

    /// What the recording controls waited for came to `reply`.
    pub fn proceed(&mut self, reply: Result<String, String>, clock: Clock)
        requires
            old(self)@.well_formed(),
            clock.utc.valid(),
        ensures
            final(self)@ == old(self)@.replied(reply_of(reply), clock),
            final(self)@.well_formed(),
    {
        proof {
            reveal(WorkbenchView::replied);
        }
        let ctx = self.context(clock);
        self.control.proceed(reply, ctx);
        self.settle();
    }

    /// An imported recording was read and is shown.
    pub fn show_imported(&mut self, recording: ImportedRecording)
        requires
            old(self)@.well_formed(),
        ensures
            final(self)@ == (WorkbenchView {
                shelf: old(self)@.shelf.loaded(recording@),
                chart: old(self)@.chart.showing(PlotSource::Imported),
                tab: WorkspaceTab::Monitor,
                ..old(self)@
            }),
            final(self)@.well_formed(),
    {
        self.shelf.import_finished(recording);
        self.chart.show_loaded(PlotSource::Imported);
        self.tab = WorkspaceTab::Monitor;
    }

    /// Closes an imported recording.
    pub fn close_imported_recording(&mut self)
        requires
            old(self)@.well_formed(),
        ensures
            final(self)@ == (WorkbenchView {
                shelf: old(self)@.shelf.closed(old(self)@.language),
                chart: old(self)@.chart.closed_import(),
                ..old(self)@
            }),
            final(self)@.well_formed(),
    {
        self.shelf.close(self.language);
        self.chart.close_imported_recording();
    }

    /// Takes up an earlier session with `samples`, where it has any, no session
    /// runs and its device is there.
    pub fn continue_session(
        &mut self,
        directory: String,
        manifest: RecordingSessionManifestV1,
        totals: RecordingTotals,
        samples: &Vec<MeasurementSample>,
        clock: Clock,
    )
        requires
            old(self)@.well_formed(),
            old(self)@.control.at_rest(),
            manifest.metadata.valid(),
            clock.utc.valid(),
        ensures
            final(self)@ == (WorkbenchView {
                control: old(self)@.control.load(
                    old(self)@.link.serial(),
                    directory@,
                    LedgerFacts {
                        state: manifest.state,
                        format: manifest.format,
                        segments: segment_facts(manifest.segments@),
                    },
                    manifest.metadata@.with_totals(totals),
                    samples@,
                    old(self)@.context(clock),
                ),
                live: if old(self)@.can_load(manifest.metadata.device.serial@, samples@) {
                    old(self)@.live.restored(samples@)
                } else {
                    old(self)@.live
                },
                chart: if old(self)@.can_load(manifest.metadata.device.serial@, samples@) {
                    old(self)@.chart.reloaded()
                } else {
                    old(self)@.chart
                },
                ..old(self)@
            }),
            final(self)@.well_formed(),
    {
        let ctx = self.context(clock);
        let connected: Option<&str> = match &self.link.device {
            Some(device) => Some(device.serial.as_str()),
            None => None,
        };
        let taken = self.control.continue_recoverable_session(
            connected,
            directory,
            manifest,
            totals,
            samples,
            ctx,
        );
        if taken {
            self.live.restore(samples);
            self.chart.reload_session();
        }
    }

    /// Forgets the live data.
    pub fn clear_data(&mut self)
        requires
            old(self)@.well_formed(),
            old(self)@.control.at_rest(),
        ensures
            final(self)@ == (WorkbenchView {
                progress: Progress::initial(),
                live: LiveView {
                    reading: old(self)@.live.reading,
                    ..LiveView::empty(old(self)@.live.limit, old(self)@.live.overview.limit)
                },
                control: old(self)@.control.cleared(),
                chart: old(self)@.chart.cleared(),
                ..old(self)@
            }),
            final(self)@.well_formed(),
    {
        self.live.clear();
        self.chart.clear();
        self.control.clear_data();
        self.accumulator.reset();
    }
}

/// How long to wait before the next frame, in milliseconds: not at all while
/// messages are waiting, a sixtieth of a second while live data are shown, and
/// a tenth otherwise.
pub fn repaint_delay_ms(backlog: bool, streaming: bool, source: PlotSource) -> (delay: u64)
    ensures
        delay == (if backlog {
            0u64
        } else if streaming && source == PlotSource::Live {
            16
        } else {
            100
        }),
{
    if backlog {
        0
    } else if streaming && source == PlotSource::Live {
        16
    } else {
        100
    }
}

/// Samples that arrive one message after the other are handed over together:
/// what waits, and what was measured, is what one message with all of them
/// would have left.
pub proof fn law_samples_of_a_frame_are_one_hand_over(
    view: WorkbenchView,
    first: Seq<RawSample>,
    second: Seq<RawSample>,
)
    ensures
        view.sampled(first).sampled(second) == view.sampled(first + second),
{
    reveal(WorkbenchView::sampled);
    let rate = view.link.current_rate.rate();
    let offsets = view.control.core.resume_offsets;
    lemma_measured_in_two(view.progress, first, second, rate, offsets);
    assert(view.sampled(first).sampled(second).pending =~= view.sampled(first + second).pending);
}

/// A session that waits for its device goes on with that device and with no
/// other: a different one is connected without touching the session, and where
/// the serial number of the session is not known any device will do.
pub proof fn law_a_session_waits_for_its_own_device(
    view: WorkbenchView,
    device: DeviceFacts,
    expected: Seq<char>,
)
    requires
        view.control.awaited_serial() == Some(expected),
    ensures
        expected.len() > 0 && expected != device.serial ==> view.connected(device).control
            == view.control,
        expected == device.serial || expected.len() == 0 ==> view.connected(device).control
            == view.control.enters(RecordingPhase::Recovering),
{
    reveal(WorkbenchView::connected);
}

/// What arrived during a frame is shown and recorded in one go: afterwards
/// nothing waits, the newest sample is the one that is read, every sample is
/// counted, and a session that is recorded hands all of them to its writer.
pub proof fn law_a_frame_shows_and_records_what_arrived(view: WorkbenchView, clock: Clock)
    requires
        view.live.well_formed(),
        view.live.limit > 0,
        view.pending.len() > 0,
        view.live.total + view.pending.len() <= u64::MAX,
    ensures
        ({
            let after = view.flushed(clock);
            &&& after.pending.len() == 0
            &&& after.live.newest_sample() == Some(view.pending.last())
            &&& after.live.total == view.live.total + view.pending.len()
            &&& after.live.discarded == view.progress.discarded as u64
            &&& after.progress == view.progress
            &&& after.chart == view.chart
            &&& view.control.core.session && !view.control.core.paused && (
            view.control.recorder matches Some(recorder) && !recorder.finishing) ==> {
                &&& after.control.stage is Sending
                &&& after.control.outgoing == view.pending
            }
        }),
{
    reveal(WorkbenchView::flushed);
    let live = LiveView { discarded: view.progress.discarded as u64, ..view.live };
    assert(live.appended(view.pending).points.last() == (view.live.points + view.pending).last());
    let shown = WorkbenchView {
        live: live.appended(view.pending),
        pending: Seq::empty(),
        ..view
    };
    if view.control.core.session && !view.control.core.paused && (
    view.control.recorder matches Some(recorder) && !recorder.finishing) {
        law_samples_are_handed_to_the_writer(
            view.control,
            view.pending,
            view.link.streaming,
            shown.context(clock),
        );
    }
}

/// A cable that is pulled pauses a session and does not end it: it waits for its
/// device. A disconnection that the user asked for stops it. Either way the
/// device is gone.
pub proof fn law_a_pulled_cable_pauses_the_session(view: WorkbenchView, clock: Clock, told: bool)
    requires
        view.control.core.session,
        !view.control.core.paused,
    ensures
        ({
            let after = view.disconnected(clock, told);
            &&& after.link.device is None
            &&& !after.link.streaming
            &&& !after.offline.busy
            &&& !view.link.disconnect_requested ==> {
                &&& after.control.core.session
                &&& after.control.core.paused
                &&& after.control.core.pause_reason == Some(PauseReason::UsbDisconnected)
                &&& after.control.core.tallies.energy.total
                    == view.control.core.tallies.energy.total
                &&& after.control.core.tallies.capacity.total
                    == view.control.core.tallies.capacity.total
                &&& after.link.phase == ConnectionPhase::NoDevice
            }
            &&& view.link.disconnect_requested ==> after.link.phase
                == ConnectionPhase::Disconnected
            &&& after.live == view.live
        }),
{
    reveal(WorkbenchView::disconnected);
    let gone = WorkbenchView {
        link: view.link.gone(clock.now_us),
        offline: OfflineView { busy: false, ..view.offline },
        pd: PdPanelView { session: PdSession::initial(), ..view.pd },
        port: view.port.gone(),
        ..view
    };
    law_pausing_keeps_what_was_recorded(
        view.control,
        PauseReason::UsbDisconnected,
        PauseFollowUp::Disconnected,
        gone.context(clock),
    );
}

/// Once the device streams again a session that waited for it goes on in a new
/// file, and one that did not wait is left alone. What was counted stays, and no
/// time is made up for the gap: the next sample counts from itself on.
pub proof fn law_a_session_goes_on_when_its_device_streams_again(
    view: WorkbenchView,
    rate: SampleRateOption,
    clock: Clock,
)
    ensures
        ({
            let after = view.streaming(rate, clock);
            let waited = view.control.core.phase == RecordingPhase::Recovering
                && view.control.core.pause_reason == Some(PauseReason::UsbDisconnected);
            &&& after.link.streaming
            &&& after.link.current_rate == rate
            &&& after.progress.previous is None
            &&& after.progress.charge == view.progress.charge
            &&& after.progress.energy == view.progress.energy
            &&& after.progress.samples == view.progress.samples
            &&& !waited ==> after.control == view.control
            &&& waited && view.control.core.session && view.control.core.paused
                && view.control.recorder is None && view.control.directory is Some
                && view.control.ledger is Some ==> after.control.stage
                == Stage::Starting(
                StartPurpose::Resume(ResumeFollowUp::Reconnected),
            )
        }),
{
    reveal(WorkbenchView::streaming);
    reveal(ControlView::resume);
    reveal(ControlView::starting);
}

/// A session that begins is what is looked at: the live data, from its start on,
/// with an overview of its own; an imported recording is closed. Nothing of this
/// happens while no session begins.
pub proof fn law_a_session_that_begins_is_looked_at(view: WorkbenchView)
    requires
        view.live.well_formed(),
    ensures
        view.control.begun ==> {
            let after = view.settled();
            &&& after.chart.source == PlotSource::Live
            &&& after.chart.mode == ChartFollowMode::FullSession
            &&& after.chart.cursor is None
            &&& !after.control.begun
            &&& after.shelf.recording is None
            &&& after.live.overview.points.len() <= 1
            &&& after.live.points == view.live.points
        },
        !view.control.begun ==> view.settled() == view,
{
    reveal(WorkbenchView::settled);
    if view.control.begun && view.live.points.len() > 0 {
        law_a_new_recording_begins_with_the_newest_sample(view.live);
    }
}

/// A recording that was downloaded is shown at once, from its start to its end.
pub proof fn law_a_downloaded_recording_is_shown(view: WorkbenchView, recording: OfflineFacts)
    ensures
        ({
            let after = view.downloaded(recording);
            &&& after.offline.recording == Some(recording)
            &&& after.offline.device == view.link.device
            &&& !after.offline.busy
            &&& after.chart.source == PlotSource::Offline
            &&& after.chart.mode == ChartFollowMode::FullSession
            &&& after.live == view.live
            &&& after.control == view.control
        }),
{
    reveal(WorkbenchView::downloaded);
}

} // verus!
