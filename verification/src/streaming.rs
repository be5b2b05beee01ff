//! The conversation with a connected device, as a state machine: an event
//! leads to the next state and to reports, and the state says what is to be
//! done next.
use vstd::prelude::*;
use vstd::string::*;

use crate::measurement::GraphSampleRate;
use crate::session_text::{said, say};

verus! {

/// Failed requests in a row after which the conversation ends.
pub const MAX_ERRORS: u32 = 10;

/// A command to the device.
#[derive(Debug, Clone, Copy, PartialEq, Eq, Structural)]
pub enum UsbCommand {
    /// Connect, with a USB reset or without, and stream at a rate.
    Connect(GraphSampleRate, bool),
    /// Stream at another rate.
    SetSampleRate(GraphSampleRate),
    /// Collect the firmware's protocol trace, or do not.
    SetPdTraceEnabled(bool),
    /// Fetch the catalog of the recordings that the device stores.
    RequestOfflineCatalog,
    /// Download one row of the catalog.
    DownloadOfflineLog(usize),
    /// Stop streaming and disconnect.
    Disconnect,
}

/// What is asked of the device at once.
#[derive(Debug, Clone, Copy, PartialEq, Eq, Structural)]
pub enum Attribute {
    AdcQueue,
    PdPacket,
    PdTrace,
}

/// A set of attributes.
#[derive(Debug, Clone, Copy, PartialEq, Eq, Structural)]
pub struct AttributeMask {
    pub adc_queue: bool,
    pub pd_packet: bool,
    pub pd_trace: bool,
}

impl AttributeMask {
    /// Whether `attribute` is asked for.
    pub open spec fn asks(self, attribute: Attribute) -> bool {
        match attribute {
            Attribute::AdcQueue => self.adc_queue,
            Attribute::PdPacket => self.pd_packet,
            Attribute::PdTrace => self.pd_trace,
        }
    }

    /// Whether `attribute` is asked for.
    pub fn contains(self, attribute: Attribute) -> (contained: bool)
        ensures
            contained == self.asks(attribute),
    {
        match attribute {
            Attribute::AdcQueue => self.adc_queue,
            Attribute::PdPacket => self.pd_packet,
            Attribute::PdTrace => self.pd_trace,
        }
    }
}

/// What is asked for while streaming: samples and protocol messages always,
/// the firmware's trace only when it is wanted.
pub fn streaming_attribute_mask(pd_trace_enabled: bool) -> (mask: AttributeMask)
    ensures
        mask.asks(Attribute::AdcQueue),
        mask.asks(Attribute::PdPacket),
        mask.asks(Attribute::PdTrace) == pd_trace_enabled,
{
    AttributeMask { adc_queue: true, pd_packet: true, pd_trace: pd_trace_enabled }
}

/// How long to wait between two requests, in milliseconds.
pub open spec fn request_interval(rate: GraphSampleRate) -> u64 {
    match rate {
        GraphSampleRate::Sps2 => 200,
        GraphSampleRate::Sps10 => 50,
        GraphSampleRate::Sps50 => 20,
        GraphSampleRate::Sps1000 => 5,
    }
}

/// How long to wait between two requests, in milliseconds.
pub fn request_delay_ms(rate: GraphSampleRate) -> (delay: u64)
    ensures
        delay == request_interval(rate),
{
    match rate {
        GraphSampleRate::Sps2 => 200,
        GraphSampleRate::Sps10 => 50,
        GraphSampleRate::Sps50 => 20,
        GraphSampleRate::Sps1000 => 5,
    }
}

/// What an idle task does with a command: it connects, and takes no other.
pub fn idle_command(command: UsbCommand) -> (session: Option<(GraphSampleRate, bool)>)
    ensures
        session == (match command {
            UsbCommand::Connect(rate, reset) => Some((rate, reset)),
            _ => None,
        }),
{
    match command {
        UsbCommand::Connect(rate, reset) => Some((rate, reset)),
        _ => None,
    }
}

/// Something of the device's memory that streaming pauses for.
#[derive(Debug, Clone, Copy, PartialEq, Eq, Structural)]
pub enum OfflineJob {
    Catalog,
    Download(usize),
}

impl OfflineJob {
    /// What is said where streaming could not be paused.
    pub open spec fn pause_error(self) -> Seq<char> {
        match self {
            OfflineJob::Catalog => "Could not pause streaming for offline catalog access: "@,
            OfflineJob::Download(_) => "Could not pause streaming for offline download: "@,
        }
    }

    /// What is said where the memory could not be read.
    pub open spec fn fetch_error(self) -> Seq<char> {
        match self {
            OfflineJob::Catalog => "Failed to load offline catalog: "@,
            OfflineJob::Download(_) => "Failed to download offline recording: "@,
        }
    }

    /// What is said where streaming could not be resumed.
    pub open spec fn resume_error(self) -> Seq<char> {
        match self {
            OfflineJob::Catalog => "Failed to resume streaming after loading offline catalog: "@,
            OfflineJob::Download(_) => "Failed to resume streaming after offline download: "@,
        }
    }

    fn pause_label(self) -> (label: &'static str)
        ensures
            label@ == self.pause_error(),
    {
        match self {
            OfflineJob::Catalog => "Could not pause streaming for offline catalog access: ",
            OfflineJob::Download(_) => "Could not pause streaming for offline download: ",
        }
    }

    fn fetch_label(self) -> (label: &'static str)
        ensures
            label@ == self.fetch_error(),
    {
        match self {
            OfflineJob::Catalog => "Failed to load offline catalog: ",
            OfflineJob::Download(_) => "Failed to download offline recording: ",
        }
    }

    fn resume_label(self) -> (label: &'static str)
        ensures
            label@ == self.resume_error(),
    {
        match self {
            OfflineJob::Catalog => "Failed to resume streaming after loading offline catalog: ",
            OfflineJob::Download(_) => "Failed to resume streaming after offline download: ",
        }
    }
}

/// What is done next.
#[derive(Debug, Clone, Copy, PartialEq, Eq, Structural)]
pub enum StreamStage {
    /// Open the device, with a USB reset or without.
    Opening(bool),
    /// Stop whatever the device streams.
    Clearing,
    /// Start to stream.
    Starting,
    /// Take a command, if there is one.
    Listening,
    /// Stop streaming, in order to stream at another rate.
    Slowing(GraphSampleRate),
    /// Start to stream at another rate.
    Restarting(GraphSampleRate),
    /// Stop streaming for a job.
    Pausing(OfflineJob),
    /// Do the job.
    Fetching(OfflineJob),
    /// Stream again after the job.
    Resuming(OfflineJob),
    /// Ask for data.
    Requesting,
    /// Wait before the next request.
    Waiting,
    /// Stop streaming for good.
    Closing,
    /// Nothing: the conversation is over.
    Ended,
}

/// What became of what was done.
#[derive(Debug)]
pub enum StreamEvent {
    /// It worked.
    Done,
    /// The device was opened; it streams samples, or it does not.
    Opened(bool),
    /// It failed.
    Failed(String),
    /// A command was there.
    Command(UsbCommand),
    /// No command was there.
    NoCommand,
    /// Nobody gives commands or reads reports any more.
    Unattended,
}

/// What is known of an event.
pub ghost enum StreamFacts {
    Done,
    Opened(bool),
    Failed(Seq<char>),
    Command(UsbCommand),
    NoCommand,
    Unattended,
}

impl View for StreamEvent {
    type V = StreamFacts;

    open spec fn view(&self) -> StreamFacts {
        match self {
            StreamEvent::Done => StreamFacts::Done,
            StreamEvent::Opened(adc_queue) => StreamFacts::Opened(*adc_queue),
            StreamEvent::Failed(error) => StreamFacts::Failed(error@),
            StreamEvent::Command(command) => StreamFacts::Command(*command),
            StreamEvent::NoCommand => StreamFacts::NoCommand,
            StreamEvent::Unattended => StreamFacts::Unattended,
        }
    }
}

/// A report to the interface.
#[derive(Debug)]
pub enum StreamReport {
    Connected,
    ConnectionFailed(String),
    StreamingStarted(GraphSampleRate),
    StreamingStopped,
    OfflineFetched,
    OfflineFailed(String),
    Error(String),
    Disconnected,
}

/// What is known of a report.
pub ghost enum ReportFacts {
    Connected,
    ConnectionFailed(Seq<char>),
    StreamingStarted(GraphSampleRate),
    StreamingStopped,
    OfflineFetched,
    OfflineFailed(Seq<char>),
    Error(Seq<char>),
    Disconnected,
}

impl View for StreamReport {
    type V = ReportFacts;

    open spec fn view(&self) -> ReportFacts {
        match self {
            StreamReport::Connected => ReportFacts::Connected,
            StreamReport::ConnectionFailed(error) => ReportFacts::ConnectionFailed(error@),
            StreamReport::StreamingStarted(rate) => ReportFacts::StreamingStarted(*rate),
            StreamReport::StreamingStopped => ReportFacts::StreamingStopped,
            StreamReport::OfflineFetched => ReportFacts::OfflineFetched,
            StreamReport::OfflineFailed(error) => ReportFacts::OfflineFailed(error@),
            StreamReport::Error(error) => ReportFacts::Error(error@),
            StreamReport::Disconnected => ReportFacts::Disconnected,
        }
    }
}

/// What is known of several reports.
pub open spec fn reports_of(reports: Seq<StreamReport>) -> Seq<ReportFacts> {
    reports.map_values(|report: StreamReport| report@)
}

/// The conversation with a device.
#[derive(Debug, Clone, Copy, PartialEq, Eq, Structural)]
pub struct StreamingSession {
    pub stage: StreamStage,
    pub rate: GraphSampleRate,
    pub pd_trace: bool,
    pub errors: u32,
}

/// A conversation and what was reported.
pub ghost struct StreamStep {
    pub session: StreamingSession,
    pub reports: Seq<ReportFacts>,
}

impl StreamingSession {
    /// Whether the count of errors is below the limit, or the conversation is
    /// being closed.
    pub open spec fn well_formed(self) -> bool {
        self.errors < MAX_ERRORS || self.stage == StreamStage::Closing || self.stage
            == StreamStage::Ended
    }

    /// The conversation, about to do something.
    pub open spec fn then_does(self, stage: StreamStage) -> StreamStep {
        StreamStep { session: StreamingSession { stage, ..self }, reports: Seq::empty() }
    }

    /// The conversation, about to do something after a report.
    pub open spec fn reporting(self, report: ReportFacts, stage: StreamStage) -> StreamStep {
        StreamStep { session: StreamingSession { stage, ..self }, reports: seq![report] }
    }

    /// What follows a command.
    pub open spec fn commanded(self, command: UsbCommand) -> StreamStep {
        match command {
            UsbCommand::SetSampleRate(rate) => if rate != self.rate {
                self.then_does(StreamStage::Slowing(rate))
            } else {
                self.then_does(StreamStage::Requesting)
            },
            UsbCommand::SetPdTraceEnabled(enabled) => StreamingSession {
                pd_trace: enabled,
                ..self
            }.then_does(StreamStage::Requesting),
            UsbCommand::RequestOfflineCatalog => self.then_does(
                StreamStage::Pausing(OfflineJob::Catalog),
            ),
            UsbCommand::DownloadOfflineLog(row) => self.then_does(
                StreamStage::Pausing(OfflineJob::Download(row)),
            ),
            UsbCommand::Disconnect => self.then_does(StreamStage::Closing),
            UsbCommand::Connect(_, _) => self.then_does(StreamStage::Requesting),
        }
    }

    /// What follows the end of a request.
    pub open spec fn requested(self, event: StreamFacts) -> StreamStep {
        match event {
            StreamFacts::Failed(_) => {
                let failed = StreamingSession { errors: (self.errors + 1) as u32, ..self };
                if failed.errors >= MAX_ERRORS {
                    failed.reporting(
                        ReportFacts::Error("Too many errors"@),
                        StreamStage::Closing,
                    )
                } else {
                    failed.then_does(StreamStage::Waiting)
                }
            },
            StreamFacts::Unattended => StreamingSession { errors: 0, ..self }.then_does(
                StreamStage::Closing,
            ),
            _ => StreamingSession { errors: 0, ..self }.then_does(StreamStage::Waiting),
        }
    }

    /// What follows an event.
    pub open spec fn step(self, event: StreamFacts) -> StreamStep {
        let failure = match event {
            StreamFacts::Failed(error) => Some(error),
            _ => None,
        };
        match self.stage {
            StreamStage::Opening(_) => match event {
                StreamFacts::Failed(error) => self.reporting(
                    ReportFacts::ConnectionFailed(error),
                    StreamStage::Ended,
                ),
                StreamFacts::Opened(true) => self.reporting(
                    ReportFacts::Connected,
                    StreamStage::Clearing,
                ),
                _ => self.reporting(
                    ReportFacts::ConnectionFailed("AdcQueue not enabled"@),
                    StreamStage::Ended,
                ),
            },
            StreamStage::Clearing => self.then_does(StreamStage::Starting),
            StreamStage::Starting => match failure {
                Some(error) => StreamStep {
                    session: StreamingSession { stage: StreamStage::Ended, ..self },
                    reports: seq![
                        ReportFacts::Error(said("Start failed: "@, ""@, error)),
                        ReportFacts::Disconnected,
                    ],
                },
                None => self.reporting(
                    ReportFacts::StreamingStarted(self.rate),
                    StreamStage::Listening,
                ),
            },
            StreamStage::Listening => match event {
                StreamFacts::Command(command) => self.commanded(command),
                StreamFacts::Unattended => self.then_does(StreamStage::Closing),
                _ => self.then_does(StreamStage::Requesting),
            },
            StreamStage::Slowing(rate) => self.reporting(
                ReportFacts::StreamingStopped,
                StreamStage::Restarting(rate),
            ),
            StreamStage::Restarting(rate) => match failure {
                Some(error) => self.reporting(
                    ReportFacts::Error(said("Restart failed: "@, ""@, error)),
                    StreamStage::Listening,
                ),
                None => StreamingSession { rate, ..self }.reporting(
                    ReportFacts::StreamingStarted(rate),
                    StreamStage::Requesting,
                ),
            },
            StreamStage::Pausing(job) => match failure {
                Some(error) => self.reporting(
                    ReportFacts::OfflineFailed(said(job.pause_error(), ""@, error)),
                    StreamStage::Listening,
                ),
                None => self.reporting(
                    ReportFacts::StreamingStopped,
                    StreamStage::Fetching(job),
                ),
            },
            StreamStage::Fetching(job) => match failure {
                Some(error) => self.reporting(
                    ReportFacts::OfflineFailed(said(job.fetch_error(), ""@, error)),
                    StreamStage::Resuming(job),
                ),
                None => self.reporting(
                    ReportFacts::OfflineFetched,
                    StreamStage::Resuming(job),
                ),
            },
            StreamStage::Resuming(job) => match failure {
                Some(error) => self.reporting(
                    ReportFacts::Error(said(job.resume_error(), ""@, error)),
                    StreamStage::Closing,
                ),
                None => self.reporting(
                    ReportFacts::StreamingStarted(self.rate),
                    StreamStage::Requesting,
                ),
            },
            StreamStage::Requesting => self.requested(event),
            StreamStage::Waiting => self.then_does(StreamStage::Listening),
            StreamStage::Closing => self.reporting(ReportFacts::Disconnected, StreamStage::Ended),
            StreamStage::Ended => self.then_does(StreamStage::Ended),
        }
    }

    /// A conversation that is to begin.
    pub fn new(rate: GraphSampleRate, usb_reset: bool) -> (session: StreamingSession)
        ensures
            session == (StreamingSession {
                stage: StreamStage::Opening(usb_reset),
                rate,
                pd_trace: false,
                errors: 0,
            }),
            session.well_formed(),
    {
        StreamingSession {
            stage: StreamStage::Opening(usb_reset),
            rate,
            pd_trace: false,
            errors: 0,
        }
    }

    /// Goes on after an event and returns what is to be reported.
    pub fn advance(&mut self, event: StreamEvent) -> (reports: Vec<StreamReport>)
        requires
            old(self).well_formed(),
        ensures
            *final(self) == old(self).step(event@).session,
            reports_of(reports@) == old(self).step(event@).reports,
            final(self).well_formed(),
    {
        let mut reports: Vec<StreamReport> = Vec::new();
        let stage = self.stage;
        match stage {
            StreamStage::Opening(_) => {
                match event {
                    StreamEvent::Failed(error) => {
                        reports.push(StreamReport::ConnectionFailed(error));
                        self.stage = StreamStage::Ended;
                    },
                    StreamEvent::Opened(true) => {
                        reports.push(StreamReport::Connected);
                        self.stage = StreamStage::Clearing;
                    },
                    _ => {
                        reports.push(
                            StreamReport::ConnectionFailed("AdcQueue not enabled".to_owned()),
                        );
                        self.stage = StreamStage::Ended;
                    },
                }
            },
            StreamStage::Clearing => {
                self.stage = StreamStage::Starting;
            },
            StreamStage::Starting => {
                match event {
                    StreamEvent::Failed(error) => {
                        reports.push(
                            StreamReport::Error(say("Start failed: ", "", error.as_str())),
                        );
                        reports.push(StreamReport::Disconnected);
                        self.stage = StreamStage::Ended;
                    },
                    _ => {
                        reports.push(StreamReport::StreamingStarted(self.rate));
                        self.stage = StreamStage::Listening;
                    },
                }
            },
            StreamStage::Listening => {
                match event {
                    StreamEvent::Command(command) => self.command(command),
                    StreamEvent::Unattended => {
                        self.stage = StreamStage::Closing;
                    },
                    _ => {
                        self.stage = StreamStage::Requesting;
                    },
                }
            },
            StreamStage::Slowing(rate) => {
                reports.push(StreamReport::StreamingStopped);
                self.stage = StreamStage::Restarting(rate);
            },
            StreamStage::Restarting(rate) => {
                match event {
                    StreamEvent::Failed(error) => {
                        reports.push(
                            StreamReport::Error(say("Restart failed: ", "", error.as_str())),
                        );
                        self.stage = StreamStage::Listening;
                    },
                    _ => {
                        self.rate = rate;
                        reports.push(StreamReport::StreamingStarted(rate));
                        self.stage = StreamStage::Requesting;
                    },
                }
            },
            StreamStage::Pausing(job) => {
                match event {
                    StreamEvent::Failed(error) => {
                        reports.push(
                            StreamReport::OfflineFailed(say(job.pause_label(), "", error.as_str())),
                        );
                        self.stage = StreamStage::Listening;
                    },
                    _ => {
                        reports.push(StreamReport::StreamingStopped);
                        self.stage = StreamStage::Fetching(job);
                    },
                }
            },
            StreamStage::Fetching(job) => {
                match event {
                    StreamEvent::Failed(error) => {
                        reports.push(
                            StreamReport::OfflineFailed(say(job.fetch_label(), "", error.as_str())),
                        );
                    },
                    _ => {
                        reports.push(StreamReport::OfflineFetched);
                    },
                }
                self.stage = StreamStage::Resuming(job);
            },
            StreamStage::Resuming(job) => {
                match event {
                    StreamEvent::Failed(error) => {
                        reports.push(
                            StreamReport::Error(say(job.resume_label(), "", error.as_str())),
                        );
                        self.stage = StreamStage::Closing;
                    },
                    _ => {
                        reports.push(StreamReport::StreamingStarted(self.rate));
                        self.stage = StreamStage::Requesting;
                    },
                }
            },
            StreamStage::Requesting => {
                match event {
                    StreamEvent::Failed(_) => {
                        self.errors = self.errors + 1;
                        if self.errors >= MAX_ERRORS {
                            reports.push(StreamReport::Error("Too many errors".to_owned()));
                            self.stage = StreamStage::Closing;
                        } else {
                            self.stage = StreamStage::Waiting;
                        }
                    },
                    StreamEvent::Unattended => {
                        self.errors = 0;
                        self.stage = StreamStage::Closing;
                    },
                    _ => {
                        self.errors = 0;
                        self.stage = StreamStage::Waiting;
                    },
                }
            },
            StreamStage::Waiting => {
                self.stage = StreamStage::Listening;
            },
            StreamStage::Closing => {
                reports.push(StreamReport::Disconnected);
                self.stage = StreamStage::Ended;
            },
            StreamStage::Ended => {},
        }
        assert(reports_of(reports@) =~= old(self).step(event@).reports);
        reports
    }

    /// Follows a command.
    fn command(&mut self, command: UsbCommand)
        ensures
            *final(self) == old(self).commanded(command).session,
            old(self).commanded(command).reports.len() == 0,
            old(self).errors < MAX_ERRORS ==> final(self).well_formed(),
    {
        match command {
            UsbCommand::SetSampleRate(rate) => {
                if rate != self.rate {
                    self.stage = StreamStage::Slowing(rate);
                } else {
                    self.stage = StreamStage::Requesting;
                }
            },
            UsbCommand::SetPdTraceEnabled(enabled) => {
                self.pd_trace = enabled;
                self.stage = StreamStage::Requesting;
            },
            UsbCommand::RequestOfflineCatalog => {
                self.stage = StreamStage::Pausing(OfflineJob::Catalog);
            },
            UsbCommand::DownloadOfflineLog(row) => {
                self.stage = StreamStage::Pausing(OfflineJob::Download(row));
            },
            UsbCommand::Disconnect => {
                self.stage = StreamStage::Closing;
            },
            UsbCommand::Connect(_, _) => {
                self.stage = StreamStage::Requesting;
            },
        }
    }
}

/// What of a packet is handed on.
#[derive(Debug, Clone, Copy, PartialEq, Eq, Structural)]
pub struct PacketParts {
    /// The number of samples, where the packet has a queue of them.
    pub samples: Option<usize>,
    /// Whether the packet has protocol events.
    pub events: bool,
    /// Whether the packet has a status.
    pub status: bool,
    /// The number of state events of the firmware's trace.
    pub trace_states: usize,
    /// The number of protocol events of the firmware's trace.
    pub trace_protocol: usize,
}

impl PacketParts {
    /// Whether the samples are handed on: only where there are any.
    pub fn hands_on_samples(self) -> (handed: bool)
        ensures
            handed == (self.samples matches Some(count) && count > 0),
    {
        match self.samples {
            Some(count) => count > 0,
            None => false,
        }
    }

    /// Whether the trace is handed on: only where it says anything.
    pub fn hands_on_trace(self) -> (handed: bool)
        ensures
            handed == (self.trace_states > 0 || self.trace_protocol > 0),
    {
        self.trace_states > 0 || self.trace_protocol > 0
    }
}

/// The reports of a run of events.
pub open spec fn reported_over(session: StreamingSession, events: Seq<StreamFacts>) -> Seq<
    ReportFacts,
>
    decreases events.len(),
{
    if events.len() == 0 {
        Seq::empty()
    } else {
        reported_over(session, events.drop_last()) + session_after(
            session,
            events.drop_last(),
        ).step(events.last()).reports
    }
}

/// The conversation after a run of events.
pub open spec fn session_after(
    session: StreamingSession,
    events: Seq<StreamFacts>,
) -> StreamingSession
    decreases events.len(),
{
    if events.len() == 0 {
        session
    } else {
        session_after(session, events.drop_last()).step(events.last()).session
    }
}

/// Whether a report ends a conversation.
pub open spec fn is_last_word(report: ReportFacts) -> bool {
    report == ReportFacts::Disconnected || report is ConnectionFailed
}

/// A conversation that took up a job of the device's memory streams again
/// before it asks for samples, at the rate it streamed at before, or it ends:
/// the interface is told of the stop and of the start.
pub proof fn law_offline_jobs_pause_and_resume_streaming(
    session: StreamingSession,
    job: OfflineJob,
    paused: StreamFacts,
    fetched: StreamFacts,
    resumed: StreamFacts,
)
    requires
        session.stage == StreamStage::Pausing(job),
        !(paused is Failed),
    ensures
        ({
            let stopped = session.step(paused);
            let read = stopped.session.step(fetched);
            let started = read.session.step(resumed);
            &&& stopped.reports == seq![ReportFacts::StreamingStopped]
            &&& read.session.stage == StreamStage::Resuming(job)
            &&& !(resumed is Failed) ==> started.session.stage == StreamStage::Requesting
                && started.reports == seq![ReportFacts::StreamingStarted(session.rate)]
                && started.session.rate == session.rate
            &&& resumed is Failed ==> started.session.stage == StreamStage::Closing
        }),
{
}

/// The trace of the firmware is asked for exactly as long as the last command
/// about it says so.
pub proof fn law_trace_is_collected_only_when_wanted(
    session: StreamingSession,
    event: StreamFacts,
)
    ensures
        session.step(event).session.pd_trace == (if session.stage == StreamStage::Listening {
            match event {
                StreamFacts::Command(UsbCommand::SetPdTraceEnabled(enabled)) => enabled,
                _ => session.pd_trace,
            }
        } else {
            session.pd_trace
        }),
{
}

/// The rate changes only once the device streams at the new one: a restart
/// that fails leaves the old rate in force.
pub proof fn law_rate_changes_only_with_the_device(session: StreamingSession, event: StreamFacts)
    ensures
        session.step(event).session.rate != session.rate ==> {
            &&& session.stage == StreamStage::Restarting(session.step(event).session.rate)
            &&& !(event is Failed)
            &&& session.step(event).reports == seq![
                ReportFacts::StreamingStarted(session.step(event).session.rate),
            ]
        },
{
}

/// Ten failed requests in a row end the conversation, and a request that works
/// starts the count anew.
pub proof fn law_repeated_failures_end_the_conversation(
    session: StreamingSession,
    event: StreamFacts,
)
    requires
        session.well_formed(),
        session.stage == StreamStage::Requesting,
    ensures
        ({
            let after = session.step(event).session;
            &&& event is Failed ==> after.errors == session.errors + 1
            &&& event is Failed && session.errors + 1 == MAX_ERRORS ==> after.stage
                == StreamStage::Closing
            &&& event is Failed && session.errors + 1 < MAX_ERRORS ==> after.stage
                == StreamStage::Waiting
            &&& !(event is Failed) ==> after.errors == 0
        }),
{
}

/// Whatever happens in a conversation, nothing is reported before the
/// connection or its failure, the end is reported exactly when the
/// conversation is over, and nothing is reported after it.
pub proof fn law_the_end_is_reported_once(
    session: StreamingSession,
    events: Seq<StreamFacts>,
)
    requires
        session.stage is Opening,
    ensures
        ({
            let after = session_after(session, events);
            let reports = reported_over(session, events);
            &&& reports.len() == 0 <==> after.stage is Opening
            &&& reports.len() > 0 ==> reports[0] == ReportFacts::Connected || (reports[0]
                is ConnectionFailed && after.stage is Ended)
            &&& after.stage is Ended <==> reports.len() > 0 && is_last_word(reports.last())
            &&& forall|i: int| 0 <= i < reports.len() - 1 ==> !is_last_word(#[trigger] reports[i])
        }),
    decreases events.len(),
{
    if events.len() > 0 {
        law_the_end_is_reported_once(session, events.drop_last());
        let before = session_after(session, events.drop_last());
        let reports = reported_over(session, events.drop_last());
        let step = before.step(events.last());
        assert(step.reports.len() <= 2);
        assert(reported_over(session, events) == reports + step.reports);
        assert forall|i: int| 0 <= i < reported_over(session, events).len() - 1 implies
            !is_last_word(#[trigger] reported_over(session, events)[i]) by {
            if i < reports.len() - 1 {
                assert(reported_over(session, events)[i] == reports[i]);
            } else if i == reports.len() - 1 {
                assert(reported_over(session, events)[i] == reports.last());
            } else {
                assert(reported_over(session, events)[i] == step.reports[i - reports.len()]);
            }
        }
    }
}

/// A device that streams samples is connected, stopped and started, and the
/// interface is told so; one that does not, or that cannot be opened, is told
/// to have failed and is not asked for anything.
pub proof fn law_a_conversation_opens_before_it_streams(
    session: StreamingSession,
    cleared: StreamFacts,
    started: StreamFacts,
    error: Seq<char>,
)
    requires
        session.stage is Opening,
        !(started is Failed),
    ensures
        ({
            let opened = session.step(StreamFacts::Opened(true));
            let clear = opened.session.step(cleared);
            let ready = clear.session.step(started);
            &&& opened.reports == seq![ReportFacts::Connected]
            &&& opened.session.stage == StreamStage::Clearing
            &&& clear.session.stage == StreamStage::Starting
            &&& clear.reports.len() == 0
            &&& ready.session.stage == StreamStage::Listening
            &&& ready.reports == seq![ReportFacts::StreamingStarted(session.rate)]
            &&& ready.session.rate == session.rate
            &&& ready.session.errors == session.errors
        }),
        session.step(StreamFacts::Opened(false)).session.stage == StreamStage::Ended,
        session.step(StreamFacts::Opened(false)).reports == seq![
            ReportFacts::ConnectionFailed("AdcQueue not enabled"@),
        ],
        session.step(StreamFacts::Failed(error)).session.stage == StreamStage::Ended,
        session.step(StreamFacts::Failed(error)).reports == seq![
            ReportFacts::ConnectionFailed(error),
        ],
{
}

/// A new rate is taken up by stopping and starting again: the device is then
/// said to stream at it, and it is asked for data. Where it does not start
/// again the old rate stays and the error is told. The rate that is already in
/// force interrupts nothing.
pub proof fn law_a_new_rate_restarts_the_stream(
    session: StreamingSession,
    rate: GraphSampleRate,
    stopped: StreamFacts,
    started: StreamFacts,
)
    requires
        session.stage == StreamStage::Listening,
    ensures
        ({
            let told = session.step(StreamFacts::Command(UsbCommand::SetSampleRate(rate)));
            let stop = told.session.step(stopped);
            let start = stop.session.step(started);
            &&& rate == session.rate ==> told.session.stage == StreamStage::Requesting
                && told.reports.len() == 0
            &&& rate != session.rate ==> {
                &&& told.reports.len() == 0
                &&& stop.reports == seq![ReportFacts::StreamingStopped]
                &&& !(started is Failed) ==> start.session.rate == rate && start.session.stage
                    == StreamStage::Requesting && start.reports == seq![
                    ReportFacts::StreamingStarted(rate),
                ]
                &&& started is Failed ==> start.session.rate == session.rate
                    && start.session.stage == StreamStage::Listening && start.reports.len() == 1
                    && start.reports[0] is Error
            }
        }),
{
}

/// A command about the device's memory leads to that job and to no other, and
/// the command to disconnect leads to the end, which is reported.
pub proof fn law_commands_lead_where_they_say(
    session: StreamingSession,
    row: usize,
    event: StreamFacts,
)
    requires
        session.stage == StreamStage::Listening,
        !(event is Failed),
    ensures
        session.step(
            StreamFacts::Command(UsbCommand::RequestOfflineCatalog),
        ).session.step(event).session.stage == StreamStage::Fetching(OfflineJob::Catalog),
        session.step(
            StreamFacts::Command(UsbCommand::DownloadOfflineLog(row)),
        ).session.step(event).session.stage == StreamStage::Fetching(OfflineJob::Download(row)),
        ({
            let told = session.step(StreamFacts::Command(UsbCommand::Disconnect));
            let ended = told.session.step(event);
            &&& told.reports.len() == 0
            &&& ended.session.stage == StreamStage::Ended
            &&& ended.reports == seq![ReportFacts::Disconnected]
        }),
        session.step(StreamFacts::Unattended).session.step(event).session.stage
            == StreamStage::Ended,
{
}

/// While nothing is commanded the device is asked again and again: after each
/// answer there is a wait, then a look for commands, then the next request.
pub proof fn law_requests_go_on(session: StreamingSession, waited: StreamFacts)
    requires
        session.stage == StreamStage::Requesting,
    ensures
        ({
            let answered = session.step(StreamFacts::Done);
            let ready = answered.session.step(waited);
            let asked = ready.session.step(StreamFacts::NoCommand);
            &&& answered.session.stage == StreamStage::Waiting
            &&& answered.reports.len() == 0
            &&& ready.session.stage == StreamStage::Listening
            &&& ready.reports.len() == 0
            &&& asked.session == (StreamingSession { errors: 0, ..session })
            &&& asked.reports.len() == 0
        }),
{
}

/// The conversation after some rounds in which a request fails and nothing
/// else happens.
pub open spec fn after_failed_rounds(
    session: StreamingSession,
    error: Seq<char>,
    rounds: nat,
) -> StreamingSession
    decreases rounds,
{
    if rounds == 0 {
        session
    } else {
        let before = after_failed_rounds(session, error, (rounds - 1) as nat);
        before.step(StreamFacts::Failed(error)).session.step(StreamFacts::Done).session.step(
            StreamFacts::NoCommand,
        ).session
    }
}

/// Nine failures in a row are borne, and the tenth ends the conversation.
pub proof fn law_the_tenth_failure_in_a_row_ends_the_conversation(
    session: StreamingSession,
    error: Seq<char>,
    rounds: nat,
)
    requires
        session.stage == StreamStage::Requesting,
        session.errors == 0,
    ensures
        rounds < 10 ==> after_failed_rounds(session, error, rounds) == (StreamingSession {
            errors: rounds as u32,
            ..session
        }),
        rounds == 9 ==> {
            let last = after_failed_rounds(session, error, rounds).step(StreamFacts::Failed(error));
            &&& last.session.stage == StreamStage::Closing
            &&& last.reports == seq![ReportFacts::Error("Too many errors"@)]
        },
    decreases rounds,
{
    if 0 < rounds < 10 {
        law_the_tenth_failure_in_a_row_ends_the_conversation(session, error, (rounds - 1) as nat);
    }
}

} // verus!
