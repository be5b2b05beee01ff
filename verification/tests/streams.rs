//! The conversation with the device.
use km003c_workbench::measurement::GraphSampleRate;
use km003c_workbench::streaming::{
    idle_command, request_delay_ms, streaming_attribute_mask, Attribute, OfflineJob, PacketParts, StreamEvent,
    StreamReport, StreamStage, StreamingSession, UsbCommand, MAX_ERRORS,
};

/// A conversation that has just heard no command.
fn requesting() -> StreamingSession {
    let mut session = StreamingSession::new(GraphSampleRate::Sps50, false);
    while session.stage != StreamStage::Listening {
        let event = match session.stage {
            StreamStage::Opening(_) => StreamEvent::Opened(true),
            _ => StreamEvent::Done,
        };
        session.advance(event);
    }
    session.advance(StreamEvent::NoCommand);
    assert_eq!(session.stage, StreamStage::Requesting);
    session
}

/// A conversation that waits for a command.
fn listening() -> StreamingSession {
    let mut session = requesting();
    while session.stage != StreamStage::Listening {
        session.advance(StreamEvent::Done);
    }
    session
}

#[test]
fn firmware_trace_is_only_requested_when_enabled() {
    let disabled = streaming_attribute_mask(false);
    assert!(disabled.contains(Attribute::AdcQueue));
    assert!(disabled.contains(Attribute::PdPacket));
    assert!(!disabled.contains(Attribute::PdTrace));

    let enabled = streaming_attribute_mask(true);
    assert!(enabled.contains(Attribute::AdcQueue));
    assert!(enabled.contains(Attribute::PdPacket));
    assert!(enabled.contains(Attribute::PdTrace));
}

#[test]
fn only_a_connection_starts_a_conversation() {
    assert_eq!(
        idle_command(UsbCommand::Connect(GraphSampleRate::Sps10, true)),
        Some((GraphSampleRate::Sps10, true))
    );
    assert_eq!(idle_command(UsbCommand::Disconnect), None);
    assert_eq!(idle_command(UsbCommand::RequestOfflineCatalog), None);
}

#[test]
fn a_conversation_opens_and_streams() {
    let mut session = StreamingSession::new(GraphSampleRate::Sps50, false);
    let mut started = false;
    let mut connected = false;
    while session.stage != StreamStage::Listening {
        let event = match session.stage {
            StreamStage::Opening(_) => StreamEvent::Opened(true),
            _ => StreamEvent::Done,
        };
        for report in session.advance(event) {
            match report {
                StreamReport::Connected => connected = true,
                StreamReport::StreamingStarted(rate) => {
                    assert_eq!(rate, GraphSampleRate::Sps50);
                    started = true;
                }
                other => panic!("{other:?}"),
            }
        }
    }
    assert!(connected && started);
}

#[test]
fn a_device_that_cannot_be_opened_ends_the_conversation() {
    let mut session = StreamingSession::new(GraphSampleRate::Sps50, true);
    let reports = session.advance(StreamEvent::Failed("busy".to_string()));
    assert!(matches!(&reports[0], StreamReport::ConnectionFailed(error) if error.contains("busy")));
    assert_eq!(session.stage, StreamStage::Ended);
}

#[test]
fn offline_jobs_pause_and_resume_streaming() {
    let mut session = listening();
    assert!(session.advance(StreamEvent::Command(UsbCommand::RequestOfflineCatalog)).is_empty());
    assert_eq!(session.stage, StreamStage::Pausing(OfflineJob::Catalog));
    let reports = session.advance(StreamEvent::Done);
    assert!(matches!(reports[..], [StreamReport::StreamingStopped]));
    assert_eq!(session.stage, StreamStage::Fetching(OfflineJob::Catalog));
    let reports = session.advance(StreamEvent::Done);
    assert!(matches!(reports[..], [StreamReport::OfflineFetched]));
    assert_eq!(session.stage, StreamStage::Resuming(OfflineJob::Catalog));
    let reports = session.advance(StreamEvent::Done);
    assert!(matches!(reports[..], [StreamReport::StreamingStarted(GraphSampleRate::Sps50)]));
}

#[test]
fn a_fetch_that_fails_still_resumes_streaming() {
    let mut session = listening();
    session.advance(StreamEvent::Command(UsbCommand::DownloadOfflineLog(2)));
    assert_eq!(session.stage, StreamStage::Pausing(OfflineJob::Download(2)));
    session.advance(StreamEvent::Done);
    let reports = session.advance(StreamEvent::Failed("timeout".to_string()));
    assert!(matches!(&reports[0], StreamReport::OfflineFailed(error) if error.contains("timeout")));
    assert_eq!(session.stage, StreamStage::Resuming(OfflineJob::Download(2)));
}

#[test]
fn the_rate_changes_once_the_device_has_changed_it() {
    let mut session = listening();
    session.advance(StreamEvent::Command(UsbCommand::SetSampleRate(GraphSampleRate::Sps1000)));
    assert_eq!(session.rate, GraphSampleRate::Sps50);
    session.advance(StreamEvent::Done);
    let reports = session.advance(StreamEvent::Done);
    assert!(matches!(reports[..], [StreamReport::StreamingStarted(GraphSampleRate::Sps1000)]));
    assert_eq!(session.rate, GraphSampleRate::Sps1000);
    assert!(request_delay_ms(GraphSampleRate::Sps1000) <= request_delay_ms(GraphSampleRate::Sps2));
}

#[test]
fn the_trace_is_collected_when_it_is_wanted() {
    let mut session = listening();
    assert!(!session.pd_trace);
    session.advance(StreamEvent::Command(UsbCommand::SetPdTraceEnabled(true)));
    assert!(session.pd_trace);
}

#[test]
fn repeated_failures_end_the_conversation_once() {
    let mut session = requesting();
    let mut ends = 0;
    let mut failures = 0;
    while session.stage != StreamStage::Ended {
        let event = match session.stage {
            StreamStage::Requesting => {
                failures += 1;
                StreamEvent::Failed("stall".to_string())
            }
            StreamStage::Listening => StreamEvent::NoCommand,
            _ => StreamEvent::Done,
        };
        for report in session.advance(event) {
            if matches!(report, StreamReport::Disconnected) {
                ends += 1;
            }
        }
    }
    assert_eq!(failures, MAX_ERRORS);
    assert_eq!(ends, 1);
    assert!(session.advance(StreamEvent::Done).is_empty());
}

#[test]
fn a_disconnection_stops_and_ends() {
    let mut session = listening();
    session.advance(StreamEvent::Command(UsbCommand::Disconnect));
    assert_eq!(session.stage, StreamStage::Closing);
    let reports = session.advance(StreamEvent::Done);
    assert!(reports.iter().any(|report| matches!(report, StreamReport::Disconnected)));
    assert_eq!(session.stage, StreamStage::Ended);
    let mut unattended = listening();
    unattended.advance(StreamEvent::Unattended);
    assert!(matches!(unattended.stage, StreamStage::Closing | StreamStage::Ended));
}

#[test]
fn empty_packets_are_not_handed_on() {
    let parts = |samples, trace_states, trace_protocol| PacketParts {
        samples,
        events: false,
        status: false,
        trace_states,
        trace_protocol,
    };
    assert!(parts(Some(3), 0, 0).hands_on_samples());
    assert!(!parts(Some(0), 0, 0).hands_on_samples());
    assert!(!parts(None, 0, 0).hands_on_samples());
    assert!(parts(None, 0, 1).hands_on_trace());
    assert!(!parts(None, 0, 0).hands_on_trace());
}
