//! Power Delivery: the decoder, its log and the panel.
use km003c_workbench::i18n::Language;
use km003c_workbench::options::PlotSource;
use km003c_workbench::pd_decoder::{
    contract_from_request, Augmented, BatteryRequest, DecodedPdEntry, FixedRequest, FixedSupply, PdCategory,
    PdChunkState, PdChunkStatus, PdContractKind, PdControl, PdDecoder, PdEvent, PdFailure, PdMessage, PdPayload,
    PowerDataObject, PowerProtocolState, PowerSource, SetpointRequest, SprPps,
};
use km003c_workbench::pd_log::{format_capabilities, format_pdo, format_request};
use km003c_workbench::pd_panel::{protocol_summary, PdPanel};
use km003c_workbench::pd_quantity::{append_whole_watts, PdQuantity, PdStep};
use km003c_workbench::streaming::UsbCommand;
use km003c_workbench::timeline::{
    extend_log, pd_timeline_entries, PdTimelineEntry, PdTraceCategory, PdTraceEntry, PROTOCOL_ENTRIES,
};
use std::collections::VecDeque;

/// A fixed supply as its 32-bit object describes it.
fn fixed(raw: u32) -> PowerDataObject {
    PowerDataObject::FixedSupply(FixedSupply {
        raw,
        voltage: ((raw >> 10) & 0x3ff) as u16,
        max_current: (raw & 0x3ff) as u16,
        dual_role_power: raw >> 29 & 1 == 1,
        usb_communications_capable: raw >> 26 & 1 == 1,
        dual_role_data: raw >> 25 & 1 == 1,
        unconstrained_power: raw >> 27 & 1 == 1,
        epr_mode_capable: raw >> 23 & 1 == 1,
    })
}

/// The capabilities of a captured charger: 5, 9, 12, 15 and 20 volts, and a
/// programmable supply.
fn capabilities() -> Vec<PowerDataObject> {
    vec![
        fixed(0x0801_912c),
        fixed(0x0002_d12c),
        fixed(0x0003_c12c),
        fixed(0x0004_b12c),
        fixed(0x0006_4145),
        PowerDataObject::Augmented(Augmented::Spr(SprPps {
            min_voltage: 33,
            max_voltage: 110,
            max_current: 60,
            power_limited: false,
        })),
    ]
}

/// The captured request: the second object at 2.2 amperes.
fn request() -> PowerSource {
    PowerSource::FixedVariableSupply(FixedRequest {
        object_position: 2,
        operating_current: 220,
        max_operating_current: 220,
    })
}

fn message(timestamp_ms: u64, control: PdControl, type_text: &str, payload: Option<PdPayload>) -> PdEvent {
    PdEvent::Message(PdMessage {
        timestamp_ms,
        sop: 0,
        control,
        type_text: type_text.to_string(),
        message_id: 1,
        power_role: "Source".to_string(),
        data_role: "Dfp".to_string(),
        payload,
        offers: Some(capabilities()),
    })
}

fn source_capabilities() -> PdEvent {
    message(
        1,
        PdControl::Other,
        "Source_Capabilities",
        Some(PdPayload::SourceCapabilities(capabilities())),
    )
}

fn requested() -> PdEvent {
    message(2, PdControl::Other, "Request", Some(PdPayload::Request(request())))
}

#[test]
fn confirms_a_contract_only_after_request_accept_and_ps_rdy() {
    let mut decoder = PdDecoder::new();

    decoder.decode_event(&source_capabilities());
    assert_eq!(decoder.protocol_state(), PowerProtocolState::PdDetected);

    decoder.decode_event(&requested());
    let PowerProtocolState::Negotiating(contract) = decoder.protocol_state() else {
        panic!("request must create a pending contract");
    };
    assert_eq!(contract.kind, PdContractKind::Fixed);
    assert_eq!(contract.object_position, 2);
    assert_eq!(contract.voltage.map(PdQuantity::milli), Some(9_000));

    decoder.decode_event(&message(3, PdControl::Accept, "Accept", None));
    assert!(matches!(decoder.protocol_state(), PowerProtocolState::Negotiating(_)));

    let entries = decoder.decode_event(&message(4, PdControl::PsRdy, "PS_RDY", None));
    let PowerProtocolState::Confirmed(contract) = decoder.protocol_state() else {
        panic!("PS_RDY after Accept must confirm the contract");
    };
    assert_eq!(contract.summary(), "USB PD 固定档 · PDO#2 · 9V / 2.2A");
    assert!(entries.iter().any(|entry| entry.category == PdCategory::Contract));
    assert!(matches!(decoder.display_state(Some(false)), PowerProtocolState::Confirmed(_)));

    decoder.decode_event(&PdEvent::Disconnect { timestamp_ms: 5 });
    assert_eq!(decoder.display_state(Some(false)), PowerProtocolState::Disconnected);
}

#[test]
fn source_capabilities_or_rejected_request_never_claim_an_active_contract() {
    let mut decoder = PdDecoder::new();

    decoder.decode_event(&source_capabilities());
    assert_eq!(decoder.protocol_state(), PowerProtocolState::PdDetected);
    decoder.decode_event(&requested());
    assert!(matches!(decoder.protocol_state(), PowerProtocolState::Negotiating(_)));
    decoder.decode_event(&message(3, PdControl::Reject, "Reject", None));
    assert_eq!(decoder.protocol_state(), PowerProtocolState::PdDetected);
    // Power that comes ready without an accepted request confirms nothing.
    decoder.decode_event(&message(4, PdControl::PsRdy, "PS_RDY", None));
    assert_eq!(decoder.protocol_state(), PowerProtocolState::PdDetected);
}

#[test]
fn typed_requests_preserve_pps_and_avs_setpoints() {
    let pps = SetpointRequest { object_position: 3, output_voltage: 442, operating_current: 50 };
    let pps_contract = contract_from_request(&PowerSource::Pps(pps), None).unwrap();
    assert_eq!(pps_contract.kind, PdContractKind::Pps);
    assert_eq!(pps_contract.voltage.map(PdQuantity::milli), Some(8_840));
    assert_eq!(pps_contract.current.map(PdQuantity::milli), Some(2_500));
    assert_eq!(pps_contract.summary(), "USB PD PPS · APDO#3 · 8.84V / 2.5A");

    let avs = SetpointRequest { object_position: 8, output_voltage: 1_120, operating_current: 60 };
    let avs_contract = contract_from_request(&PowerSource::Avs(avs), None).unwrap();
    assert_eq!(avs_contract.kind, PdContractKind::Avs);
    assert_eq!(avs_contract.voltage.map(PdQuantity::milli), Some(28_000));
    assert_eq!(avs_contract.current.map(PdQuantity::milli), Some(3_000));
    assert_eq!(avs_contract.summary(), "USB PD EPR AVS · APDO#8 · 28V / 3A");
}

#[test]
fn attached_without_pd_messages_is_explicitly_unconfirmed() {
    let decoder = PdDecoder::new();
    assert_eq!(decoder.display_state(Some(true)), PowerProtocolState::TraditionalUnconfirmed);
    assert_eq!(decoder.display_state(Some(false)), PowerProtocolState::Disconnected);
}

#[test]
fn a_soft_reset_and_a_restart_forget_the_contract() {
    let mut decoder = PdDecoder::new();
    for event in [
        source_capabilities(),
        requested(),
        message(3, PdControl::Accept, "Accept", None),
        message(4, PdControl::PsRdy, "PS_RDY", None),
    ] {
        decoder.decode_event(&event);
    }
    assert!(decoder.protocol_state().contract().is_some());
    decoder.decode_event(&message(5, PdControl::SoftReset, "Soft_Reset", None));
    assert!(!matches!(decoder.protocol_state(), PowerProtocolState::Confirmed(_)));
    decoder.reset();
    assert_eq!(decoder.protocol_state(), PdDecoder::new().protocol_state());
}

#[test]
fn quantities_are_written_as_short_as_they_are() {
    let mut text = String::new();
    PdQuantity::new(220, PdStep::Milli10).append_shortest(&mut text);
    text.push(' ');
    PdQuantity::new(180, PdStep::Milli50).append_shortest(&mut text);
    text.push(' ');
    PdQuantity::new(180, PdStep::Milli50).append_fixed(&mut text, 2);
    text.push(' ');
    append_whole_watts(
        &mut text,
        PdQuantity::new(400, PdStep::Milli50),
        PdQuantity::new(325, PdStep::Milli10),
    );
    assert_eq!(text, "2.2 9 9.00 65");
}

#[test]
fn supplies_and_requests_are_spelled_out_in_the_log() {
    let objects = capabilities();
    assert_eq!(format_pdo(&objects[0]), "Fixed 5V @ 3.0A (15W) [UP]");
    assert_eq!(format_pdo(&objects[5]), "PPS 3.3-11.0V @ 3.0A (33W)");
    assert_eq!(format_pdo(&PowerDataObject::Unknown(0xab)), "Unknown(0x000000AB)");
    let mut with_gap = capabilities();
    with_gap.push(fixed(0));
    let lines = format_capabilities(&with_gap, "EPR Source Capabilities");
    assert_eq!(lines.len(), 8);
    assert_eq!(lines[0], "[EPR Source Capabilities]");
    assert_eq!(lines[2], "PDO[2]: Fixed 9V @ 3.0A (27W)");
    assert_eq!(lines[7], "PDO[7]: --- (separator) ---");
    assert_eq!(format_request(&request(), Some(&objects)), ["RDO: PDO#2 (Fixed 9V @ 3.0A (27W)) @ 2.2A"]);
    assert_eq!(format_request(&request(), None), ["RDO: PDO#2 @ 2.2A (Max 2.2A)"]);
    let battery = PowerSource::Battery(BatteryRequest { object_position: 1, operating_power: 40 });
    assert_eq!(format_request(&battery, None), ["RDO: Requesting Battery PDO#1 @ 10.00W"]);
    assert_eq!(contract_from_request(&battery, None).unwrap().power.map(PdQuantity::milli), Some(10_000));
}

#[test]
fn failures_and_chunks_are_logged() {
    let mut decoder = PdDecoder::new();
    let failed = decoder.decode_event(&PdEvent::Error(PdFailure {
        timestamp_ms: 9,
        sop: 0,
        error: "bad CRC".to_string(),
        wire_data: vec![0xa1, 0x03],
    }));
    assert_eq!(failed.len(), 1);
    assert_eq!(failed[0].category, PdCategory::Error);
    assert_eq!(failed[0].timestamp_ms, 9);
    assert_eq!(failed[0].summary, "[0.009s] SOP0: Parse error: bad CRC");
    assert_eq!(failed[0].details, ["Hex: [A1, 03]"]);
    let chunk = decoder.decode_event(&PdEvent::Chunk(PdChunkStatus {
        timestamp_ms: 10,
        sop: 0,
        type_text: "EPR_Source_Capabilities".to_string(),
        state: PdChunkState::Pending { received_chunk: 0, next_chunk: 1 },
    }));
    assert_eq!(chunk[0].category, PdCategory::Extended);
    assert_eq!(
        chunk[0].summary,
        "[0.010s] SOP0: EPR_Source_Capabilities chunk 0 received, waiting for chunk 1"
    );
}

#[test]
fn pd_timeline_filters_and_orders_both_sources() {
    let protocol_log = VecDeque::from([DecodedPdEntry {
        timestamp_ms: 12_250,
        category: PdCategory::Control,
        summary: "wire".to_string(),
        details: Vec::new(),
    }]);
    let trace_log = VecDeque::from([PdTraceEntry {
        timestamp_ms: 11_000,
        category: PdTraceCategory::TypeCState,
        summary: "trace".to_string(),
    }]);

    let combined = pd_timeline_entries(&protocol_log, &trace_log, true, true);
    assert!(matches!(combined[0], PdTimelineEntry::FirmwareTrace(_)));
    assert!(matches!(combined[1], PdTimelineEntry::Protocol(_)));

    let protocol_only = pd_timeline_entries(&protocol_log, &trace_log, true, false);
    assert_eq!(protocol_only.len(), 1);
    assert!(matches!(protocol_only[0], PdTimelineEntry::Protocol(_)));
}

#[test]
fn entries_of_one_time_keep_their_order() {
    let entry = |summary: &str| DecodedPdEntry {
        timestamp_ms: 7,
        category: PdCategory::Control,
        summary: summary.to_string(),
        details: Vec::new(),
    };
    let protocol_log = VecDeque::from([entry("a"), entry("b")]);
    let trace_log = VecDeque::from([PdTraceEntry {
        timestamp_ms: 7,
        category: PdTraceCategory::Unknown,
        summary: "c".to_string(),
    }]);
    assert_eq!(
        pd_timeline_entries(&protocol_log, &trace_log, true, true),
        vec![PdTimelineEntry::Protocol(0), PdTimelineEntry::Protocol(1), PdTimelineEntry::FirmwareTrace(0)]
    );
    assert!(pd_timeline_entries(&protocol_log, &trace_log, false, false).is_empty());
}

#[test]
fn logs_keep_their_newest_entries() {
    let mut log: VecDeque<u32> = VecDeque::new();
    extend_log(&mut log, vec![1, 2, 3], 4);
    extend_log(&mut log, vec![4, 5], 4);
    assert_eq!(log, VecDeque::from([2, 3, 4, 5]));

    let mut panel = PdPanel::new();
    let events: Vec<PdEvent> =
        (0..PROTOCOL_ENTRIES as u64 + 3).map(|index| PdEvent::Connect { timestamp_ms: index }).collect();
    panel.receive_events(&events);
    assert_eq!(panel.log.len(), PROTOCOL_ENTRIES);
    assert_eq!(panel.log[0].timestamp_ms, 3);
    panel.clear_pd_log();
    assert!(panel.timeline().is_empty());
}

#[test]
fn contracts_are_shown_of_a_live_device_alone() {
    let mut panel = PdPanel::new();
    panel.receive_events(&vec![
        source_capabilities(),
        requested(),
        message(3, PdControl::Accept, "Accept", None),
        message(4, PdControl::PsRdy, "PS_RDY", None),
    ]);
    let live = panel.displayed_protocol_state(PlotSource::Live, false, true, Some(true));
    assert!(matches!(live, PowerProtocolState::Confirmed(_)));
    assert!(protocol_summary(live, Language::SimplifiedChinese).contains("9V / 2.2A"));
    for source in [PlotSource::Offline, PlotSource::Imported] {
        let shown = panel.displayed_protocol_state(source, false, true, Some(true));
        assert_eq!(shown, PowerProtocolState::Unavailable);
    }
    let unplugged = panel.displayed_protocol_state(PlotSource::Live, false, false, Some(true));
    assert!(unplugged.contract().is_none());
}

#[test]
fn the_trace_is_asked_for_of_a_connected_device() {
    let mut panel = PdPanel::new();
    assert_eq!(panel.set_trace_enabled(true, false), None);
    assert!(panel.trace_enabled);
    assert_eq!(panel.set_trace_enabled(false, true), Some(UsbCommand::SetPdTraceEnabled(false)));
}
