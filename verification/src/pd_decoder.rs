//! The power protocol shown on the monitor page: what a decoded USB Power
//! Delivery event says, how it changes the negotiation, and how it reads in the
//! protocol log.
use vstd::prelude::*;
use vstd::string::*;

use crate::i18n::Language;
use crate::pd_log::{
    confirmation_entry, confirmation_entry_text, entry, entry_text,
};
use crate::pd_quantity::{PdQuantity, PdStep};
use crate::text::{append_decimal, decimal, texts};

verus! {

/// Category of a decoded PD entry, used for color-coding in the interface.
#[derive(Debug, Clone, Copy, PartialEq, Eq, Structural)]
pub enum PdCategory {
    Connect,
    Disconnect,
    SourceCaps,
    Request,
    Control,
    Extended,
    Contract,
    Error,
}

/// A single decoded PD log entry for display.
#[derive(Debug, Clone)]
pub struct DecodedPdEntry {
    pub timestamp_ms: u64,
    pub category: PdCategory,
    pub summary: String,
    pub details: Vec<String>,
}

/// What a log entry holds, as text.
pub struct PdEntryText {
    pub timestamp_ms: u64,
    pub category: PdCategory,
    pub summary: Seq<char>,
    pub details: Seq<Seq<char>>,
}

impl View for DecodedPdEntry {
    type V = PdEntryText;

    open spec fn view(&self) -> PdEntryText {
        PdEntryText {
            timestamp_ms: self.timestamp_ms,
            category: self.category,
            summary: self.summary@,
            details: texts(self.details@),
        }
    }
}

/// The kind of supply that a contract was made for.
#[derive(Debug, Clone, Copy, PartialEq, Eq, Structural)]
pub enum PdContractKind {
    Fixed,
    Variable,
    Battery,
    Pps,
    EprFixed,
    EprPps,
    Avs,
    Unknown,
}

impl PdContractKind {
    /// The Chinese name of the kind.
    pub open spec fn name(self) -> Seq<char> {
        match self {
            PdContractKind::Fixed => "USB PD 固定档"@,
            PdContractKind::Variable => "USB PD 可变档"@,
            PdContractKind::Battery => "USB PD 电池档"@,
            PdContractKind::Pps => "USB PD PPS"@,
            PdContractKind::EprFixed => "USB PD EPR 固定档"@,
            PdContractKind::EprPps => "USB PD EPR PPS"@,
            PdContractKind::Avs => "USB PD EPR AVS"@,
            PdContractKind::Unknown => "USB PD"@,
        }
    }

    /// The name of the kind in `language`.
    pub open spec fn localized_name(self, language: Language) -> Seq<char> {
        language.chosen(
            self.name(),
            match self {
                PdContractKind::Fixed => "USB PD Fixed Supply"@,
                PdContractKind::Variable => "USB PD Variable Supply"@,
                PdContractKind::Battery => "USB PD Battery Supply"@,
                PdContractKind::EprFixed => "USB PD EPR Fixed Supply"@,
                _ => self.name(),
            },
        )
    }

    /// Whether the contract was made for an augmented object.
    pub open spec fn augmented(self) -> bool {
        self == PdContractKind::Pps || self == PdContractKind::EprPps || self
            == PdContractKind::Avs
    }

    /// The Chinese name of the kind.
    pub fn label(self) -> (label: &'static str)
        ensures
            label@ == self.name(),
    {
        match self {
            PdContractKind::Fixed => "USB PD 固定档",
            PdContractKind::Variable => "USB PD 可变档",
            PdContractKind::Battery => "USB PD 电池档",
            PdContractKind::Pps => "USB PD PPS",
            PdContractKind::EprFixed => "USB PD EPR 固定档",
            PdContractKind::EprPps => "USB PD EPR PPS",
            PdContractKind::Avs => "USB PD EPR AVS",
            PdContractKind::Unknown => "USB PD",
        }
    }

    /// The name of the kind in `language`.
    pub fn localized_label(self, language: Language) -> (label: &'static str)
        ensures
            label@ == self.localized_name(language),
    {
        match self {
            PdContractKind::Fixed => language.pick("USB PD 固定档", "USB PD Fixed Supply"),
            PdContractKind::Variable => language.pick("USB PD 可变档", "USB PD Variable Supply"),
            PdContractKind::Battery => language.pick("USB PD 电池档", "USB PD Battery Supply"),
            PdContractKind::Pps => "USB PD PPS",
            PdContractKind::EprFixed => language.pick("USB PD EPR 固定档", "USB PD EPR Fixed Supply"),
            PdContractKind::EprPps => "USB PD EPR PPS",
            PdContractKind::Avs => "USB PD EPR AVS",
            PdContractKind::Unknown => "USB PD",
        }
    }

    /// The abbreviation of the object that the contract was made for.
    pub fn object_label(self) -> (label: &'static str)
        ensures
            label@ == (if self.augmented() { "APDO"@ } else { "PDO"@ }),
    {
        match self {
            PdContractKind::Pps | PdContractKind::EprPps | PdContractKind::Avs => "APDO",
            _ => "PDO",
        }
    }
}

/// A power contract as far as the request spells it out.
#[derive(Debug, Clone, Copy, PartialEq, Eq, Structural)]
pub struct PdContract {
    pub kind: PdContractKind,
    pub object_position: u8,
    pub voltage: Option<PdQuantity>,
    pub current: Option<PdQuantity>,
    pub power: Option<PdQuantity>,
}

impl PdContract {
    /// The object that the contract was made for.
    pub open spec fn object_text(self) -> Seq<char> {
        (if self.kind.augmented() { "APDO"@ } else { "PDO"@ }) + "#"@ + decimal(
            self.object_position as nat,
        )
    }

    /// One line under the kind's name `name`.
    pub open spec fn summary_text(self, name: Seq<char>) -> Seq<char> {
        let head = name + " · "@ + self.object_text();
        match (self.voltage, self.current, self.power) {
            (Some(voltage), Some(current), _) => head + " · "@ + voltage.shortest() + "V / "@
                + current.shortest() + "A"@,
            (Some(voltage), None, Some(power)) => head + " · "@ + voltage.shortest() + "V / "@
                + power.shortest() + "W"@,
            (None, _, Some(power)) => head + " · "@ + power.shortest() + "W"@,
            (None, Some(current), None) => head + " · "@ + current.shortest() + "A"@,
            _ => head,
        }
    }

    /// One line under the kind's name `name`.
    fn summary_under(self, name: &str) -> (text: String)
        ensures
            text@ == self.summary_text(name@),
    {
        let mut object = self.kind.object_label().to_owned();
        object.append("#");
        append_decimal(&mut object, self.object_position as u128);
        let mut text = name.to_owned();
        text.append(" · ");
        text.append(object.as_str());
        match (self.voltage, self.current, self.power) {
            (Some(voltage), Some(current), _) => {
                text.append(" · ");
                voltage.append_shortest(&mut text);
                text.append("V / ");
                current.append_shortest(&mut text);
                text.append("A");
            },
            (Some(voltage), None, Some(power)) => {
                text.append(" · ");
                voltage.append_shortest(&mut text);
                text.append("V / ");
                power.append_shortest(&mut text);
                text.append("W");
            },
            (_, _, Some(power)) => {
                text.append(" · ");
                power.append_shortest(&mut text);
                text.append("W");
            },
            (_, Some(current), _) => {
                text.append(" · ");
                current.append_shortest(&mut text);
                text.append("A");
            },
            _ => {},
        }
        text
    }

    /// One Chinese line.
    pub fn summary(self) -> (text: String)
        ensures
            text@ == self.summary_text(self.kind.name()),
    {
        self.summary_under(self.kind.label())
    }

    /// One line in `language`.
    pub fn localized_summary(self, language: Language) -> (text: String)
        ensures
            text@ == self.summary_text(self.kind.localized_name(language)),
    {
        self.summary_under(self.kind.localized_label(language))
    }
}

/// What is known of the power protocol.
#[derive(Debug, Clone, Copy, PartialEq, Eq, Structural)]
pub enum PowerProtocolState {
    Unavailable,
    Disconnected,
    Waiting,
    TraditionalUnconfirmed,
    PdDetected,
    Negotiating(PdContract),
    Confirmed(PdContract),
}

impl PowerProtocolState {
    /// The contract that is being negotiated or in force.
    pub open spec fn shown_contract(self) -> Option<PdContract> {
        match self {
            PowerProtocolState::Negotiating(contract) => Some(contract),
            PowerProtocolState::Confirmed(contract) => Some(contract),
            _ => None,
        }
    }

    /// The status text in `language`.
    pub open spec fn status_text(self, language: Language) -> Seq<char> {
        match self {
            PowerProtocolState::Unavailable => language.chosen("无协议数据"@, "No protocol data"@),
            PowerProtocolState::Disconnected => language.chosen(
                "Type-C 未连接"@,
                "Type-C disconnected"@,
            ),
            PowerProtocolState::Waiting => language.chosen(
                "等待协商"@,
                "Waiting for negotiation"@,
            ),
            PowerProtocolState::TraditionalUnconfirmed => language.chosen(
                "协议未确认"@,
                "Protocol unconfirmed"@,
            ),
            PowerProtocolState::PdDetected => language.chosen("检测到 USB PD"@, "USB PD detected"@),
            PowerProtocolState::Negotiating(_) => language.chosen(
                "PD 协商中"@,
                "PD negotiation in progress"@,
            ),
            PowerProtocolState::Confirmed(_) => language.chosen("已确认"@, "Confirmed"@),
        }
    }

    /// The status text in `language`.
    pub fn localized_status_label(self, language: Language) -> (label: &'static str)
        ensures
            label@ == self.status_text(language),
    {
        match self {
            PowerProtocolState::Unavailable => language.pick("无协议数据", "No protocol data"),
            PowerProtocolState::Disconnected => language.pick("Type-C 未连接", "Type-C disconnected"),
            PowerProtocolState::Waiting => language.pick("等待协商", "Waiting for negotiation"),
            PowerProtocolState::TraditionalUnconfirmed => language.pick(
                "协议未确认",
                "Protocol unconfirmed",
            ),
            PowerProtocolState::PdDetected => language.pick("检测到 USB PD", "USB PD detected"),
            PowerProtocolState::Negotiating(_) => language.pick(
                "PD 协商中",
                "PD negotiation in progress",
            ),
            PowerProtocolState::Confirmed(_) => language.pick("已确认", "Confirmed"),
        }
    }

    /// The contract that is being negotiated or in force.
    pub fn contract(self) -> (contract: Option<PdContract>)
        ensures
            contract == self.shown_contract(),
    {
        match self {
            PowerProtocolState::Negotiating(contract)
            | PowerProtocolState::Confirmed(contract) => Some(contract),
            _ => None,
        }
    }
}

/// A fixed-supply object: 50 mV and 10 mA steps.
#[derive(Debug, Clone, Copy, PartialEq, Eq, Structural)]
pub struct FixedSupply {
    /// The object's 32 bits.
    pub raw: u32,
    pub voltage: u16,
    pub max_current: u16,
    pub dual_role_power: bool,
    pub usb_communications_capable: bool,
    pub dual_role_data: bool,
    pub unconstrained_power: bool,
    pub epr_mode_capable: bool,
}

/// A battery object: 50 mV and 250 mW steps.
#[derive(Debug, Clone, Copy, PartialEq, Eq, Structural)]
pub struct BatterySupply {
    pub min_voltage: u16,
    pub max_voltage: u16,
    pub max_power: u16,
}

/// A variable-supply object: 50 mV and 10 mA steps.
#[derive(Debug, Clone, Copy, PartialEq, Eq, Structural)]
pub struct VariableSupply {
    pub min_voltage: u16,
    pub max_voltage: u16,
    pub max_current: u16,
}

/// A programmable object of the standard range: 100 mV and 50 mA steps.
#[derive(Debug, Clone, Copy, PartialEq, Eq, Structural)]
pub struct SprPps {
    pub min_voltage: u16,
    pub max_voltage: u16,
    pub max_current: u16,
    pub power_limited: bool,
}

/// An adjustable object of the extended range: 100 mV and 1 W steps.
#[derive(Debug, Clone, Copy, PartialEq, Eq, Structural)]
pub struct EprAvs {
    pub min_voltage: u16,
    pub max_voltage: u16,
    pub pd_power: u16,
}

/// An augmented object.
#[derive(Debug, Clone, Copy, PartialEq, Eq, Structural)]
pub enum Augmented {
    Spr(SprPps),
    Epr(EprAvs),
    Unknown(u32),
}

/// One offer of a source.
#[derive(Debug, Clone, Copy, PartialEq, Eq, Structural)]
pub enum PowerDataObject {
    FixedSupply(FixedSupply),
    Battery(BatterySupply),
    VariableSupply(VariableSupply),
    Augmented(Augmented),
    Unknown(u32),
}

/// A request for a fixed or variable supply: 10 mA steps.
#[derive(Debug, Clone, Copy, PartialEq, Eq, Structural)]
pub struct FixedRequest {
    pub object_position: u8,
    pub operating_current: u16,
    pub max_operating_current: u16,
}

/// A request for a battery supply: 250 mW steps.
#[derive(Debug, Clone, Copy, PartialEq, Eq, Structural)]
pub struct BatteryRequest {
    pub object_position: u8,
    pub operating_power: u16,
}

/// A request with a voltage setpoint: 50 mA steps, and 20 mV steps for PPS or
/// 25 mV steps for AVS.
#[derive(Debug, Clone, Copy, PartialEq, Eq, Structural)]
pub struct SetpointRequest {
    pub object_position: u8,
    pub output_voltage: u16,
    pub operating_current: u16,
}

/// A request in extended-range mode, with the object that it copies.
#[derive(Debug, Clone)]
pub struct EprRequest {
    /// The request's 32 bits.
    pub rdo: u32,
    pub object_position: u8,
    /// The bits read as a fixed request, in 10 mA steps.
    pub operating_current: u16,
    pub max_operating_current: u16,
    /// The bits read as a setpoint request, in 25 mV and 50 mA steps.
    pub output_voltage: u16,
    pub setpoint_current: u16,
    pub pdo: PowerDataObject,
    /// The object's diagnostic rendering.
    pub pdo_text: String,
}

/// A request whose kind is not known, read as a fixed request in 10 mA steps.
#[derive(Debug, Clone, Copy, PartialEq, Eq, Structural)]
pub struct RawRequest {
    pub raw: u32,
    pub object_position: u8,
    pub operating_current: u16,
}

/// What a sink asks for.
#[derive(Debug, Clone)]
pub enum PowerSource {
    FixedVariableSupply(FixedRequest),
    Battery(BatteryRequest),
    Pps(SetpointRequest),
    Avs(SetpointRequest),
    EprRequest(EprRequest),
    Unknown(RawRequest),
}

/// The control messages that take part in a negotiation.
#[derive(Debug, Clone, Copy, PartialEq, Eq, Structural)]
pub enum PdControl {
    Accept,
    PsRdy,
    Reject,
    Wait,
    SoftReset,
    /// Any other control message, and every message that is none.
    Other,
}

/// What a message carries. Texts are the diagnostic renderings of parts that
/// only the log shows.
#[derive(Debug, Clone)]
pub enum PdPayload {
    SourceCapabilities(Vec<PowerDataObject>),
    Request(PowerSource),
    EprMode(String),
    UnknownData,
    OtherData(String),
    EprSourceCapabilities(Vec<PowerDataObject>),
    ExtendedControl { message_type: String, data: u8 },
    OtherExtended(String),
}

/// A decoded message.
#[derive(Debug, Clone)]
pub struct PdMessage {
    pub timestamp_ms: u64,
    pub sop: u8,
    pub control: PdControl,
    pub type_text: String,
    pub message_id: u8,
    pub power_role: String,
    pub data_role: String,
    pub payload: Option<PdPayload>,
    /// What the source offers, as the decoder of the wire knows it once it has
    /// read this message.
    pub offers: Option<Vec<PowerDataObject>>,
}

impl PdMessage {
    /// What the source offers.
    pub open spec fn offered(self) -> Option<Seq<PowerDataObject>> {
        match self.offers {
            Some(pdos) => Some(pdos@),
            None => None,
        }
    }
}

/// Progress of a chunked message.
#[derive(Debug, Clone, Copy, PartialEq, Eq, Structural)]
pub enum PdChunkState {
    Request { chunk_number: u8 },
    Pending { received_chunk: u8, next_chunk: u8 },
    Requested { chunk_number: u8 },
    Unsupported { chunk_number: u8, data_size: u16 },
}

/// A chunk of a message that is not complete.
#[derive(Debug, Clone)]
pub struct PdChunkStatus {
    pub timestamp_ms: u64,
    pub sop: u8,
    pub type_text: String,
    pub state: PdChunkState,
}

/// A message that could not be decoded.
#[derive(Debug, Clone)]
pub struct PdFailure {
    pub timestamp_ms: u64,
    pub sop: u8,
    pub error: String,
    pub wire_data: Vec<u8>,
}

/// One event of the capture.
#[derive(Debug, Clone)]
pub enum PdEvent {
    Connect { timestamp_ms: u64 },
    Disconnect { timestamp_ms: u64 },
    Message(PdMessage),
    Chunk(PdChunkStatus),
    Error(PdFailure),
}

/// What a decoder remembers between events.
pub struct PdSession {
    pub state: PowerProtocolState,
    /// The contract that was asked for and is not in force.
    pub pending: Option<PdContract>,
    /// The contract in force.
    pub active: Option<PdContract>,
    /// Whether the source accepted the pending contract.
    pub accepted: bool,
}

impl PdSession {
    /// Nothing is connected and nothing is known.
    pub open spec fn initial() -> PdSession {
        PdSession {
            state: PowerProtocolState::Disconnected,
            pending: None,
            active: None,
            accepted: false,
        }
    }

    /// The state says what the contracts say.
    pub open spec fn well_formed(self) -> bool {
        &&& self.accepted ==> self.pending is Some
        &&& match self.state {
            PowerProtocolState::Disconnected | PowerProtocolState::Waiting
            | PowerProtocolState::PdDetected => self.pending is None && self.active is None,
            PowerProtocolState::Negotiating(contract) => self.pending == Some(contract),
            PowerProtocolState::Confirmed(contract) => self.pending is None && self.active == Some(
                contract,
            ),
            _ => false,
        }
    }

    /// The state with no contract pending: the one in force, or none.
    pub open spec fn settled(self) -> PdSession {
        PdSession {
            pending: None,
            accepted: false,
            state: match self.active {
                Some(contract) => PowerProtocolState::Confirmed(contract),
                None => PowerProtocolState::PdDetected,
            },
            ..self
        }
    }

    /// What is remembered after a message between source and sink.
    pub open spec fn after_port_message(self, message: PdMessage) -> PdSession {
        match message.payload {
            Some(PdPayload::SourceCapabilities(_)) => self.settled(),
            Some(PdPayload::EprSourceCapabilities(_)) => self.settled(),
            Some(PdPayload::Request(request)) => {
                let contract = requested_contract(request, message.offered());
                PdSession {
                    pending: Some(contract),
                    accepted: false,
                    state: PowerProtocolState::Negotiating(contract),
                    ..self
                }
            },
            _ => match message.control {
                PdControl::Accept if self.pending is Some => PdSession { accepted: true, ..self },
                PdControl::PsRdy if self.accepted && self.pending is Some => PdSession {
                    active: self.pending,
                    pending: None,
                    accepted: false,
                    state: PowerProtocolState::Confirmed(self.pending->0),
                    ..self
                },
                PdControl::Reject | PdControl::Wait => self.settled(),
                PdControl::SoftReset => PdSession {
                    pending: None,
                    active: None,
                    accepted: false,
                    state: PowerProtocolState::PdDetected,
                    ..self
                },
                _ => self,
            },
        }
    }

    /// What is remembered after `event`.
    pub open spec fn after(self, event: PdEvent) -> PdSession {
        match event {
            PdEvent::Connect { .. } => PdSession {
                state: PowerProtocolState::Waiting,
                ..PdSession::initial()
            },
            PdEvent::Disconnect { .. } => PdSession::initial(),
            PdEvent::Message(message) => if message.sop == 0 {
                self.after_port_message(message)
            } else {
                self
            },
            _ => self,
        }
    }

    /// What is remembered after all of `events`, in order.
    pub open spec fn after_all(self, events: Seq<PdEvent>) -> PdSession
        decreases events.len(),
    {
        if events.len() == 0 {
            self
        } else {
            self.after_all(events.drop_last()).after(events.last())
        }
    }

    /// The state to show, given whether the meter senses a connection.
    pub open spec fn shown(self, connected: Option<bool>) -> PowerProtocolState {
        match self.state {
            PowerProtocolState::Disconnected | PowerProtocolState::Waiting => match connected {
                Some(true) => PowerProtocolState::TraditionalUnconfirmed,
                None => PowerProtocolState::Waiting,
                Some(false) => PowerProtocolState::Disconnected,
            },
            state => state,
        }
    }
}

/// The offer that `position` selects.
pub open spec fn selected_offer(
    position: u8,
    capabilities: Option<Seq<PowerDataObject>>,
) -> Option<PowerDataObject> {
    let index = if position == 0 { 0int } else { position - 1 };
    match capabilities {
        Some(pdos) if index < pdos.len() => Some(pdos[index]),
        _ => None,
    }
}

/// A count of `step`.
pub open spec fn quantity(count: u16, step: PdStep) -> Option<PdQuantity> {
    Some(PdQuantity { count, step })
}

/// The contract that `request` asks for, read with the offers that the source
/// made last.
pub open spec fn requested_contract(
    request: PowerSource,
    capabilities: Option<Seq<PowerDataObject>>,
) -> PdContract {
    match request {
        PowerSource::FixedVariableSupply(fixed) => {
            let current = quantity(fixed.operating_current, PdStep::Milli10);
            let (kind, voltage, power) = match selected_offer(fixed.object_position, capabilities) {
                Some(PowerDataObject::FixedSupply(offer)) => (
                    PdContractKind::Fixed,
                    quantity(offer.voltage, PdStep::Milli50),
                    None,
                ),
                Some(PowerDataObject::VariableSupply(offer)) => (
                    PdContractKind::Variable,
                    quantity(offer.max_voltage, PdStep::Milli50),
                    None,
                ),
                Some(PowerDataObject::Battery(offer)) => (
                    PdContractKind::Battery,
                    None,
                    quantity(offer.max_power, PdStep::Milli250),
                ),
                _ => (PdContractKind::Fixed, None, None),
            };
            PdContract { kind, object_position: fixed.object_position, voltage, current, power }
        },
        PowerSource::Battery(battery) => PdContract {
            kind: PdContractKind::Battery,
            object_position: battery.object_position,
            voltage: None,
            current: None,
            power: quantity(battery.operating_power, PdStep::Milli250),
        },
        PowerSource::Pps(setpoint) => PdContract {
            kind: PdContractKind::Pps,
            object_position: setpoint.object_position,
            voltage: quantity(setpoint.output_voltage, PdStep::Milli20),
            current: quantity(setpoint.operating_current, PdStep::Milli50),
            power: None,
        },
        PowerSource::Avs(setpoint) => PdContract {
            kind: PdContractKind::Avs,
            object_position: setpoint.object_position,
            voltage: quantity(setpoint.output_voltage, PdStep::Milli25),
            current: quantity(setpoint.operating_current, PdStep::Milli50),
            power: None,
        },
        PowerSource::EprRequest(epr) => {
            let (kind, voltage, current, power) = match epr.pdo {
                PowerDataObject::FixedSupply(offer) => (
                    PdContractKind::EprFixed,
                    quantity(offer.voltage, PdStep::Milli50),
                    quantity(epr.operating_current, PdStep::Milli10),
                    None,
                ),
                PowerDataObject::Augmented(Augmented::Spr(_)) => (
                    PdContractKind::EprPps,
                    quantity(epr.output_voltage, PdStep::Milli25),
                    quantity(epr.setpoint_current, PdStep::Milli50),
                    None,
                ),
                PowerDataObject::Augmented(Augmented::Epr(offer)) => (
                    PdContractKind::Avs,
                    quantity(epr.output_voltage, PdStep::Milli25),
                    quantity(epr.setpoint_current, PdStep::Milli50),
                    quantity(offer.pd_power, PdStep::Milli1000),
                ),
                PowerDataObject::Battery(offer) => (
                    PdContractKind::Battery,
                    None,
                    None,
                    quantity(offer.max_power, PdStep::Milli250),
                ),
                PowerDataObject::VariableSupply(offer) => (
                    PdContractKind::Variable,
                    quantity(offer.max_voltage, PdStep::Milli50),
                    None,
                    None,
                ),
                _ => (PdContractKind::Unknown, None, None, None),
            };
            PdContract { kind, object_position: epr.object_position, voltage, current, power }
        },
        PowerSource::Unknown(raw) => PdContract {
            kind: PdContractKind::Unknown,
            object_position: raw.object_position,
            voltage: None,
            current: quantity(raw.operating_current, PdStep::Milli10),
            power: None,
        },
    }
}

/// The offers of `capabilities`.
pub open spec fn offers(capabilities: Option<&Vec<PowerDataObject>>) -> Option<
    Seq<PowerDataObject>,
> {
    match capabilities {
        Some(pdos) => Some(pdos@),
        None => None,
    }
}

/// The offer that `position` selects.
pub fn selected_pdo(position: u8, capabilities: Option<&Vec<PowerDataObject>>) -> (selected: Option<
    PowerDataObject,
>)
    ensures
        selected == selected_offer(position, offers(capabilities)),
{
    let index: usize = if position == 0 {
        0
    } else {
        (position - 1) as usize
    };
    match capabilities {
        Some(pdos) => if index < pdos.len() {
            Some(pdos[index])
        } else {
            None
        },
        None => None,
    }
}

/// The contract that `request` asks for, read with the offers that the source
/// made last.
pub fn contract_from_request(
    request: &PowerSource,
    capabilities: Option<&Vec<PowerDataObject>>,
) -> (contract: Option<PdContract>)
    ensures
        contract == Some(requested_contract(*request, offers(capabilities))),
{
    match request {
        PowerSource::FixedVariableSupply(fixed) => {
            let current = Some(PdQuantity::new(fixed.operating_current, PdStep::Milli10));
            let (kind, voltage, power) = match selected_pdo(fixed.object_position, capabilities) {
                Some(PowerDataObject::FixedSupply(offer)) => (
                    PdContractKind::Fixed,
                    Some(PdQuantity::new(offer.voltage, PdStep::Milli50)),
                    None,
                ),
                Some(PowerDataObject::VariableSupply(offer)) => (
                    PdContractKind::Variable,
                    Some(PdQuantity::new(offer.max_voltage, PdStep::Milli50)),
                    None,
                ),
                Some(PowerDataObject::Battery(offer)) => (
                    PdContractKind::Battery,
                    None,
                    Some(PdQuantity::new(offer.max_power, PdStep::Milli250)),
                ),
                _ => (PdContractKind::Fixed, None, None),
            };
            Some(
                PdContract {
                    kind,
                    object_position: fixed.object_position,
                    voltage,
                    current,
                    power,
                },
            )
        },
        PowerSource::Battery(battery) => Some(
            PdContract {
                kind: PdContractKind::Battery,
                object_position: battery.object_position,
                voltage: None,
                current: None,
                power: Some(PdQuantity::new(battery.operating_power, PdStep::Milli250)),
            },
        ),
        PowerSource::Pps(setpoint) => Some(
            PdContract {
                kind: PdContractKind::Pps,
                object_position: setpoint.object_position,
                voltage: Some(PdQuantity::new(setpoint.output_voltage, PdStep::Milli20)),
                current: Some(PdQuantity::new(setpoint.operating_current, PdStep::Milli50)),
                power: None,
            },
        ),
        PowerSource::Avs(setpoint) => Some(
            PdContract {
                kind: PdContractKind::Avs,
                object_position: setpoint.object_position,
                voltage: Some(PdQuantity::new(setpoint.output_voltage, PdStep::Milli25)),
                current: Some(PdQuantity::new(setpoint.operating_current, PdStep::Milli50)),
                power: None,
            },
        ),
        PowerSource::EprRequest(epr) => {
            let (kind, voltage, current, power) = match epr.pdo {
                PowerDataObject::FixedSupply(offer) => (
                    PdContractKind::EprFixed,
                    Some(PdQuantity::new(offer.voltage, PdStep::Milli50)),
                    Some(PdQuantity::new(epr.operating_current, PdStep::Milli10)),
                    None,
                ),
                PowerDataObject::Augmented(Augmented::Spr(_)) => (
                    PdContractKind::EprPps,
                    Some(PdQuantity::new(epr.output_voltage, PdStep::Milli25)),
                    Some(PdQuantity::new(epr.setpoint_current, PdStep::Milli50)),
                    None,
                ),
                PowerDataObject::Augmented(Augmented::Epr(offer)) => (
                    PdContractKind::Avs,
                    Some(PdQuantity::new(epr.output_voltage, PdStep::Milli25)),
                    Some(PdQuantity::new(epr.setpoint_current, PdStep::Milli50)),
                    Some(PdQuantity::new(offer.pd_power, PdStep::Milli1000)),
                ),
                PowerDataObject::Battery(offer) => (
                    PdContractKind::Battery,
                    None,
                    None,
                    Some(PdQuantity::new(offer.max_power, PdStep::Milli250)),
                ),
                PowerDataObject::VariableSupply(offer) => (
                    PdContractKind::Variable,
                    Some(PdQuantity::new(offer.max_voltage, PdStep::Milli50)),
                    None,
                    None,
                ),
                _ => (PdContractKind::Unknown, None, None, None),
            };
            Some(
                PdContract {
                    kind,
                    object_position: epr.object_position,
                    voltage,
                    current,
                    power,
                },
            )
        },
        PowerSource::Unknown(raw) => Some(
            PdContract {
                kind: PdContractKind::Unknown,
                object_position: raw.object_position,
                voltage: None,
                current: Some(PdQuantity::new(raw.operating_current, PdStep::Milli10)),
                power: None,
            },
        ),
    }
}

/// The decoder behind the protocol page: it follows the negotiation and writes
/// the log.
pub struct PdDecoder {
    protocol_state: PowerProtocolState,
    pending_contract: Option<PdContract>,
    active_contract: Option<PdContract>,
    pending_accepted: bool,
}

impl View for PdDecoder {
    type V = PdSession;

    closed spec fn view(&self) -> PdSession {
        PdSession {
            state: self.protocol_state,
            pending: self.pending_contract,
            active: self.active_contract,
            accepted: self.pending_accepted,
        }
    }
}

/// The entries that `event` adds to the log of a decoder in `session`.
pub open spec fn log_entries(session: PdSession, event: PdEvent) -> Seq<PdEntryText> {
    let next = session.after(event);
    let first = entry_text(event);
    match next.state {
        PowerProtocolState::Confirmed(contract) if session.state != next.state => seq![
            first,
            confirmation_entry_text(first.timestamp_ms, contract),
        ],
        _ => seq![first],
    }
}

impl PdDecoder {
    /// A decoder to which nothing is connected.
    pub fn new() -> (decoder: PdDecoder)
        ensures
            decoder@ == PdSession::initial(),
    {
        PdDecoder {
            protocol_state: PowerProtocolState::Disconnected,
            pending_contract: None,
            active_contract: None,
            pending_accepted: false,
        }
    }

    /// Forgets everything.
    pub fn reset(&mut self)
        ensures
            final(self)@ == PdSession::initial(),
    {
        self.protocol_state = PowerProtocolState::Disconnected;
        self.pending_contract = None;
        self.active_contract = None;
        self.pending_accepted = false;
    }

    /// What the events so far say of the protocol.
    pub fn protocol_state(&self) -> (state: PowerProtocolState)
        ensures
            state == self@.state,
    {
        self.protocol_state
    }

    /// The state to show, given whether the meter senses a connection.
    pub fn display_state(&self, connected: Option<bool>) -> (state: PowerProtocolState)
        ensures
            state == self@.shown(connected),
    {
        match self.protocol_state {
            PowerProtocolState::PdDetected
            | PowerProtocolState::Negotiating(_)
            | PowerProtocolState::Confirmed(_) => self.protocol_state,
            PowerProtocolState::Disconnected | PowerProtocolState::Waiting => match connected {
                Some(true) => PowerProtocolState::TraditionalUnconfirmed,
                None => PowerProtocolState::Waiting,
                Some(false) => PowerProtocolState::Disconnected,
            },
            state => state,
        }
    }

    /// Follows `event` and returns the entries that it adds to the log.
    pub fn decode_event(&mut self, event: &PdEvent) -> (entries: Vec<DecodedPdEntry>)
        ensures
            final(self)@ == old(self)@.after(*event),
            entries@.map_values(|e: DecodedPdEntry| e@) == log_entries(old(self)@, *event),
    {
        let previous_state = self.protocol_state;
        self.observe(event);
        let first = entry(event);
        let timestamp_ms: u64 = first.timestamp_ms;
        let mut entries: Vec<DecodedPdEntry> = Vec::new();
        entries.push(first);
        if let PowerProtocolState::Confirmed(contract) = self.protocol_state {
            if previous_state != self.protocol_state {
                entries.push(confirmation_entry(timestamp_ms, contract));
            }
        }
        assert(entries@.map_values(|e: DecodedPdEntry| e@) =~= log_entries(old(self)@, *event));
        entries
    }

    /// Follows `event`.
    fn observe(&mut self, event: &PdEvent)
        ensures
            final(self)@ == old(self)@.after(*event),
    {
        match event {
            PdEvent::Connect { .. } => {
                self.reset();
                self.protocol_state = PowerProtocolState::Waiting;
            },
            PdEvent::Disconnect { .. } => {
                self.reset();
            },
            PdEvent::Message(message) => {
                // SOP' and SOP'' describe cable traffic, not the contract
                // between source and sink.
                if message.sop == 0 {
                    self.observe_message(message);
                }
            },
            PdEvent::Chunk(_) | PdEvent::Error(_) => {},
        }
    }

    /// Returns to the contract in force, if there is one.
    fn settle(&mut self)
        ensures
            final(self)@ == old(self)@.settled(),
    {
        self.pending_contract = None;
        self.pending_accepted = false;
        self.protocol_state = match self.active_contract {
            Some(contract) => PowerProtocolState::Confirmed(contract),
            None => PowerProtocolState::PdDetected,
        };
    }

    /// Follows a message between source and sink.
    fn observe_message(&mut self, message: &PdMessage)
        ensures
            final(self)@ == old(self)@.after_port_message(*message),
    {
        match &message.payload {
            Some(PdPayload::SourceCapabilities(_)) | Some(PdPayload::EprSourceCapabilities(_)) => {
                self.settle();
            },
            Some(PdPayload::Request(request)) => {
                self.pending_contract = contract_from_request(request, message.offers.as_ref());
                self.pending_accepted = false;
                self.protocol_state = match self.pending_contract {
                    Some(contract) => PowerProtocolState::Negotiating(contract),
                    None => PowerProtocolState::PdDetected,
                };
            },
            _ => match message.control {
                PdControl::Accept => {
                    if self.pending_contract.is_some() {
                        self.pending_accepted = true;
                    }
                },
                PdControl::PsRdy => {
                    if self.pending_accepted {
                        if let Some(contract) = self.pending_contract {
                            self.pending_contract = None;
                            self.active_contract = Some(contract);
                            self.pending_accepted = false;
                            self.protocol_state = PowerProtocolState::Confirmed(contract);
                        }
                    }
                },
                PdControl::Reject | PdControl::Wait => {
                    self.settle();
                },
                PdControl::SoftReset => {
                    self.pending_contract = None;
                    self.active_contract = None;
                    self.pending_accepted = false;
                    self.protocol_state = PowerProtocolState::PdDetected;
                },
                PdControl::Other => {},
            },
        }
    }
}

} // verus!
