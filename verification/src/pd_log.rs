//! How a decoded event reads in the protocol log.
use vstd::prelude::*;
use vstd::string::*;

use crate::pd_decoder::{
    offers, selected_offer, selected_pdo, Augmented, DecodedPdEntry, EprRequest, FixedSupply,
    PdCategory, PdChunkState, PdChunkStatus, PdContract, PdEntryText, PdEvent, PdFailure, PdMessage,
    PdPayload, PowerDataObject, PowerSource,
};
use crate::pd_quantity::{append_whole_watts, whole_watts, PdQuantity, PdStep};
use crate::text::{
    append_decimal, append_padded, decimal, join, joined, padded, single, slice_texts, texts,
};

verus! {

/// `count` steps of `step` with `decimals` decimals.
pub open spec fn amount(count: u16, step: PdStep, decimals: nat) -> Seq<char> {
    (PdQuantity { count, step }).fixed(decimals)
}

/// Appends `count` steps of `step` with `decimals` decimals.
fn append_amount(text: &mut String, count: u16, step: PdStep, decimals: u8)
    requires
        decimals <= 3,
    ensures
        final(text)@ == old(text)@ + amount(count, step, decimals as nat),
{
    PdQuantity::new(count, step).append_fixed(text, decimals);
}

/// `value` as eight hexadecimal digits.
pub open spec fn word_text(value: u32) -> Seq<char> {
    "0x"@ + padded(value as nat, 16, 8)
}

/// Appends `value` as eight hexadecimal digits.
fn append_word(text: &mut String, value: u32)
    ensures
        final(text)@ == old(text)@ + word_text(value),
{
    text.append("0x");
    append_padded(text, value as u128, 16, 8);
    assert(text@ =~= old(text)@ + word_text(value));
}

/// The time stamp at the head of a line.
pub open spec fn stamp_text(timestamp_ms: u64) -> Seq<char> {
    "["@ + decimal((timestamp_ms / 1000) as nat) + "."@ + padded(timestamp_ms as nat, 10, 3) + "s] "@
}

/// The time stamp and the packet type at the head of a line.
pub open spec fn sop_text(timestamp_ms: u64, sop: u8) -> Seq<char> {
    stamp_text(timestamp_ms) + "SOP"@ + decimal(sop as nat) + ": "@
}

/// The time stamp at the head of a line.
fn stamp(timestamp_ms: u64) -> (text: String)
    ensures
        text@ == stamp_text(timestamp_ms),
{
    let mut text = "[".to_owned();
    append_decimal(&mut text, (timestamp_ms / 1000) as u128);
    text.append(".");
    append_padded(&mut text, timestamp_ms as u128, 10, 3);
    text.append("s] ");
    text
}

/// The time stamp and the packet type at the head of a line.
fn sop_head(timestamp_ms: u64, sop: u8) -> (text: String)
    ensures
        text@ == sop_text(timestamp_ms, sop),
{
    let mut text = stamp(timestamp_ms);
    text.append("SOP");
    append_decimal(&mut text, sop as u128);
    text.append(": ");
    text
}

/// The flags that a fixed supply sets, in the order of their bits.
pub open spec fn flag_names(fixed: FixedSupply) -> Seq<Seq<char>> {
    (if fixed.dual_role_power { seq!["DRP"@] } else { Seq::empty() })
        + (if fixed.usb_communications_capable { seq!["USB"@] } else { Seq::empty() })
        + (if fixed.dual_role_data { seq!["DRD"@] } else { Seq::empty() })
        + (if fixed.unconstrained_power { seq!["UP"@] } else { Seq::empty() })
        + (if fixed.epr_mode_capable { seq!["EPR"@] } else { Seq::empty() })
}

/// The flags of a fixed supply in brackets; nothing where none is set.
pub open spec fn flags_text(fixed: FixedSupply) -> Seq<char> {
    if flag_names(fixed).len() == 0 {
        Seq::empty()
    } else {
        " ["@ + joined(flag_names(fixed), ","@) + "]"@
    }
}

/// One offer.
pub open spec fn pdo_text(pdo: PowerDataObject) -> Seq<char> {
    match pdo {
        PowerDataObject::FixedSupply(fixed) => "Fixed "@ + amount(
            fixed.voltage,
            PdStep::Milli50,
            0,
        ) + "V @ "@ + amount(fixed.max_current, PdStep::Milli10, 1) + "A ("@ + whole_watts(
            PdQuantity { count: fixed.voltage, step: PdStep::Milli50 },
            PdQuantity { count: fixed.max_current, step: PdStep::Milli10 },
        ) + "W)"@ + flags_text(fixed),
        PowerDataObject::Battery(battery) => "Battery "@ + amount(
            battery.min_voltage,
            PdStep::Milli50,
            0,
        ) + "-"@ + amount(battery.max_voltage, PdStep::Milli50, 0) + "V @ "@ + amount(
            battery.max_power,
            PdStep::Milli250,
            0,
        ) + "W"@,
        PowerDataObject::VariableSupply(variable) => "Variable "@ + amount(
            variable.min_voltage,
            PdStep::Milli50,
            0,
        ) + "-"@ + amount(variable.max_voltage, PdStep::Milli50, 0) + "V @ "@ + amount(
            variable.max_current,
            PdStep::Milli10,
            1,
        ) + "A"@,
        PowerDataObject::Augmented(Augmented::Spr(pps)) => "PPS "@ + amount(
            pps.min_voltage,
            PdStep::Milli100,
            1,
        ) + "-"@ + amount(pps.max_voltage, PdStep::Milli100, 1) + "V @ "@ + amount(
            pps.max_current,
            PdStep::Milli50,
            1,
        ) + "A ("@ + whole_watts(
            PdQuantity { count: pps.max_voltage, step: PdStep::Milli100 },
            PdQuantity { count: pps.max_current, step: PdStep::Milli50 },
        ) + "W)"@ + (if pps.power_limited { " (limited)"@ } else { Seq::empty() }),
        PowerDataObject::Augmented(Augmented::Epr(avs)) => "EPR AVS "@ + amount(
            avs.min_voltage,
            PdStep::Milli100,
            0,
        ) + "-"@ + amount(avs.max_voltage, PdStep::Milli100, 0) + "V @ "@ + amount(
            avs.pd_power,
            PdStep::Milli1000,
            0,
        ) + "W"@,
        PowerDataObject::Augmented(Augmented::Unknown(raw)) => "Augmented("@ + word_text(raw)
            + ")"@,
        PowerDataObject::Unknown(raw) => "Unknown("@ + word_text(raw) + ")"@,
    }
}

/// The flags of a fixed supply in brackets; nothing where none is set.
fn format_flags(fixed: &FixedSupply) -> (text: String)
    ensures
        text@ == flags_text(*fixed),
{
    let mut flags: Vec<&'static str> = Vec::new();
    if fixed.dual_role_power {
        flags.push("DRP");
    }
    if fixed.usb_communications_capable {
        flags.push("USB");
    }
    if fixed.dual_role_data {
        flags.push("DRD");
    }
    if fixed.unconstrained_power {
        flags.push("UP");
    }
    if fixed.epr_mode_capable {
        flags.push("EPR");
    }
    assert(slice_texts(flags@) =~= flag_names(*fixed));
    if flags.len() == 0 {
        let text = String::new();
        assert(text@ =~= flags_text(*fixed));
        text
    } else {
        let mut text = " [".to_owned();
        let list = join(&flags, ",");
        text.append(list.as_str());
        text.append("]");
        text
    }
}

/// One offer.
pub fn format_pdo(pdo: &PowerDataObject) -> (text: String)
    ensures
        text@ == pdo_text(*pdo),
{
    match pdo {
        PowerDataObject::FixedSupply(fixed) => {
            let mut text = "Fixed ".to_owned();
            append_amount(&mut text, fixed.voltage, PdStep::Milli50, 0);
            text.append("V @ ");
            append_amount(&mut text, fixed.max_current, PdStep::Milli10, 1);
            text.append("A (");
            append_whole_watts(
                &mut text,
                PdQuantity::new(fixed.voltage, PdStep::Milli50),
                PdQuantity::new(fixed.max_current, PdStep::Milli10),
            );
            text.append("W)");
            let flags = format_flags(fixed);
            text.append(flags.as_str());
            text
        },
        PowerDataObject::Battery(battery) => {
            let mut text = "Battery ".to_owned();
            append_amount(&mut text, battery.min_voltage, PdStep::Milli50, 0);
            text.append("-");
            append_amount(&mut text, battery.max_voltage, PdStep::Milli50, 0);
            text.append("V @ ");
            append_amount(&mut text, battery.max_power, PdStep::Milli250, 0);
            text.append("W");
            text
        },
        PowerDataObject::VariableSupply(variable) => {
            let mut text = "Variable ".to_owned();
            append_amount(&mut text, variable.min_voltage, PdStep::Milli50, 0);
            text.append("-");
            append_amount(&mut text, variable.max_voltage, PdStep::Milli50, 0);
            text.append("V @ ");
            append_amount(&mut text, variable.max_current, PdStep::Milli10, 1);
            text.append("A");
            text
        },
        PowerDataObject::Augmented(Augmented::Spr(pps)) => {
            let mut text = "PPS ".to_owned();
            append_amount(&mut text, pps.min_voltage, PdStep::Milli100, 1);
            text.append("-");
            append_amount(&mut text, pps.max_voltage, PdStep::Milli100, 1);
            text.append("V @ ");
            append_amount(&mut text, pps.max_current, PdStep::Milli50, 1);
            text.append("A (");
            append_whole_watts(
                &mut text,
                PdQuantity::new(pps.max_voltage, PdStep::Milli100),
                PdQuantity::new(pps.max_current, PdStep::Milli50),
            );
            text.append("W)");
            if pps.power_limited {
                text.append(" (limited)");
            } else {
                assert(text@ =~= text@ + Seq::<char>::empty());
            }
            text
        },
        PowerDataObject::Augmented(Augmented::Epr(avs)) => {
            let mut text = "EPR AVS ".to_owned();
            append_amount(&mut text, avs.min_voltage, PdStep::Milli100, 0);
            text.append("-");
            append_amount(&mut text, avs.max_voltage, PdStep::Milli100, 0);
            text.append("V @ ");
            append_amount(&mut text, avs.pd_power, PdStep::Milli1000, 0);
            text.append("W");
            text
        },
        PowerDataObject::Augmented(Augmented::Unknown(raw)) => {
            let mut text = "Augmented(".to_owned();
            append_word(&mut text, *raw);
            text.append(")");
            text
        },
        PowerDataObject::Unknown(raw) => {
            let mut text = "Unknown(".to_owned();
            append_word(&mut text, *raw);
            text.append(")");
            text
        },
    }
}

/// The line of the offer at `index`: an all-zero fixed supply separates the two
/// ranges of an extended list.
pub open spec fn offer_line(pdos: Seq<PowerDataObject>, index: int) -> Seq<char> {
    "PDO["@ + decimal((index + 1) as nat) + (match pdos[index] {
        PowerDataObject::FixedSupply(fixed) if fixed.raw == 0 => "]: --- (separator) ---"@,
        pdo => "]: "@ + pdo_text(pdo),
    })
}

/// A list of offers under its title.
pub open spec fn capabilities_text(pdos: Seq<PowerDataObject>, title: Seq<char>) -> Seq<Seq<char>> {
    seq!["["@ + title + "]"@] + Seq::new(pdos.len(), |index: int| offer_line(pdos, index))
}

/// A list of offers under its title.
pub fn format_capabilities(capabilities: &Vec<PowerDataObject>, title: &str) -> (lines: Vec<String>)
    ensures
        texts(lines@) == capabilities_text(capabilities@, title@),
{
    let mut head = "[".to_owned();
    head.append(title);
    head.append("]");
    let mut lines = single(head);
    let mut index: usize = 0;
    while index < capabilities.len()
        invariant
            index <= capabilities.len(),
            texts(lines@) == capabilities_text(capabilities@, title@).take(index + 1),
        decreases capabilities.len() - index,
    {
        let mut line = "PDO[".to_owned();
        append_decimal(&mut line, index as u128 + 1);
        let separator = match capabilities[index] {
            PowerDataObject::FixedSupply(fixed) => fixed.raw == 0,
            _ => false,
        };
        if separator {
            line.append("]: --- (separator) ---");
        } else {
            let ghost head_text = line@;
            line.append("]: ");
            let pdo = format_pdo(&capabilities[index]);
            line.append(pdo.as_str());
            assert(line@ =~= head_text + ("]: "@ + pdo@));
        }
        let ghost text = capabilities_text(capabilities@, title@);
        let ghost before = texts(lines@);
        assert(line@ == text[index + 1]);
        lines.push(line);
        index += 1;
        assert(texts(lines@) =~= before.push(line@));
        assert(text.take(index + 1) =~= text.take(index as int).push(text[index as int]));
    }
    assert(texts(lines@) =~= capabilities_text(capabilities@, title@));
    lines
}

/// A request in extended-range mode.
pub open spec fn epr_request_text(epr: EprRequest) -> Seq<char> {
    match epr.pdo {
        PowerDataObject::FixedSupply(fixed) => "RDO: EPR Fixed PDO#"@ + decimal(
            epr.object_position as nat,
        ) + " ("@ + amount(fixed.voltage, PdStep::Milli50, 1) + "V) @ "@ + amount(
            epr.operating_current,
            PdStep::Milli10,
            2,
        ) + "A (Max "@ + amount(epr.max_operating_current, PdStep::Milli10, 2) + "A)"@,
        PowerDataObject::Augmented(Augmented::Spr(pps)) => "RDO: EPR PPS PDO#"@ + decimal(
            epr.object_position as nat,
        ) + " ("@ + amount(pps.min_voltage, PdStep::Milli100, 1) + "-"@ + amount(
            pps.max_voltage,
            PdStep::Milli100,
            1,
        ) + "V) @ "@ + amount(epr.output_voltage, PdStep::Milli25, 2) + "V / "@ + amount(
            epr.setpoint_current,
            PdStep::Milli50,
            2,
        ) + "A"@,
        PowerDataObject::Augmented(Augmented::Epr(avs)) => "RDO: EPR AVS PDO#"@ + decimal(
            epr.object_position as nat,
        ) + " ("@ + amount(avs.min_voltage, PdStep::Milli100, 1) + "-"@ + amount(
            avs.max_voltage,
            PdStep::Milli100,
            1,
        ) + "V @ "@ + amount(avs.pd_power, PdStep::Milli1000, 0) + "W) @ "@ + amount(
            epr.output_voltage,
            PdStep::Milli25,
            2,
        ) + "V / "@ + amount(epr.setpoint_current, PdStep::Milli50, 2) + "A"@,
        PowerDataObject::Augmented(Augmented::Unknown(_)) => "RDO: EPR Augmented PDO#"@ + decimal(
            epr.object_position as nat,
        ) + " (Raw="@ + word_text(epr.rdo) + ")"@,
        _ => "RDO: EPR PDO#"@ + decimal(epr.object_position as nat) + " (Raw="@ + word_text(epr.rdo)
            + ", PDO="@ + epr.pdo_text@ + ")"@,
    }
}

/// A request, read with the offers that the source made last.
pub open spec fn request_text(
    request: PowerSource,
    capabilities: Option<Seq<PowerDataObject>>,
) -> Seq<char> {
    match request {
        PowerSource::FixedVariableSupply(fixed) => match selected_offer(
            fixed.object_position,
            capabilities,
        ) {
            Some(pdo) => "RDO: PDO#"@ + decimal(fixed.object_position as nat) + " ("@ + pdo_text(pdo)
                + ") @ "@ + amount(fixed.operating_current, PdStep::Milli10, 1) + "A"@,
            None => "RDO: PDO#"@ + decimal(fixed.object_position as nat) + " @ "@ + amount(
                fixed.operating_current,
                PdStep::Milli10,
                1,
            ) + "A (Max "@ + amount(fixed.max_operating_current, PdStep::Milli10, 1) + "A)"@,
        },
        PowerSource::Battery(battery) => "RDO: Requesting Battery PDO#"@ + decimal(
            battery.object_position as nat,
        ) + " @ "@ + amount(battery.operating_power, PdStep::Milli250, 2) + "W"@,
        PowerSource::Pps(setpoint) => "RDO: Requesting PPS PDO#"@ + decimal(
            setpoint.object_position as nat,
        ) + " @ "@ + amount(setpoint.output_voltage, PdStep::Milli20, 2) + "V / "@ + amount(
            setpoint.operating_current,
            PdStep::Milli50,
            2,
        ) + "A"@,
        PowerSource::Avs(setpoint) => "RDO: Requesting AVS PDO#"@ + decimal(
            setpoint.object_position as nat,
        ) + " @ "@ + amount(setpoint.output_voltage, PdStep::Milli25, 2) + "V / "@ + amount(
            setpoint.operating_current,
            PdStep::Milli50,
            2,
        ) + "A"@,
        PowerSource::EprRequest(epr) => epr_request_text(epr),
        PowerSource::Unknown(raw) => match selected_offer(raw.object_position, capabilities) {
            Some(pdo) => "RDO: Requesting PDO#"@ + decimal(raw.object_position as nat) + " ("@
                + pdo_text(pdo) + ") @ "@ + amount(raw.operating_current, PdStep::Milli10, 1)
                + "A"@,
            None => "RDO: Requesting PDO#"@ + decimal(raw.object_position as nat) + " (Raw="@
                + word_text(raw.raw) + ")"@,
        },
    }
}

/// A request in extended-range mode.
fn format_epr_request(epr: &EprRequest) -> (text: String)
    ensures
        text@ == epr_request_text(*epr),
{
    match &epr.pdo {
        PowerDataObject::FixedSupply(fixed) => {
            let mut text = "RDO: EPR Fixed PDO#".to_owned();
            append_decimal(&mut text, epr.object_position as u128);
            text.append(" (");
            append_amount(&mut text, fixed.voltage, PdStep::Milli50, 1);
            text.append("V) @ ");
            append_amount(&mut text, epr.operating_current, PdStep::Milli10, 2);
            text.append("A (Max ");
            append_amount(&mut text, epr.max_operating_current, PdStep::Milli10, 2);
            text.append("A)");
            text
        },
        PowerDataObject::Augmented(Augmented::Spr(pps)) => {
            let mut text = "RDO: EPR PPS PDO#".to_owned();
            append_decimal(&mut text, epr.object_position as u128);
            text.append(" (");
            append_amount(&mut text, pps.min_voltage, PdStep::Milli100, 1);
            text.append("-");
            append_amount(&mut text, pps.max_voltage, PdStep::Milli100, 1);
            text.append("V) @ ");
            append_amount(&mut text, epr.output_voltage, PdStep::Milli25, 2);
            text.append("V / ");
            append_amount(&mut text, epr.setpoint_current, PdStep::Milli50, 2);
            text.append("A");
            text
        },
        PowerDataObject::Augmented(Augmented::Epr(avs)) => {
            let mut text = "RDO: EPR AVS PDO#".to_owned();
            append_decimal(&mut text, epr.object_position as u128);
            text.append(" (");
            append_amount(&mut text, avs.min_voltage, PdStep::Milli100, 1);
            text.append("-");
            append_amount(&mut text, avs.max_voltage, PdStep::Milli100, 1);
            text.append("V @ ");
            append_amount(&mut text, avs.pd_power, PdStep::Milli1000, 0);
            text.append("W) @ ");
            append_amount(&mut text, epr.output_voltage, PdStep::Milli25, 2);
            text.append("V / ");
            append_amount(&mut text, epr.setpoint_current, PdStep::Milli50, 2);
            text.append("A");
            text
        },
        PowerDataObject::Augmented(Augmented::Unknown(_)) => {
            let mut text = "RDO: EPR Augmented PDO#".to_owned();
            append_decimal(&mut text, epr.object_position as u128);
            text.append(" (Raw=");
            append_word(&mut text, epr.rdo);
            text.append(")");
            text
        },
        _ => {
            let mut text = "RDO: EPR PDO#".to_owned();
            append_decimal(&mut text, epr.object_position as u128);
            text.append(" (Raw=");
            append_word(&mut text, epr.rdo);
            text.append(", PDO=");
            text.append(epr.pdo_text.as_str());
            text.append(")");
            text
        },
    }
}

/// A request, read with the offers that the source made last.
pub fn format_request(
    request: &PowerSource,
    capabilities: Option<&Vec<PowerDataObject>>,
) -> (lines: Vec<String>)
    ensures
        texts(lines@) == seq![request_text(*request, offers(capabilities))],
{
    let line: String = match request {
        PowerSource::FixedVariableSupply(fixed) => {
            let mut text = "RDO: PDO#".to_owned();
            append_decimal(&mut text, fixed.object_position as u128);
            match selected_pdo(fixed.object_position, capabilities) {
                Some(pdo) => {
                    text.append(" (");
                    let offer = format_pdo(&pdo);
                    text.append(offer.as_str());
                    text.append(") @ ");
                    append_amount(&mut text, fixed.operating_current, PdStep::Milli10, 1);
                    text.append("A");
                },
                None => {
                    text.append(" @ ");
                    append_amount(&mut text, fixed.operating_current, PdStep::Milli10, 1);
                    text.append("A (Max ");
                    append_amount(&mut text, fixed.max_operating_current, PdStep::Milli10, 1);
                    text.append("A)");
                },
            }
            text
        },
        PowerSource::Battery(battery) => {
            let mut text = "RDO: Requesting Battery PDO#".to_owned();
            append_decimal(&mut text, battery.object_position as u128);
            text.append(" @ ");
            append_amount(&mut text, battery.operating_power, PdStep::Milli250, 2);
            text.append("W");
            text
        },
        PowerSource::Pps(setpoint) => {
            let mut text = "RDO: Requesting PPS PDO#".to_owned();
            append_decimal(&mut text, setpoint.object_position as u128);
            text.append(" @ ");
            append_amount(&mut text, setpoint.output_voltage, PdStep::Milli20, 2);
            text.append("V / ");
            append_amount(&mut text, setpoint.operating_current, PdStep::Milli50, 2);
            text.append("A");
            text
        },
        PowerSource::Avs(setpoint) => {
            let mut text = "RDO: Requesting AVS PDO#".to_owned();
            append_decimal(&mut text, setpoint.object_position as u128);
            text.append(" @ ");
            append_amount(&mut text, setpoint.output_voltage, PdStep::Milli25, 2);
            text.append("V / ");
            append_amount(&mut text, setpoint.operating_current, PdStep::Milli50, 2);
            text.append("A");
            text
        },
        PowerSource::EprRequest(epr) => format_epr_request(epr),
        PowerSource::Unknown(raw) => {
            let mut text = "RDO: Requesting PDO#".to_owned();
            append_decimal(&mut text, raw.object_position as u128);
            match selected_pdo(raw.object_position, capabilities) {
                Some(pdo) => {
                    text.append(" (");
                    let offer = format_pdo(&pdo);
                    text.append(offer.as_str());
                    text.append(") @ ");
                    append_amount(&mut text, raw.operating_current, PdStep::Milli10, 1);
                    text.append("A");
                },
                None => {
                    text.append(" (Raw=");
                    append_word(&mut text, raw.raw);
                    text.append(")");
                },
            }
            text
        },
    };
    single(line)
}

/// The first line of a message.
pub open spec fn message_summary(message: PdMessage) -> Seq<char> {
    sop_text(message.timestamp_ms, message.sop) + message.type_text@ + " (ID="@ + decimal(
        message.message_id as nat,
    ) + ", ROLE="@ + message.power_role@ + "/"@ + message.data_role@ + ")"@
}

/// The category of a message.
pub open spec fn message_category(message: PdMessage) -> PdCategory {
    match message.payload {
        Some(PdPayload::SourceCapabilities(_)) => PdCategory::SourceCaps,
        Some(PdPayload::Request(_)) => PdCategory::Request,
        Some(PdPayload::UnknownData) => PdCategory::Control,
        Some(PdPayload::OtherData(_)) => PdCategory::Control,
        None => PdCategory::Control,
        _ => PdCategory::Extended,
    }
}

/// The lines under a message.
pub open spec fn message_details(message: PdMessage) -> Seq<Seq<char>> {
    match message.payload {
        Some(PdPayload::SourceCapabilities(pdos)) => capabilities_text(
            pdos@,
            "SPR Source Capabilities"@,
        ),
        Some(PdPayload::Request(request)) => seq![request_text(request, message.offered())],
        Some(PdPayload::EprMode(mode)) => seq!["EPR Mode: "@ + mode@],
        Some(PdPayload::UnknownData) => seq!["Unknown Data Message"@],
        Some(PdPayload::OtherData(data)) => seq!["Data: "@ + data@],
        Some(PdPayload::EprSourceCapabilities(pdos)) => capabilities_text(
            pdos@,
            "EPR Source Capabilities"@,
        ),
        Some(PdPayload::ExtendedControl { message_type, data }) => seq![
            "Extended Control: "@ + message_type@ + " (data=0x"@ + padded(data as nat, 16, 2)
                + ")"@,
        ],
        Some(PdPayload::OtherExtended(extended)) => seq!["Extended: "@ + extended@],
        None => Seq::empty(),
    }
}

/// The line of a chunk.
pub open spec fn chunk_summary(status: PdChunkStatus) -> Seq<char> {
    let head = sop_text(status.timestamp_ms, status.sop);
    match status.state {
        PdChunkState::Request { chunk_number } => head + "Chunk Request (chunk="@ + decimal(
            chunk_number as nat,
        ) + ", type="@ + status.type_text@ + ")"@,
        PdChunkState::Pending { received_chunk, next_chunk } => head + status.type_text@
            + " chunk "@ + decimal(received_chunk as nat) + " received, waiting for chunk "@
            + decimal(next_chunk as nat),
        PdChunkState::Requested { chunk_number } => head + status.type_text@ + " chunk "@ + decimal(
            chunk_number as nat,
        ) + " requested"@,
        PdChunkState::Unsupported { chunk_number, data_size } => head + "Chunked "@
            + status.type_text@ + " (chunk "@ + decimal(chunk_number as nat) + ", "@ + decimal(
            data_size as nat,
        ) + " bytes) - not assembled"@,
    }
}

/// Two hexadecimal digits for each byte, with commas between.
pub open spec fn bytes_text(bytes: Seq<u8>) -> Seq<char> {
    joined(bytes.map_values(|b: u8| padded(b as nat, 16, 2)), ", "@)
}

/// The log entry of `event`.
pub open spec fn entry_text(event: PdEvent) -> PdEntryText {
    match event {
        PdEvent::Connect { timestamp_ms } => PdEntryText {
            timestamp_ms,
            category: PdCategory::Connect,
            summary: stamp_text(timestamp_ms) + "** CONNECT **"@,
            details: Seq::empty(),
        },
        PdEvent::Disconnect { timestamp_ms } => PdEntryText {
            timestamp_ms,
            category: PdCategory::Disconnect,
            summary: stamp_text(timestamp_ms) + "** DISCONNECT **"@,
            details: Seq::empty(),
        },
        PdEvent::Message(message) => PdEntryText {
            timestamp_ms: message.timestamp_ms,
            category: message_category(message),
            summary: message_summary(message),
            details: message_details(message),
        },
        PdEvent::Chunk(status) => PdEntryText {
            timestamp_ms: status.timestamp_ms,
            category: PdCategory::Extended,
            summary: chunk_summary(status),
            details: Seq::empty(),
        },
        PdEvent::Error(failure) => PdEntryText {
            timestamp_ms: failure.timestamp_ms,
            category: PdCategory::Error,
            summary: sop_text(failure.timestamp_ms, failure.sop) + "Parse error: "@
                + failure.error@,
            details: seq!["Hex: ["@ + bytes_text(failure.wire_data@) + "]"@],
        },
    }
}

/// The entry that announces a contract in force.
pub open spec fn confirmation_entry_text(timestamp_ms: u64, contract: PdContract) -> PdEntryText {
    PdEntryText {
        timestamp_ms,
        category: PdCategory::Contract,
        summary: "当前协议已确认："@ + contract.summary_text(contract.kind.name()),
        details: seq!["Request → Accept → PS_RDY 完整协商链路"@],
    }
}

/// The entry that announces a contract in force.
pub fn confirmation_entry(timestamp_ms: u64, contract: PdContract) -> (entry: DecodedPdEntry)
    ensures
        entry@ == confirmation_entry_text(timestamp_ms, contract),
{
    let mut summary = "当前协议已确认：".to_owned();
    let line = contract.summary();
    summary.append(line.as_str());
    DecodedPdEntry {
        timestamp_ms,
        category: PdCategory::Contract,
        summary,
        details: single("Request → Accept → PS_RDY 完整协商链路".to_owned()),
    }
}

/// No lines.
fn no_details() -> (details: Vec<String>)
    ensures
        texts(details@) == Seq::<Seq<char>>::empty(),
{
    let details: Vec<String> = Vec::new();
    assert(texts(details@) =~= Seq::<Seq<char>>::empty());
    details
}

/// `label` and `text` on one line.
fn labelled_line(label: &str, text: &str) -> (lines: Vec<String>)
    ensures
        texts(lines@) == seq![label@ + text@],
{
    let mut line = label.to_owned();
    line.append(text);
    single(line)
}

/// The entry of a message.
fn format_message(message: &PdMessage) -> (entry: DecodedPdEntry)
    ensures
        entry@ == entry_text(PdEvent::Message(*message)),
{
    let mut summary = sop_head(message.timestamp_ms, message.sop);
    summary.append(message.type_text.as_str());
    summary.append(" (ID=");
    append_decimal(&mut summary, message.message_id as u128);
    summary.append(", ROLE=");
    summary.append(message.power_role.as_str());
    summary.append("/");
    summary.append(message.data_role.as_str());
    summary.append(")");
    let (category, details) = match &message.payload {
        Some(PdPayload::SourceCapabilities(pdos)) => (
            PdCategory::SourceCaps,
            format_capabilities(pdos, "SPR Source Capabilities"),
        ),
        Some(PdPayload::Request(request)) => (
            PdCategory::Request,
            format_request(request, message.offers.as_ref()),
        ),
        Some(PdPayload::EprMode(mode)) => (
            PdCategory::Extended,
            labelled_line("EPR Mode: ", mode.as_str()),
        ),
        Some(PdPayload::UnknownData) => (
            PdCategory::Control,
            single("Unknown Data Message".to_owned()),
        ),
        Some(PdPayload::OtherData(data)) => (
            PdCategory::Control,
            labelled_line("Data: ", data.as_str()),
        ),
        Some(PdPayload::EprSourceCapabilities(pdos)) => (
            PdCategory::Extended,
            format_capabilities(pdos, "EPR Source Capabilities"),
        ),
        Some(PdPayload::ExtendedControl { message_type, data }) => {
            let mut line = "Extended Control: ".to_owned();
            line.append(message_type.as_str());
            line.append(" (data=0x");
            append_padded(&mut line, *data as u128, 16, 2);
            line.append(")");
            (PdCategory::Extended, single(line))
        },
        Some(PdPayload::OtherExtended(extended)) => (
            PdCategory::Extended,
            labelled_line("Extended: ", extended.as_str()),
        ),
        None => (PdCategory::Control, no_details()),
    };
    DecodedPdEntry { timestamp_ms: message.timestamp_ms, category, summary, details }
}

/// The entry of a chunk.
fn format_chunk_status(status: &PdChunkStatus) -> (entry: DecodedPdEntry)
    ensures
        entry@ == entry_text(PdEvent::Chunk(*status)),
{
    let mut summary = sop_head(status.timestamp_ms, status.sop);
    match status.state {
        PdChunkState::Request { chunk_number } => {
            summary.append("Chunk Request (chunk=");
            append_decimal(&mut summary, chunk_number as u128);
            summary.append(", type=");
            summary.append(status.type_text.as_str());
            summary.append(")");
        },
        PdChunkState::Pending { received_chunk, next_chunk } => {
            summary.append(status.type_text.as_str());
            summary.append(" chunk ");
            append_decimal(&mut summary, received_chunk as u128);
            summary.append(" received, waiting for chunk ");
            append_decimal(&mut summary, next_chunk as u128);
        },
        PdChunkState::Requested { chunk_number } => {
            summary.append(status.type_text.as_str());
            summary.append(" chunk ");
            append_decimal(&mut summary, chunk_number as u128);
            summary.append(" requested");
        },
        PdChunkState::Unsupported { chunk_number, data_size } => {
            summary.append("Chunked ");
            summary.append(status.type_text.as_str());
            summary.append(" (chunk ");
            append_decimal(&mut summary, chunk_number as u128);
            summary.append(", ");
            append_decimal(&mut summary, data_size as u128);
            summary.append(" bytes) - not assembled");
        },
    }
    DecodedPdEntry {
        timestamp_ms: status.timestamp_ms,
        category: PdCategory::Extended,
        summary,
        details: no_details(),
    }
}

/// Appends two hexadecimal digits for each byte, with commas between.
fn append_bytes(text: &mut String, bytes: &Vec<u8>)
    ensures
        final(text)@ == old(text)@ + bytes_text(bytes@),
{
    let ghost digits = bytes@.map_values(|b: u8| padded(b as nat, 16, 2));
    let mut i: usize = 0;
    assert(text@ =~= old(text)@ + joined(digits.take(0), ", "@));
    while i < bytes.len()
        invariant
            i <= bytes.len(),
            digits == bytes@.map_values(|b: u8| padded(b as nat, 16, 2)),
            text@ == old(text)@ + joined(digits.take(i as int), ", "@),
        decreases bytes.len() - i,
    {
        assert(digits.take(i + 1).drop_last() =~= digits.take(i as int));
        if i > 0 {
            text.append(", ");
        }
        append_padded(text, bytes[i] as u128, 16, 2);
        i += 1;
        assert(text@ =~= old(text)@ + joined(digits.take(i as int), ", "@));
    }
    assert(digits.take(i as int) =~= digits);
}

/// The entry of a message that could not be decoded.
fn format_failure(failure: &PdFailure) -> (entry: DecodedPdEntry)
    ensures
        entry@ == entry_text(PdEvent::Error(*failure)),
{
    let mut summary = sop_head(failure.timestamp_ms, failure.sop);
    summary.append("Parse error: ");
    summary.append(failure.error.as_str());
    let mut line = "Hex: [".to_owned();
    append_bytes(&mut line, &failure.wire_data);
    line.append("]");
    DecodedPdEntry {
        timestamp_ms: failure.timestamp_ms,
        category: PdCategory::Error,
        summary,
        details: single(line),
    }
}

/// The log entry of `event`.
pub fn entry(event: &PdEvent) -> (entry: DecodedPdEntry)
    ensures
        entry@ == entry_text(*event),
{
    match event {
        PdEvent::Connect { timestamp_ms } => {
            let mut summary = stamp(*timestamp_ms);
            summary.append("** CONNECT **");
            DecodedPdEntry {
                timestamp_ms: *timestamp_ms,
                category: PdCategory::Connect,
                summary,
                details: no_details(),
            }
        },
        PdEvent::Disconnect { timestamp_ms } => {
            let mut summary = stamp(*timestamp_ms);
            summary.append("** DISCONNECT **");
            DecodedPdEntry {
                timestamp_ms: *timestamp_ms,
                category: PdCategory::Disconnect,
                summary,
                details: no_details(),
            }
        },
        PdEvent::Message(message) => format_message(message),
        PdEvent::Chunk(status) => format_chunk_status(status),
        PdEvent::Error(failure) => format_failure(failure),
    }
}

/// An entry carries the time of its event.
pub proof fn law_entries_carry_the_time_of_their_event(event: PdEvent)
    ensures
        entry_text(event).timestamp_ms == (match event {
            PdEvent::Connect { timestamp_ms } => timestamp_ms,
            PdEvent::Disconnect { timestamp_ms } => timestamp_ms,
            PdEvent::Message(message) => message.timestamp_ms,
            PdEvent::Chunk(status) => status.timestamp_ms,
            PdEvent::Error(failure) => failure.timestamp_ms,
        }),
        event is Connect <==> entry_text(event).category == PdCategory::Connect,
        event is Disconnect <==> entry_text(event).category == PdCategory::Disconnect,
        event is Error <==> entry_text(event).category == PdCategory::Error,
        event matches PdEvent::Message(message) ==> {
            &&& (message.payload is Some && message.payload->0 is SourceCapabilities)
                <==> entry_text(event).category == PdCategory::SourceCaps
            &&& (message.payload is Some && message.payload->0 is Request) <==> entry_text(
                event,
            ).category == PdCategory::Request
        },
{
}

/// A time stamp reads as seconds and thousandths that add up to the time.
pub proof fn law_a_stamp_reads_as_seconds_and_thousandths(seconds: u64, millis: u64)
    requires
        millis < 1000,
        seconds * 1000 + millis <= u64::MAX,
    ensures
        stamp_text((seconds * 1000 + millis) as u64) == "["@ + decimal(seconds as nat) + "."@
            + padded(millis as nat, 10, 3) + "s] "@,
{
    let time = (seconds * 1000 + millis) as nat;
    assert(time / 1000 == seconds);
    reveal_with_fuel(padded, 4);
    assert(time % 10 == millis % 10);
    assert((time / 10) % 10 == (millis / 10) % 10);
    assert((time / 10 / 10) % 10 == (millis / 10 / 10) % 10);
    assert(padded(time, 10, 3) == padded(millis as nat, 10, 3));
}

/// A list of offers has a line for its title and one for each offer, numbered
/// from one in the order in which they were offered.
pub proof fn law_each_offer_has_its_line(
    pdos: Seq<PowerDataObject>,
    title: Seq<char>,
    index: int,
)
    requires
        0 <= index < pdos.len(),
    ensures
        capabilities_text(pdos, title).len() == pdos.len() + 1,
        capabilities_text(pdos, title)[0] == "["@ + title + "]"@,
        !(pdos[index] matches PowerDataObject::FixedSupply(fixed) && fixed.raw == 0)
            ==> capabilities_text(pdos, title)[index + 1] == "PDO["@ + decimal((index + 1) as nat) + (
        "]: "@ + pdo_text(pdos[index])),
{
}

} // verus!
