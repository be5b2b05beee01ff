//! Demonstration data: samples that stand for a device.
use vstd::prelude::*;
use vstd::string::*;

use crate::measurement::MeasurementSample;
use crate::navigator::{reading_size, size_of};
use crate::pd_decoder::{DecodedPdEntry, PdCategory};
use crate::recording::{amount_sum, in_amount, RecordingMetadata};
use crate::text::{single, texts};

verus! {

/// How long a demonstration sample lasts.
pub const DEMO_TICK_US: u64 = 20_000;

/// The rate that demonstration samples claim.
pub const DEMO_RATE_HZ: u16 = 50;

/// Whether it is time for a further sample.
pub fn demo_due(now_us: u64, last_us: u64) -> (due: bool)
    ensures
        due == (now_us - last_us >= DEMO_TICK_US),
{
    now_us >= last_us && now_us - last_us >= DEMO_TICK_US
}

/// The device that demonstration data stand for.
pub fn demo_device() -> (device: RecordingMetadata)
    ensures
        device@.model == "KM003C-DEMO"@,
        device@.firmware == "1.9.9-demo"@,
        device@.serial == "DEMO-0001"@,
{
    RecordingMetadata {
        model: "KM003C-DEMO".to_owned(),
        firmware: "1.9.9-demo".to_owned(),
        serial: "DEMO-0001".to_owned(),
    }
}

/// What a demonstration reads.
#[derive(Debug, Clone, Copy, PartialEq, Eq, Structural)]
pub struct DemoReading {
    pub elapsed_us: u64,
    pub sequence: u16,
    pub vbus_uv: i64,
    pub ibus_ua: i64,
    pub power_uw: i64,
}

/// An amount after a stretch of `delta_us` from `before` to `now`, in the units
/// of the measurement.
pub open spec fn stretched(amount: i128, before: int, now: int, delta_us: int) -> i128 {
    in_amount(amount + in_amount((before + now) * delta_us))
}

/// An amount after a stretch of `delta_us` from `before` to `now`.
fn stretch(amount: i128, before: i64, now: i64, delta_us: u64) -> (result: i128)
    ensures
        result == stretched(amount, before as int, now as int, delta_us as int),
{
    let sum: i128 = before as i128 + now as i128;
    assert(-0x1_0000_0000_0000_0000 * 0x1_0000_0000_0000_0000 <= sum * delta_us
        <= 0x1_0000_0000_0000_0000 * 0x1_0000_0000_0000_0000) by (nonlinear_arith)
        requires
            -0x1_0000_0000_0000_0000 <= sum <= 0x1_0000_0000_0000_0000,
            0 <= delta_us <= 0x1_0000_0000_0000_0000,
    ;
    let area: i128 = match sum.checked_mul(delta_us as i128) {
        Some(area) => area,
        None => if sum < 0 {
            i128::MIN
        } else {
            i128::MAX
        },
    };
    proof {
        if sum < 0 {
            assert(sum * delta_us <= 0) by (nonlinear_arith)
                requires
                    sum < 0,
                    delta_us >= 0,
            ;
        } else {
            assert(sum * delta_us >= 0) by (nonlinear_arith)
                requires
                    sum >= 0,
                    delta_us >= 0,
            ;
        }
    }
    amount_sum(amount, area)
}

/// The sample of a reading: its amounts go on from the previous sample, or
/// stand for a steady current since the start where there is none.
pub open spec fn demo_measurement(
    previous: Option<MeasurementSample>,
    reading: DemoReading,
) -> MeasurementSample {
    let (charge, energy, charge_throughput, energy_throughput) = match previous {
        Some(sample) => {
            let delta = if reading.elapsed_us < sample.elapsed_us {
                0
            } else {
                reading.elapsed_us - sample.elapsed_us
            };
            (
                stretched(sample.charge, sample.ibus_ua as int, reading.ibus_ua as int, delta),
                stretched(sample.energy, sample.power_uw as int, reading.power_uw as int, delta),
                stretched(
                    sample.charge_throughput,
                    size_of(sample.ibus_ua) as int,
                    size_of(reading.ibus_ua) as int,
                    delta,
                ),
                stretched(
                    sample.energy_throughput,
                    size_of(sample.power_uw) as int,
                    size_of(reading.power_uw) as int,
                    delta,
                ),
            )
        },
        None => {
            let delta = reading.elapsed_us as int;
            (
                stretched(0, reading.ibus_ua as int, reading.ibus_ua as int, delta),
                stretched(0, reading.power_uw as int, reading.power_uw as int, delta),
                stretched(
                    0,
                    size_of(reading.ibus_ua) as int,
                    size_of(reading.ibus_ua) as int,
                    delta,
                ),
                stretched(
                    0,
                    size_of(reading.power_uw) as int,
                    size_of(reading.power_uw) as int,
                    delta,
                ),
            )
        },
    };
    MeasurementSample {
        elapsed_us: reading.elapsed_us,
        sample_index: reading.sequence as u64,
        sequence: reading.sequence,
        marker: 0xD3,
        sample_rate_hz: DEMO_RATE_HZ,
        missing_samples: 0,
        gap_duration_us: 0,
        interpolated: false,
        cumulative_missing_samples: 0,
        cumulative_interpolated_duration_us: 0,
        discarded_sequence_samples: 0,
        cumulative_discarded_sequence_samples: 0,
        vbus_uv: reading.vbus_uv,
        ibus_ua: reading.ibus_ua,
        power_uw: reading.power_uw,
        charge,
        energy,
        charge_throughput,
        energy_throughput,
        cc1_uv: 620_000,
        cc2_uv: 40_000,
        dp_uv: 540_000,
        dm_uv: 510_000,
    }
}

/// The sample of a reading.
pub fn demo_sample(previous: Option<MeasurementSample>, reading: DemoReading) -> (sample:
    MeasurementSample)
    ensures
        sample == demo_measurement(previous, reading),
{
    let before = match previous {
        Some(sample) => DemoReading {
            elapsed_us: sample.elapsed_us,
            sequence: sample.sequence,
            vbus_uv: sample.vbus_uv,
            ibus_ua: sample.ibus_ua,
            power_uw: sample.power_uw,
        },
        None => DemoReading { elapsed_us: 0, ..reading },
    };
    let (charge, energy, charge_throughput, energy_throughput): (i128, i128, i128, i128) =
        match previous {
        Some(sample) => (
            sample.charge,
            sample.energy,
            sample.charge_throughput,
            sample.energy_throughput,
        ),
        None => (0, 0, 0, 0),
    };
    let delta_us: u64 = if reading.elapsed_us < before.elapsed_us {
        0
    } else {
        reading.elapsed_us - before.elapsed_us
    };
    MeasurementSample {
        elapsed_us: reading.elapsed_us,
        sample_index: reading.sequence as u64,
        sequence: reading.sequence,
        marker: 0xD3,
        sample_rate_hz: DEMO_RATE_HZ,
        missing_samples: 0,
        gap_duration_us: 0,
        interpolated: false,
        cumulative_missing_samples: 0,
        cumulative_interpolated_duration_us: 0,
        discarded_sequence_samples: 0,
        cumulative_discarded_sequence_samples: 0,
        vbus_uv: reading.vbus_uv,
        ibus_ua: reading.ibus_ua,
        power_uw: reading.power_uw,
        charge: stretch(charge, before.ibus_ua, reading.ibus_ua, delta_us),
        energy: stretch(energy, before.power_uw, reading.power_uw, delta_us),
        charge_throughput: stretch(
            charge_throughput,
            reading_size(before.ibus_ua),
            reading_size(reading.ibus_ua),
            delta_us,
        ),
        energy_throughput: stretch(
            energy_throughput,
            reading_size(before.power_uw),
            reading_size(reading.power_uw),
            delta_us,
        ),
        cc1_uv: 620_000,
        cc2_uv: 40_000,
        dp_uv: 540_000,
        dm_uv: 510_000,
    }
}

/// The protocol entries of a demonstration.
pub fn demo_log() -> (entries: Vec<DecodedPdEntry>)
    ensures
        entries@.len() == 2,
        entries@[0].timestamp_ms == 0,
        entries@[0].category == PdCategory::Connect,
        entries@[0].summary@ == "Type-C attached (demo)"@,
        texts(entries@[0].details@) == seq!["演示数据 · 无真实 USB 报文"@],
        entries@[1].timestamp_ms == 120,
        entries@[1].category == PdCategory::SourceCaps,
        entries@[1].summary@ == "Source_Capabilities 9V/2A"@,
        texts(entries@[1].details@) == seq!["PDO 0: 5V 3A; PDO 1: 9V 2A"@],
{
    let mut entries: Vec<DecodedPdEntry> = Vec::new();
    entries.push(
        DecodedPdEntry {
            timestamp_ms: 0,
            category: PdCategory::Connect,
            summary: "Type-C attached (demo)".to_owned(),
            details: single("演示数据 · 无真实 USB 报文".to_owned()),
        },
    );
    entries.push(
        DecodedPdEntry {
            timestamp_ms: 120,
            category: PdCategory::SourceCaps,
            summary: "Source_Capabilities 9V/2A".to_owned(),
            details: single("PDO 0: 5V 3A; PDO 1: 9V 2A".to_owned()),
        },
    );
    entries
}

/// Demonstration data add up like measurements: between two readings passes the
/// mean of their currents and powers times the time between them, with its sign
/// in the net amounts and without it in the others. Amounts count in half
/// microampere-microseconds and half microwatt-microseconds.
pub proof fn law_demonstration_amounts_are_areas(sample: MeasurementSample, reading: DemoReading)
    requires
        sample.elapsed_us <= reading.elapsed_us,
        0 <= sample.ibus_ua,
        0 <= reading.ibus_ua,
        0 <= sample.power_uw,
        0 <= reading.power_uw,
        0 <= sample.charge <= 0x1000_0000_0000_0000_0000_0000_0000_0000,
        0 <= sample.energy <= 0x1000_0000_0000_0000_0000_0000_0000_0000,
        (sample.ibus_ua + reading.ibus_ua) * (reading.elapsed_us - sample.elapsed_us)
            <= 0x1000_0000_0000_0000_0000_0000_0000_0000,
        (sample.power_uw + reading.power_uw) * (reading.elapsed_us - sample.elapsed_us)
            <= 0x1000_0000_0000_0000_0000_0000_0000_0000,
    ensures
        ({
            let next = demo_measurement(Some(sample), reading);
            let passed = reading.elapsed_us - sample.elapsed_us;
            &&& next.charge == sample.charge + (sample.ibus_ua + reading.ibus_ua) * passed
            &&& next.energy == sample.energy + (sample.power_uw + reading.power_uw) * passed
            &&& sample.charge_throughput == sample.charge ==> next.charge_throughput
                == next.charge
            &&& sample.energy_throughput == sample.energy ==> next.energy_throughput
                == next.energy
            &&& next.elapsed_us == reading.elapsed_us
            &&& next.vbus_uv == reading.vbus_uv
            &&& next.ibus_ua == reading.ibus_ua
            &&& next.power_uw == reading.power_uw
        }),
{
    assert(0 <= (sample.ibus_ua + reading.ibus_ua) * (reading.elapsed_us - sample.elapsed_us))
        by (nonlinear_arith)
        requires
            0 <= sample.ibus_ua,
            0 <= reading.ibus_ua,
            sample.elapsed_us <= reading.elapsed_us,
    ;
    assert(0 <= (sample.power_uw + reading.power_uw) * (reading.elapsed_us - sample.elapsed_us))
        by (nonlinear_arith)
        requires
            0 <= sample.power_uw,
            0 <= reading.power_uw,
            sample.elapsed_us <= reading.elapsed_us,
    ;
}

} // verus!
