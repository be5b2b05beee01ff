//! The instrument cards, the signal lines, the session totals, the cursor and
//! the statistics of a range, as they read.
use vstd::prelude::*;
use vstd::string::*;

use crate::binary64::{lemma_nearest_common, nearest, Double};
use crate::chart_state::{plot_time, time_text};
use crate::i18n::Language;
use crate::measurement::magnitude;
use crate::navigator::{CursorReadout, FINE};
use crate::presentation::{
    append_product, capacity_text, duration_text, format_capacity, format_plot_time, largest, shown_decimals,
    shown_multiplier, shown_symbol, shown_value, unsigned, AxisScale, EnergyPresentation,
    EngineeringPresentation, MeasurementUnit, MAX_READING,
};
use crate::sources::{AccumulatedReadout, SignalValues};
use crate::statistics::{MetricStatistics, RunningMetricStatistics, ScopeStatistics};
use crate::text::{append_decimal, decimal};

verus! {

// -- Averages --

/// Whether a sum is one of so many 64-bit values, as far as its size tells.
pub open spec fn is_sum(sum: i128, count: u64) -> bool {
    count > 0 && magnitude(sum as int) <= 0x1_0000_0000_0000_0000 * count
}

/// The average of `count` values of millionths with `sum`, `multiplier` of
/// which are shown as one, with `decimals` decimals: it reads like the double
/// nearest to it.
pub open spec fn average_text(sum: int, count: int, multiplier: nat, decimals: nat) -> Seq<char> {
    let size = nearest(magnitude(sum) as nat, (count * 1_000_000) as nat).product(
        Double::whole(multiplier),
    ).text(decimals);
    if sum < 0 {
        "-"@ + size
    } else {
        size
    }
}

/// Appends the average of `count` values of millionths with `sum`. A sum that
/// no so many 64-bit values have is passed over.
pub fn format_average(presentation: EngineeringPresentation, sum: i128, count: u64) -> (text:
    String)
    requires
        1 <= presentation.multiplier <= 1_000_000,
        presentation.decimals <= 5,
    ensures
        is_sum(sum, count) ==> text@ == average_text(
            sum as int,
            count as int,
            presentation.multiplier as nat,
            presentation.decimals as nat,
        ),
        !is_sum(sum, count) ==> text@ == "—"@,
{
    let size: u128 = unsigned(sum);
    if count == 0 || size > 0x1_0000_0000_0000_0000 * count as u128 {
        return "—".to_owned();
    }
    let mut text = if sum < 0 {
        "-".to_owned()
    } else {
        String::new()
    };
    let divisor: u128 = count as u128 * 1_000_000;
    append_product(
        &mut text,
        size,
        divisor,
        presentation.multiplier,
        presentation.decimals,
    );
    assert(text@ =~= average_text(
        sum as int,
        count as int,
        presentation.multiplier as nat,
        presentation.decimals as nat,
    ));
    text
}

/// Equal readings average to themselves: the average reads like each of them.
pub proof fn law_equal_readings_average_to_themselves(
    value: int,
    count: int,
    multiplier: nat,
    decimals: nat,
)
    requires
        count > 0,
    ensures
        average_text(value * count, count, multiplier, decimals) == shown_value(
            value * FINE,
            multiplier,
            decimals,
        ),
{
    let size = magnitude(value) as nat;
    assert(magnitude(value * count) == size * count && (value * count < 0) == (value < 0))
        by (nonlinear_arith)
        requires
            count > 0,
            size == magnitude(value),
    ;
    lemma_nearest_common(size, 1_000_000, count as nat);
    lemma_nearest_common(size, 1_000_000, FINE as nat);
    assert(1_000_000 * count == count * 1_000_000);
}

/// The sums that statistics keep are sums of so many values: an average can
/// always be told once there is a value.
pub proof fn law_averages_can_be_told(values: Seq<i64>)
    requires
        values.len() > 0,
    ensures
        ({
            let statistics = RunningMetricStatistics::none().with_all(values);
            is_sum(statistics.sum, statistics.count)
        }),
    decreases values.len(),
{
    let front = values.drop_last();
    let earlier = RunningMetricStatistics::none().with_all(front);
    if front.len() > 0 {
        law_averages_can_be_told(front);
    } else {
        assert(earlier == RunningMetricStatistics::none());
    }
}

// -- The instrument cards --

/// What a card shows.
#[derive(Debug)]
pub struct InstrumentCard {
    pub heading: String,
    pub value: String,
    pub symbol: &'static str,
    /// The minimum, the average and the maximum, once there are any.
    pub statistics: Option<CardStatistics>,
}

/// The statistics of a card.
#[derive(Debug)]
pub struct CardStatistics {
    pub minimum: String,
    pub average: String,
    pub maximum: String,
}

/// The largest size that a card shows, in fine parts.
pub open spec fn card_range(value: i128, statistics: Option<MetricStatistics>) -> int {
    let size = magnitude(value as int);
    match statistics {
        Some(statistics) => {
            let high = magnitude(statistics.maximum * FINE);
            let low = magnitude(statistics.minimum * FINE);
            let range = if high > low {
                high
            } else {
                low
            };
            if range > size {
                range
            } else {
                size
            }
        },
        None => size,
    }
}

/// What a channel is called on the device.
pub open spec fn channel_name(unit: MeasurementUnit) -> Seq<char> {
    match unit {
        MeasurementUnit::Voltage => "VBUS"@,
        MeasurementUnit::Current => "IBUS"@,
        MeasurementUnit::Power => "PWR"@,
    }
}

/// The larger of two sizes.
fn larger_size(a: u128, b: u128) -> (size: u128)
    ensures
        size == (if a > b {
            a
        } else {
            b
        }),
{
    if a > b {
        a
    } else {
        b
    }
}

/// The card of a channel: one unit and one number of decimals for everything
/// on it, so that its range stays distinct. The value is given in fine parts.
pub fn instrument_card(
    label: &str,
    value: i128,
    unit: MeasurementUnit,
    statistics: Option<MetricStatistics>,
) -> (card: InstrumentCard)
    requires
        magnitude(value as int) <= MAX_READING,
    ensures
        ({
            let range = card_range(value, statistics) as nat;
            let multiplier = shown_multiplier(range);
            let decimals = shown_decimals(range);
            &&& card.heading@ == label@ + "  "@ + channel_name(unit)
            &&& card.value@ == shown_value(value as int, multiplier, decimals)
            &&& card.symbol@ == shown_symbol(range, unit)
            &&& card.statistics is Some <==> statistics is Some
            &&& card.statistics matches Some(shown) ==> {
                &&& shown.minimum@ == shown_value(
                    statistics->0.minimum * FINE,
                    multiplier,
                    decimals,
                )
                &&& shown.maximum@ == shown_value(
                    statistics->0.maximum * FINE,
                    multiplier,
                    decimals,
                )
                &&& is_sum(statistics->0.sum, statistics->0.count) ==> shown.average@
                    == average_text(
                    statistics->0.sum as int,
                    statistics->0.count as int,
                    multiplier,
                    decimals,
                )
            }
        }),
{
    let mut heading = label.to_owned();
    heading.append("  ");
    heading.append(
        match unit {
            MeasurementUnit::Voltage => "VBUS",
            MeasurementUnit::Current => "IBUS",
            MeasurementUnit::Power => "PWR",
        },
    );
    let size: u128 = unsigned(value);
    let range: u128 = match statistics {
        Some(statistics) => larger_size(
            larger_size(
                unsigned(statistics.maximum as i128 * FINE),
                unsigned(statistics.minimum as i128 * FINE),
            ),
            size,
        ),
        None => size,
    };
    let presentation = EngineeringPresentation::for_maximum(range, unit);
    let shown = match statistics {
        Some(statistics) => {
            Some(
                CardStatistics {
                    minimum: presentation.format_value(statistics.minimum as i128 * FINE),
                    average: format_average(presentation, statistics.sum, statistics.count),
                    maximum: presentation.format_value(statistics.maximum as i128 * FINE),
                },
            )
        },
        None => None,
    };
    InstrumentCard {
        heading,
        value: presentation.format_value(value),
        symbol: presentation.symbol,
        statistics: shown,
    }
}

// -- The signal lines --

/// A voltage in microvolts with two decimals.
pub open spec fn volts_text(value_uv: i64) -> Seq<char> {
    shown_value(value_uv * FINE, 1, 2)
}

/// A voltage in microvolts with two decimals.
fn volts(value_uv: i64) -> (text: String)
    ensures
        text@ == volts_text(value_uv),
{
    fine_volts(value_uv as i128 * FINE)
}

/// A voltage in fine parts with two decimals.
fn fine_volts(value: i128) -> (text: String)
    requires
        magnitude(value as int) <= MAX_READING,
    ensures
        text@ == shown_value(value as int, 1, 2),
{
    let presentation = EngineeringPresentation { multiplier: 1, symbol: "V", decimals: 2 };
    presentation.format_value(value)
}

/// The voltage of a signal line, where there is one.
pub open spec fn signal_text(value_uv: Option<i64>) -> Seq<char> {
    match value_uv {
        Some(value) => volts_text(value) + " V"@,
        None => "—"@,
    }
}

/// The voltage of a signal line, where there is one.
pub fn signal_value(value_uv: Option<i64>) -> (text: String)
    ensures
        text@ == signal_text(value_uv),
{
    match value_uv {
        Some(value) => {
            let mut text = volts(value);
            text.append(" V");
            text
        },
        None => "—".to_owned(),
    }
}

/// A signal line and its voltage, in short.
pub fn compact_signal_value(label: &str, value_uv: Option<i64>) -> (text: String)
    ensures
        text@ == label@ + " "@ + (match value_uv {
            Some(value) => volts_text(value),
            None => "—"@,
        }),
{
    let mut text = label.to_owned();
    text.append(" ");
    match value_uv {
        Some(value) => {
            text.append(volts(value).as_str());
        },
        None => {
            text.append("—");
        },
    }
    text
}

/// What the protocol card adds where no protocol was confirmed: the voltages
/// that the device measures. The bus voltage is given in fine parts.
pub fn bus_label(vbus: i128, signals: Option<SignalValues>) -> (text: String)
    requires
        magnitude(vbus as int) <= MAX_READING,
    ensures
        text@ == "VBUS "@ + shown_value(vbus as int, 1, 2) + " V · D+ "@ + signal_text(
            match signals {
                Some(signals) => Some(signals.dp_uv),
                None => None,
            },
        ) + " · D− "@ + signal_text(
            match signals {
                Some(signals) => Some(signals.dm_uv),
                None => None,
            },
        ),
{
    let dp: Option<i64> = match signals {
        Some(signals) => Some(signals.dp_uv),
        None => None,
    };
    let dm: Option<i64> = match signals {
        Some(signals) => Some(signals.dm_uv),
        None => None,
    };
    let mut text = "VBUS ".to_owned();
    text.append(fine_volts(vbus).as_str());
    text.append(" V · D+ ");
    text.append(signal_value(dp).as_str());
    text.append(" · D− ");
    text.append(signal_value(dm).as_str());
    text
}

// -- The session totals --

/// What the session totals say.
#[derive(Debug)]
pub struct TotalsCard {
    pub duration: String,
    pub energy: String,
    pub capacity: String,
    pub net_energy: String,
}

/// The session totals: both energies in one unit, and dashes where there is
/// nothing to show.
pub fn totals_card(available: bool, duration_us: u64, totals: AccumulatedReadout) -> (card:
    TotalsCard)
    ensures
        !available ==> card.duration@ == "—"@ && card.energy@ == "—"@ && card.capacity@ == "—"@
            && card.net_energy@ == "—"@,
        available ==> {
            &&& card.duration@ == duration_text(duration_us as nat / 1_000)
            &&& card.capacity@ == capacity_text(totals.capacity as int)
            &&& is_energy_pair(
                totals.cumulative_energy,
                totals.net_energy,
                card.energy@,
                card.net_energy@,
            )
        },
{
    if !available {
        return TotalsCard {
            duration: "—".to_owned(),
            energy: "—".to_owned(),
            capacity: "—".to_owned(),
            net_energy: "—".to_owned(),
        };
    }
    let mut values: Vec<i128> = Vec::new();
    values.push(totals.cumulative_energy);
    values.push(totals.net_energy);
    let presentation = EnergyPresentation::for_values(&values);
    assert(values@ =~= seq![totals.cumulative_energy, totals.net_energy]);
    let energy = presentation.format(totals.cumulative_energy);
    let net_energy = presentation.format_directional(totals.net_energy);
    assert(shows_pair(
        presentation,
        totals.cumulative_energy,
        totals.net_energy,
        energy@,
        net_energy@,
    ));
    TotalsCard {
        duration: format_plot_time(duration_us),
        energy,
        capacity: format_capacity(totals.capacity),
        net_energy,
    }
}

/// Whether two energies read so in `presentation`.
pub open spec fn shows_pair(
    presentation: EnergyPresentation,
    energy: i128,
    net: i128,
    energy_text: Seq<char>,
    net_text: Seq<char>,
) -> bool {
    &&& presentation.is_for(largest(seq![energy, net]))
    &&& energy_text == presentation.text(energy as int)
    &&& net_text == (if net > 0 {
        "↑"@
    } else if net < 0 {
        "↓"@
    } else {
        "•"@
    }) + " "@ + presentation.text(magnitude(net as int))
}

/// Whether an energy and a net energy read so, in the unit that suits the
/// larger one.
pub open spec fn is_energy_pair(
    energy: i128,
    net: i128,
    energy_text: Seq<char>,
    net_text: Seq<char>,
) -> bool {
    exists|presentation: EnergyPresentation|
        #[trigger] shows_pair(presentation, energy, net, energy_text, net_text)
}

// -- The cursor --

/// What the cursor says of the time.
pub fn cursor_time_label(readout: CursorReadout, language: Language) -> (label: String)
    ensures
        label@ == (if readout.approximate {
            language.chosen("约值"@, "Approx."@)
        } else {
            language.chosen("游标"@, "Cursor"@)
        }) + "  "@ + time_text(readout.time_us as int),
{
    let mut label = (if readout.approximate {
        language.pick("约值", "Approx.")
    } else {
        language.pick("游标", "Cursor")
    }).to_owned();
    label.append("  ");
    label.append(plot_time(readout.time_us).as_str());
    label
}

/// What the cursor says of a channel, whose value is given in fine parts.
pub fn cursor_value_label(label: &str, value: i128, unit: MeasurementUnit) -> (text: String)
    requires
        magnitude(value as int) <= MAX_READING,
    ensures
        text@ == label@ + "  "@ + shown_value(
            value as int,
            shown_multiplier(magnitude(value as int) as nat),
            shown_decimals(magnitude(value as int) as nat),
        ) + " "@ + shown_symbol(magnitude(value as int) as nat, unit),
{
    let presentation = EngineeringPresentation::for_value(value, unit);
    let mut text = label.to_owned();
    text.append("  ");
    text.append(presentation.format_value(value).as_str());
    text.append(" ");
    text.append(presentation.symbol);
    text
}

/// What the legend says of a line: its name, and in full the range of its axis.
pub fn legend_label(
    marker: &str,
    label: &str,
    scale: AxisScale,
    unit: MeasurementUnit,
    compact: bool,
) -> (text: String)
    requires
        scale.maximum <= MAX_READING,
    ensures
        text@ == (if compact {
            marker@ + " "@ + label@
        } else {
            marker@ + " "@ + label@ + "  0–"@ + shown_value(
                scale.maximum as int,
                shown_multiplier(scale.maximum as nat),
                shown_decimals(scale.maximum as nat),
            ) + " "@ + shown_symbol(scale.maximum as nat, unit)
        }),
{
    let mut text = marker.to_owned();
    text.append(" ");
    text.append(label);
    if compact {
        return text;
    }
    let presentation = scale.presentation(unit);
    text.append("  0–");
    text.append(presentation.format_value(scale.maximum as i128).as_str());
    text.append(" ");
    text.append(presentation.symbol);
    text
}

// -- The statistics of a range --

/// A row of the statistics.
#[derive(Debug)]
pub struct ScopeRow {
    pub name: String,
    pub duration: String,
    pub capacity: String,
    pub energy: String,
    pub points: String,
}

/// A row of the statistics, with its energy in the unit of `energy`.
pub fn scope_row(name: &str, statistics: ScopeStatistics, energy: EnergyPresentation) -> (row:
    ScopeRow)
    requires
        energy.well_formed(),
    ensures
        row.name@ == (if statistics.approximate {
            "≈"@ + name@
        } else {
            name@
        }),
        row.duration@ == duration_text(statistics.duration_us as nat / 1_000),
        row.capacity@ == capacity_text(statistics.capacity as int),
        row.energy@ == energy.text(statistics.cumulative_energy as int),
        row.points@ == decimal(statistics.points as nat),
{
    let name_text = if statistics.approximate {
        let mut text = "≈".to_owned();
        text.append(name);
        text
    } else {
        name.to_owned()
    };
    let mut points = String::new();
    append_decimal(&mut points, statistics.points as u128);
    assert(points@ =~= decimal(statistics.points as nat));
    ScopeRow {
        name: name_text,
        duration: format_plot_time(statistics.duration_us),
        capacity: format_capacity(statistics.capacity),
        energy: energy.format(statistics.cumulative_energy),
        points,
    }
}

/// The unit in which the energies of everything and of a range are compared.
pub fn scope_energy_unit(all: ScopeStatistics, window: ScopeStatistics) -> (energy:
    EnergyPresentation)
    ensures
        energy.is_for(largest(seq![all.cumulative_energy, window.cumulative_energy])),
        energy.well_formed(),
{
    let mut values: Vec<i128> = Vec::new();
    values.push(all.cumulative_energy);
    values.push(window.cumulative_energy);
    assert(values@ =~= seq![all.cumulative_energy, window.cumulative_energy]);
    EnergyPresentation::for_values(&values)
}

/// The unit of a card is chosen for the largest of what it shows: the value and
/// its extremes all fit, and one of them is as large.
pub proof fn law_a_card_fits_its_value_and_extremes(value: i128, statistics: MetricStatistics)
    ensures
        ({
            let range = card_range(value, Some(statistics));
            &&& -range <= value <= range
            &&& -range <= statistics.maximum * 1_000_000_000 <= range
            &&& -range <= statistics.minimum * 1_000_000_000 <= range
            &&& range == value || range == -value || range == statistics.maximum * 1_000_000_000
                || range == -statistics.maximum * 1_000_000_000 || range == statistics.minimum
                * 1_000_000_000 || range == -statistics.minimum * 1_000_000_000
            &&& card_range(value, None) == value || card_range(value, None) == -value
            &&& card_range(value, None) >= 0
        }),
{
}

/// An average does not depend on how often everything was counted: twice the sum
/// of twice as many values reads the same.
pub proof fn law_averages_do_not_depend_on_the_count(
    sum: int,
    count: int,
    factor: int,
    multiplier: nat,
    decimals: nat,
)
    requires
        count > 0,
        factor > 0,
    ensures
        average_text(sum * factor, count * factor, multiplier, decimals) == average_text(
            sum,
            count,
            multiplier,
            decimals,
        ),
{
    let size = magnitude(sum) as nat;
    assert(magnitude(sum * factor) == size * factor && (sum * factor < 0) == (sum < 0))
        by (nonlinear_arith)
        requires
            factor > 0,
            size == magnitude(sum),
    ;
    assert(count * factor * 1_000_000 == count * 1_000_000 * factor) by (nonlinear_arith);
    lemma_nearest_common(size, (count * 1_000_000) as nat, factor as nat);
}

/// The net energy is shown by its size, behind an arrow that says which way it
/// flowed.
pub proof fn law_the_arrow_says_which_way_energy_flowed(
    presentation: EnergyPresentation,
    energy: i128,
    net: i128,
    energy_text: Seq<char>,
    net_text: Seq<char>,
)
    requires
        shows_pair(presentation, energy, net, energy_text, net_text),
        net > i128::MIN,
    ensures
        net > 0 ==> net_text == "↑"@ + " "@ + presentation.text(net as int),
        net < 0 ==> net_text == "↓"@ + " "@ + presentation.text(-net),
        net == 0 ==> net_text == "•"@ + " "@ + presentation.text(0),
        energy_text == presentation.text(energy as int),
{
}

} // verus!
