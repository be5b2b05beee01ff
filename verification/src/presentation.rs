//! How measured values read: engineering units for axes and cards, energy and
//! capacity, durations.
//!
//! Voltages, currents and powers are integers in billionths of a millionth of
//! their unit, so that averages keep their fractions; energies and charges are
//! exact, in the units of the measurement.
use vstd::prelude::*;
use vstd::string::*;

use crate::binary64::{
    append_places, lemma_nearest_bounds, lemma_rounded_bounds, lemma_rounded_size,
    lemma_unit_bound, nearest, nearest_quotient, places_text, power_of_ten, round_half_even,
    rounding_unit, Binary64, Double, MAX_DENOMINATOR, MAX_INVERSE, MAX_NUMERATOR,
    SIGNIFICAND_LIMIT, SIGNIFICAND_START,
};
use crate::measurement::magnitude;
use crate::navigator::FINE;
use crate::recording::{excess, Completeness};
use crate::text::{append_decimal, append_padded, decimal, padded};

verus! {

/// Units of an exact energy in one microwatt-hour.
pub const MICRO: u128 = 7_200_000_000;

/// Fine parts in one unit.
pub const FINE_UNIT: u128 = 1_000_000_000_000_000;

/// The largest size of a reading, in fine parts.
pub const MAX_READING: u128 = 9_223_372_036_854_775_808_000_000_000;

/// What is smaller than the inverse of this cannot be seen on a card: 2 to the
/// power of 71.
const SEEN_INVERSE: u128 = 0x80_0000_0000_0000_0000;

/// A physical quantity that a card shows.
#[derive(Debug, Clone, Copy, PartialEq, Eq, Structural)]
pub enum MeasurementUnit {
    Voltage,
    Current,
    Power,
}

impl MeasurementUnit {
    /// The symbol of the unit.
    pub open spec fn plain(self) -> Seq<char> {
        match self {
            MeasurementUnit::Voltage => "V"@,
            MeasurementUnit::Current => "A"@,
            MeasurementUnit::Power => "W"@,
        }
    }

    /// The symbol of a thousandth of the unit.
    pub open spec fn milli(self) -> Seq<char> {
        match self {
            MeasurementUnit::Voltage => "mV"@,
            MeasurementUnit::Current => "mA"@,
            MeasurementUnit::Power => "mW"@,
        }
    }

    /// The symbol of a millionth of the unit.
    pub open spec fn micro(self) -> Seq<char> {
        match self {
            MeasurementUnit::Voltage => "µV"@,
            MeasurementUnit::Current => "µA"@,
            MeasurementUnit::Power => "µW"@,
        }
    }

    /// The symbol of the unit.
    pub fn symbol(self) -> (symbol: &'static str)
        ensures
            symbol@ == self.plain(),
    {
        match self {
            MeasurementUnit::Voltage => "V",
            MeasurementUnit::Current => "A",
            MeasurementUnit::Power => "W",
        }
    }

    /// The symbol of a thousandth of the unit.
    pub fn milli_symbol(self) -> (symbol: &'static str)
        ensures
            symbol@ == self.milli(),
    {
        match self {
            MeasurementUnit::Voltage => "mV",
            MeasurementUnit::Current => "mA",
            MeasurementUnit::Power => "mW",
        }
    }

    /// The symbol of a millionth of the unit.
    pub fn micro_symbol(self) -> (symbol: &'static str)
        ensures
            symbol@ == self.micro(),
    {
        match self {
            MeasurementUnit::Voltage => "µV",
            MeasurementUnit::Current => "µA",
            MeasurementUnit::Power => "µW",
        }
    }
}

/// The size of a signed number.
pub fn unsigned(value: i128) -> (result: u128)
    ensures
        result == magnitude(value as int),
{
    if value < 0 {
        (-(value + 1)) as u128 + 1
    } else {
        value as u128
    }
}

/// The engineering unit that a range is shown in.
///
/// Only the presentation changes with it: a range of 0.004 A is labelled in mA
/// instead of collapsing every tick to `0.00 A`.
#[derive(Debug, Clone, Copy, PartialEq, Eq)]
pub struct EngineeringPresentation {
    /// How many of the shown units make one unit.
    pub multiplier: u32,
    pub symbol: &'static str,
    pub decimals: u8,
}

/// How many of the shown units make one unit, for a range up to `maximum` fine
/// parts.
pub open spec fn shown_multiplier(maximum: nat) -> nat {
    if 0 < maximum < 100 * FINE {
        1_000_000
    } else if 0 < maximum < 100_000 * FINE {
        1_000
    } else {
        1
    }
}

/// How many decimals a range up to `maximum` fine parts is shown with, so that
/// fifths of it stay distinct.
pub open spec fn shown_decimals(maximum: nat) -> nat {
    let scaled = maximum * shown_multiplier(maximum);
    if scaled >= 500_000_000 * FINE {
        0
    } else if scaled >= 50_000_000 * FINE {
        1
    } else if scaled >= 5_000_000 * FINE {
        2
    } else if scaled >= 500_000 * FINE {
        3
    } else if scaled >= 50_000 * FINE {
        4
    } else {
        5
    }
}

/// The symbol that a range up to `maximum` fine parts is shown with.
pub open spec fn shown_symbol(maximum: nat, unit: MeasurementUnit) -> Seq<char> {
    if shown_multiplier(maximum) == 1_000_000 {
        unit.micro()
    } else if shown_multiplier(maximum) == 1_000 {
        unit.milli()
    } else {
        unit.plain()
    }
}

/// `size` fine parts of a unit, `multiplier` of which are shown as one, with
/// `decimals` decimals: it reads like the double nearest to it.
pub open spec fn shown_size(size: nat, multiplier: nat, decimals: nat) -> Seq<char> {
    nearest(size, FINE_UNIT as nat).product(Double::whole(multiplier)).text(decimals)
}

/// `value` fine parts of a unit, `multiplier` of which are shown as one, with
/// `decimals` decimals.
pub open spec fn shown_value(value: int, multiplier: nat, decimals: nat) -> Seq<char> {
    let size = shown_size(magnitude(value) as nat, multiplier, decimals);
    if value < 0 {
        "-"@ + size
    } else {
        size
    }
}

impl EngineeringPresentation {
    /// The presentation of a range up to `maximum` fine parts.
    pub fn for_maximum(maximum: u128, unit: MeasurementUnit) -> (presentation:
        EngineeringPresentation)
        ensures
            presentation.multiplier == shown_multiplier(maximum as nat),
            presentation.decimals == shown_decimals(maximum as nat),
            presentation.symbol@ == shown_symbol(maximum as nat, unit),
    {
        let (multiplier, symbol): (u32, &'static str) = if maximum > 0 && maximum
            < 100_000_000_000 {
            (1_000_000, unit.micro_symbol())
        } else if maximum > 0 && maximum < 100_000_000_000_000 {
            (1_000, unit.milli_symbol())
        } else {
            (1, unit.symbol())
        };
        assert(multiplier == 1 || maximum * multiplier <= 100_000_000_000_000 * 1_000_000)
            by (nonlinear_arith)
            requires
                multiplier == 1 || (multiplier <= 1_000_000 && maximum < 100_000_000_000_000),
        ;
        let scaled: u128 = maximum * multiplier as u128;
        let decimals: u8 = if scaled >= 500_000_000_000_000_000 {
            0
        } else if scaled >= 50_000_000_000_000_000 {
            1
        } else if scaled >= 5_000_000_000_000_000 {
            2
        } else if scaled >= 500_000_000_000_000 {
            3
        } else if scaled >= 50_000_000_000_000 {
            4
        } else {
            5
        };
        EngineeringPresentation { multiplier, symbol, decimals }
    }

    /// The presentation of a single value, in fine parts.
    pub fn for_value(value: i128, unit: MeasurementUnit) -> (presentation: EngineeringPresentation)
        ensures
            presentation.multiplier == shown_multiplier(magnitude(value as int) as nat),
            presentation.decimals == shown_decimals(magnitude(value as int) as nat),
            presentation.symbol@ == shown_symbol(magnitude(value as int) as nat, unit),
    {
        EngineeringPresentation::for_maximum(unsigned(value), unit)
    }

    /// `value` fine parts in the shown unit.
    pub fn format_value(self, value: i128) -> (text: String)
        requires
            1 <= self.multiplier <= 1_000_000,
            self.decimals <= 5,
            magnitude(value as int) <= MAX_READING,
        ensures
            text@ == shown_value(value as int, self.multiplier as nat, self.decimals as nat),
    {
        let mut text = if value < 0 {
            "-".to_owned()
        } else {
            String::new()
        };
        let size: u128 = unsigned(value);
        append_product(&mut text, size, FINE_UNIT, self.multiplier, self.decimals);
        assert(text@ =~= shown_value(value as int, self.multiplier as nat, self.decimals as nat));
        text
    }
}

/// Appends the double nearest to `numerator / denominator`, times `multiplier`,
/// with `decimals` decimals.
pub fn append_product(
    text: &mut String,
    numerator: u128,
    denominator: u128,
    multiplier: u32,
    decimals: u8,
)
    requires
        0 < denominator <= 0x10_0000_0000_0000_0000_0000,
        numerator < denominator * SIGNIFICAND_LIMIT,
        numerator <= MAX_NUMERATOR,
        1 <= multiplier <= 1_000_000,
        decimals <= 5,
    ensures
        final(text)@ == old(text)@ + nearest(numerator as nat, denominator as nat).product(
            Double::whole(multiplier as nat),
        ).text(decimals as nat),
{
    let ghost n = numerator as int;
    let ghost d = denominator as int;
    let ghost first = nearest(n as nat, d as nat);
    proof {
        lemma_nearest_bounds(n as nat, d as nat);
    }
    if numerator > 0 && numerator < 0x2000 && numerator * SEEN_INVERSE < denominator {
        // Too small to be seen.
        proof {
            lemma_tiny_product(n as nat, d as nat, multiplier as nat, decimals as nat);
        }
        append_places(text, 0, decimals);
        return;
    }
    proof {
        assert(n > 0 ==> d <= n * SEEN_INVERSE);
    }
    let quotient = nearest_quotient(numerator, denominator);
    let ghost scale = quotient.denominator as int;
    let ghost product = quotient.numerator * multiplier;
    proof {
        if n > 0 && scale > 1 {
            assert(scale < SEEN_INVERSE * SIGNIFICAND_LIMIT) by (nonlinear_arith)
                requires
                    scale * n < d * SIGNIFICAND_LIMIT,
                    d <= n * SEEN_INVERSE,
                    n > 0,
            ;
        }
        assert(0 <= product <= SIGNIFICAND_LIMIT * 1_000_000 && (n > 0 ==> product
            >= SIGNIFICAND_START)) by (nonlinear_arith)
            requires
                product == quotient.numerator * multiplier,
                0 <= quotient.numerator <= SIGNIFICAND_LIMIT,
                n > 0 ==> quotient.numerator >= SIGNIFICAND_START,
                1 <= multiplier <= 1_000_000,
        ;
        if product > 0 {
            assert(n > 0) by (nonlinear_arith)
                requires
                    product > 0,
                    product == quotient.numerator * multiplier,
                    n == 0 ==> quotient.numerator == 0,
                    n >= 0,
            ;
        }
        lemma_nearest_bounds(product as nat, scale as nat);
        lemma_rounded_size(product, scale, nearest(product as nat, scale as nat));
    }
    let shown = quotient.times(Binary64::whole(multiplier as u128));
    proof {
        let last = shown.denominator as int;
        if product > 0 && last > 1 {
            assert(last <= MAX_DENOMINATOR) by (nonlinear_arith)
                requires
                    last * product < scale * SIGNIFICAND_LIMIT,
                    product >= SIGNIFICAND_START,
                    scale <= SEEN_INVERSE * SIGNIFICAND_LIMIT,
            ;
        }
    }
    shown.append_to(text, decimals);
}

/// A quotient far below what is shown reads as zero.
proof fn lemma_tiny_product(n: nat, d: nat, multiplier: nat, decimals: nat)
    requires
        0 < n,
        n * SEEN_INVERSE < d,
        1 <= multiplier <= 1_000_000,
        decimals <= 5,
    ensures
        nearest(n, d).product(Double::whole(multiplier)).text(decimals) == places_text(0, decimals),
{
    let first = nearest(n, d);
    lemma_nearest_bounds(n, d);
    let product = (first.numerator * multiplier) as nat;
    let second = nearest(product, first.denominator);
    lemma_nearest_bounds(product, first.denominator);
    assert(first.denominator * 1 == first.denominator);
    reveal_with_fuel(power_of_ten, 6);
    let scale = power_of_ten(decimals);
    assert(1 <= scale <= 100_000);
    let a = first.numerator as int;
    let b = first.denominator as int;
    let x = second.numerator as int;
    let y = second.denominator as int;
    // `a / b` is at most `2 n / d`, and `x / y` at most twice `a * multiplier / b`.
    assert(a * SEEN_INVERSE < 2 * b) by (nonlinear_arith)
        requires
            a * d <= 2 * (n * b),
            n * SEEN_INVERSE < d,
            n > 0,
            b > 0,
            a >= 0,
    ;
    assert(product * SEEN_INVERSE < 2 * b * 1_000_000) by (nonlinear_arith)
        requires
            product == a * multiplier,
            a * SEEN_INVERSE < 2 * b,
            1 <= multiplier <= 1_000_000,
            a >= 0,
            b > 0,
    ;
    assert(x * SEEN_INVERSE < 4 * y * 1_000_000) by (nonlinear_arith)
        requires
            x * b <= 2 * (product * y),
            product * SEEN_INVERSE < 2 * b * 1_000_000,
            b > 0,
            y > 0,
    ;
    let places = x * scale;
    assert(2 * places < y) by (nonlinear_arith)
        requires
            places == x * scale,
            1 <= scale <= 100_000,
            x >= 0,
            y > 0,
            x * SEEN_INVERSE < 4 * y * 1_000_000,
            SEEN_INVERSE >= 0x80_0000_0000_0000_0000,
    ;
    assert(0 <= places) by (nonlinear_arith)
        requires
            places == x * scale,
            x >= 0,
            scale >= 1,
    ;
    vstd::arithmetic::div_mod::lemma_fundamental_div_mod_converse(places, y, 0, places);
    assert(round_half_even((second.numerator * scale) as nat, second.denominator) == 0);
}

/// The smallest of 1, 2 and 5 times a power of ten, from `decade` on, that is
/// not below `value`.
pub open spec fn nice_from(value: nat, decade: nat) -> nat
    decreases 10 * value - decade,
{
    if decade == 0 || value <= decade {
        decade
    } else if value <= 2 * decade {
        2 * decade
    } else if value <= 5 * decade {
        5 * decade
    } else {
        nice_from(value, 10 * decade)
    }
}

/// The smallest 1, 2 or 5 times a power of ten that is not below `value` fine
/// parts; one unit where there is nothing to show.
pub open spec fn nice_ceiling(value: nat) -> nat {
    if value == 0 {
        FINE_UNIT as nat
    } else {
        nice_from(value, 1)
    }
}

/// The smallest 1, 2 or 5 times a power of ten that is not below `value` fine
/// parts; one unit where there is nothing to show.
pub fn nice_axis_ceiling(value: u128) -> (ceiling: u128)
    requires
        value <= 2 * MAX_READING,
    ensures
        ceiling == nice_ceiling(value as nat),
{
    if value == 0 {
        return FINE_UNIT;
    }
    let mut decade: u128 = 1;
    while value > 5 * decade
        invariant
            0 < value <= 2 * MAX_READING,
            decade >= 1,
            decade == 1 || decade < 2 * value,
            nice_from(value as nat, 1) == nice_from(value as nat, decade as nat),
        decreases 10 * value - decade,
    {
        decade = decade * 10;
    }
    if value <= decade {
        decade
    } else if value <= 2 * decade {
        2 * decade
    } else {
        5 * decade
    }
}

/// `value` and six per cent of it, rounded up.
pub open spec fn with_headroom(value: nat) -> nat {
    (value * 106 + 99) / 100
}

/// The end of an axis that shows values up to `value` fine parts: six per cent
/// stay free above them.
pub open spec fn axis_ceiling(value: nat) -> nat {
    nice_ceiling(with_headroom(value))
}

/// The axis of a chart, from zero to `maximum` fine parts.
#[derive(Debug, Clone, Copy, PartialEq, Eq, Structural)]
pub struct AxisScale {
    pub maximum: u128,
}

impl AxisScale {
    /// What holds of the axis of any line.
    pub open spec fn well_formed(self) -> bool {
        0 < self.maximum <= 11 * MAX_READING
    }

    /// Where a value lies on the axis, in billionths of its length; what lies
    /// outside is drawn at the end.
    pub open spec fn share(self, value: int) -> int {
        if value <= 0 {
            0
        } else if value >= self.maximum {
            FINE as int
        } else {
            value * FINE / self.maximum as int
        }
    }

    /// The axis that shows values up to `value` fine parts; below zero there is
    /// nothing to show.
    pub fn from_visible_max(value: i128) -> (scale: AxisScale)
        requires
            value <= MAX_READING,
        ensures
            scale.maximum == axis_ceiling(if value < 0 { 0 } else { value as nat }),
            scale.well_formed(),
    {
        proof {
            if value > 0 {
                law_axis_holds_its_values(value as nat);
            }
        }
        let size: u128 = if value < 0 {
            0
        } else {
            value as u128
        };
        AxisScale { maximum: nice_axis_ceiling((size * 106 + 99) / 100) }
    }

    /// Where a value lies on the axis, in billionths of its length.
    pub fn normalize(self, value: i128) -> (share: u128)
        requires
            self.well_formed(),
        ensures
            share == self.share(value as int),
    {
        if value <= 0 {
            0
        } else if value as u128 >= self.maximum {
            1_000_000_000
        } else {
            value as u128 * 1_000_000_000 / self.maximum
        }
    }

    /// The value at so many billionths of the axis.
    pub fn denormalize(self, share: u128) -> (value: u128)
        requires
            self.well_formed(),
            share <= FINE,
        ensures
            value == share * self.maximum / FINE as int,
    {
        assert(0 <= share * self.maximum <= FINE * (11 * MAX_READING)) by (nonlinear_arith)
            requires
                0 <= share <= FINE,
                0 <= self.maximum <= 11 * MAX_READING,
        ;
        share * self.maximum / 1_000_000_000
    }

    /// How values on the axis are shown.
    pub fn presentation(self, unit: MeasurementUnit) -> (presentation: EngineeringPresentation)
        ensures
            presentation.multiplier == shown_multiplier(self.maximum as nat),
            presentation.decimals == shown_decimals(self.maximum as nat),
            presentation.symbol@ == shown_symbol(self.maximum as nat, unit),
    {
        EngineeringPresentation::for_maximum(self.maximum, unit)
    }
}

/// An axis always reaches above what it shows, and never more than tenfold.
pub proof fn law_axis_holds_its_values(value: nat)
    requires
        value > 0,
    ensures
        axis_ceiling(value) * 100 >= value * 106,
        axis_ceiling(value) <= 11 * value,
{
    lemma_nice_bounds(with_headroom(value), 1);
}

/// A nice number is not below its value and less than five times as large.
proof fn lemma_nice_bounds(value: nat, decade: nat)
    requires
        decade >= 1,
        value > 0,
        decade == 1 || value * 2 > decade,
    ensures
        nice_from(value, decade) >= value,
        nice_from(value, decade) == 1 || nice_from(value, decade) * 2 <= value * 5,
    decreases 10 * value - decade,
{
    if value > 5 * decade {
        lemma_nice_bounds(value, 10 * decade);
    }
}

/// An exact energy or charge of `size` units in microwatt hours or microampere
/// hours, as a double.
pub open spec fn micro_hours(size: nat) -> Double {
    nearest(size, 1).quotient(Double::whole(MICRO as nat))
}

/// An exact energy or charge of `size` units, shown in a unit of `divisor`
/// microwatt hours or microampere hours, with `decimals` decimals.
pub open spec fn amount_text(size: nat, divisor: nat, decimals: nat) -> Seq<char> {
    micro_hours(size).quotient(Double::whole(divisor)).text(decimals)
}

/// Whether `double` can stand for an amount.
spec fn is_amount(double: Binary64) -> bool {
    &&& double.numerator == 0 || double.numerator >= SIGNIFICAND_START
    &&& double.numerator <= 0x10_0000_0000_0000_0000_0000_0000
    &&& 0 < double.denominator <= 0x100_0000_0000_0000_0000_0000
}

/// An exact energy or charge of `size` units as a double.
fn amount(size: u128) -> (double: Binary64)
    requires
        size <= 0x8000_0000_0000_0000_0000_0000_0000_0000,
    ensures
        double@ == micro_hours(size as nat),
        is_amount(double),
{
    proof {
        lemma_nearest_bounds(size as nat, 1);
        lemma_large_size(size as int, nearest(size as nat, 1));
    }
    let count = nearest_quotient(size, 1);
    let ghost n = count.numerator as int;
    let ghost d = count.denominator * MICRO;
    proof {
        assert(count.numerator * 1 == n);
        assert(0 < d <= SIGNIFICAND_LIMIT * MICRO) by (nonlinear_arith)
            requires
                d == count.denominator * MICRO,
                0 < count.denominator <= SIGNIFICAND_LIMIT,
                MICRO > 0,
        ;
        lemma_nearest_bounds(n as nat, d as nat);
    }
    let double = count.over(Binary64::whole(MICRO));
    proof {
        let scale = double.denominator as int;
        let rounded = double.numerator as int;
        if n > 0 && scale > 1 {
            assert(scale <= 2 * SIGNIFICAND_LIMIT * MICRO) by (nonlinear_arith)
                requires
                    scale * n < d * SIGNIFICAND_LIMIT,
                    n >= SIGNIFICAND_START,
                    d <= SIGNIFICAND_LIMIT * MICRO,
                    SIGNIFICAND_LIMIT == 2 * SIGNIFICAND_START,
                    SIGNIFICAND_START > 0,
                    MICRO > 0,
            ;
        }
        if n >= d * SIGNIFICAND_LIMIT {
            assert(count.denominator >= 1);
            assert(rounded * MICRO <= 2 * n) by (nonlinear_arith)
                requires
                    rounded * d <= 2 * (n * 1),
                    d == count.denominator * MICRO,
                    count.denominator >= 1,
                    rounded >= 0,
                    MICRO > 0,
            ;
        }
    }
    double
}

/// The numbers that make up the double of an integer.
proof fn lemma_large_size(size: int, double: Double)
    requires
        0 <= size <= 0x8000_0000_0000_0000_0000_0000_0000_0000,
        double == nearest(size as nat, 1),
    ensures
        double.numerator <= MAX_NUMERATOR,
        0 < double.denominator <= SIGNIFICAND_LIMIT,
{
    lemma_nearest_bounds(size as nat, 1);
    lemma_rounded_size(size, 1, double);
    if size >= SIGNIFICAND_LIMIT {
        let unit = rounding_unit(size as nat) as int;
        assert(size / 1 == size);
        assert(1 * unit == unit);
        lemma_unit_bound(size as nat);
        lemma_rounded_bounds(size as nat, unit as nat);
    }
}

/// Appends a double that stands for an amount, in a unit of `divisor`.
fn append_amount(text: &mut String, double: Binary64, divisor: u32, decimals: u8)
    requires
        is_amount(double),
        1 <= divisor <= 1_000_000,
        decimals <= 5,
    ensures
        final(text)@ == old(text)@ + double@.quotient(Double::whole(divisor as nat)).text(
            decimals as nat,
        ),
{
    let ghost n = double.numerator as int;
    let ghost d = double.denominator * divisor;
    proof {
        assert(0 < d <= 0x100_0000_0000_0000_0000_0000 * 1_000_000) by (nonlinear_arith)
            requires
                d == double.denominator * divisor,
                0 < double.denominator <= 0x100_0000_0000_0000_0000_0000,
                1 <= divisor <= 1_000_000,
        ;
        lemma_nearest_bounds(n as nat, d as nat);
        lemma_rounded_size(n, d, nearest(n as nat, d as nat));
        assert(double.numerator * 1 == n);
    }
    let shown = double.over(Binary64::whole(divisor as u128));
    proof {
        let scale = shown.denominator as int;
        if n > 0 && scale > 1 {
            assert(scale <= MAX_DENOMINATOR) by (nonlinear_arith)
                requires
                    scale * n < d * SIGNIFICAND_LIMIT,
                    n >= SIGNIFICAND_START,
                    d <= 0x100_0000_0000_0000_0000_0000 * 1_000_000,
            ;
        }
    }
    shown.append_to(text, decimals);
}

/// Whether a double that stands for an amount is `bound` or more.
fn at_least(double: Binary64, bound: u32) -> (result: bool)
    requires
        is_amount(double),
        bound <= 1_000_000,
    ensures
        result == double@.reaches(bound as nat),
{
    assert(0 <= bound * double.denominator <= 1_000_000 * 0x100_0000_0000_0000_0000_0000)
        by (nonlinear_arith)
        requires
            0 <= bound <= 1_000_000,
            0 <= double.denominator <= 0x100_0000_0000_0000_0000_0000,
    ;
    double.numerator >= bound as u128 * double.denominator
}

/// The energy as the toolbar shows it; an energy below zero is shown as zero.
pub open spec fn cumulative_energy_text(energy: int) -> Seq<char> {
    let size = if energy < 0 { 0 } else { energy as nat };
    if micro_hours(size).reaches(1_000_000) {
        amount_text(size, 1_000_000, 4) + " Wh"@
    } else if micro_hours(size).reaches(1_000) {
        amount_text(size, 1_000, 3) + " mWh"@
    } else {
        micro_hours(size).text(1) + " µWh"@
    }
}

/// The energy as the toolbar shows it; an energy below zero is shown as zero.
pub fn format_cumulative_energy(energy: i128) -> (text: String)
    ensures
        text@ == cumulative_energy_text(energy as int),
{
    let size: u128 = if energy < 0 {
        0
    } else {
        energy as u128
    };
    let double = amount(size);
    let mut text = String::new();
    if at_least(double, 1_000_000) {
        append_amount(&mut text, double, 1_000_000, 4);
        text.append(" Wh");
    } else if at_least(double, 1_000) {
        append_amount(&mut text, double, 1_000, 3);
        text.append(" mWh");
    } else {
        double.append_to(&mut text, 1);
        text.append(" µWh");
    }
    assert(text@ =~= cumulative_energy_text(energy as int));
    text
}

/// The unit that a group of energies is shown in.
#[derive(Debug, Clone, Copy, PartialEq, Eq)]
pub struct EnergyPresentation {
    /// Microwatt hours in one of the shown unit.
    pub divisor: u32,
    pub symbol: &'static str,
    pub decimals: u8,
}

/// The largest size among `values`.
pub open spec fn largest(values: Seq<i128>) -> int
    decreases values.len(),
{
    if values.len() == 0 {
        0
    } else {
        let rest = largest(values.drop_last());
        let size = magnitude(values.last() as int);
        if size > rest {
            size
        } else {
            rest
        }
    }
}

impl EnergyPresentation {
    /// The presentation of energies up to `maximum`.
    pub open spec fn is_for(self, maximum: int) -> bool {
        if micro_hours(maximum as nat).reaches(1_000_000) {
            self.divisor == 1_000_000 && self.symbol@ == "Wh"@ && self.decimals == 4
        } else if micro_hours(maximum as nat).reaches(1_000) {
            self.divisor == 1_000 && self.symbol@ == "mWh"@ && self.decimals == 3
        } else {
            self.divisor == 1 && self.symbol@ == "µWh"@ && self.decimals == 1
        }
    }

    /// The divisor and the decimals are among those in use.
    pub open spec fn well_formed(self) -> bool {
        &&& 1 <= self.divisor <= 1_000_000
        &&& self.decimals <= 5
    }

    /// The energy of `size` units as it is shown.
    pub open spec fn text(self, energy: int) -> Seq<char> {
        let size = amount_text(
            magnitude(energy) as nat,
            self.divisor as nat,
            self.decimals as nat,
        );
        (if energy < 0 { "-"@ + size } else { size }) + " "@ + self.symbol@
    }

    /// The presentation that suits the largest of `values`.
    pub fn for_values(values: &Vec<i128>) -> (presentation: EnergyPresentation)
        ensures
            presentation.is_for(largest(values@)),
            presentation.well_formed(),
    {
        let mut maximum: u128 = 0;
        let mut i: usize = 0;
        while i < values.len()
            invariant
                i <= values.len(),
                maximum == largest(values@.take(i as int)),
                maximum <= 0x8000_0000_0000_0000_0000_0000_0000_0000,
            decreases values.len() - i,
        {
            assert(values@.take(i + 1).drop_last() =~= values@.take(i as int));
            let size: u128 = unsigned(values[i]);
            if size > maximum {
                maximum = size;
            }
            i += 1;
        }
        assert(values@.take(i as int) =~= values@);
        let double = amount(maximum);
        if at_least(double, 1_000_000) {
            EnergyPresentation { divisor: 1_000_000, symbol: "Wh", decimals: 4 }
        } else if at_least(double, 1_000) {
            EnergyPresentation { divisor: 1_000, symbol: "mWh", decimals: 3 }
        } else {
            EnergyPresentation { divisor: 1, symbol: "µWh", decimals: 1 }
        }
    }

    /// The energy as it is shown.
    pub fn format(self, energy: i128) -> (text: String)
        requires
            self.well_formed(),
        ensures
            text@ == self.text(energy as int),
    {
        let mut text = if energy < 0 {
            "-".to_owned()
        } else {
            String::new()
        };
        append_amount(&mut text, amount(unsigned(energy)), self.divisor, self.decimals);
        let ghost size = amount_text(
            magnitude(energy as int) as nat,
            self.divisor as nat,
            self.decimals as nat,
        );
        assert(text@ =~= (if energy < 0 { "-"@ + size } else { size }));
        text.append(" ");
        text.append(self.symbol);
        text
    }

    /// The size of the energy behind an arrow for its direction.
    pub fn format_directional(self, energy: i128) -> (text: String)
        requires
            self.well_formed(),
        ensures
            text@ == (if energy > 0 {
                "↑"@
            } else if energy < 0 {
                "↓"@
            } else {
                "•"@
            }) + " "@ + self.text(magnitude(energy as int)),
    {
        let mut text = (if energy > 0 {
            "↑"
        } else if energy < 0 {
            "↓"
        } else {
            "•"
        }).to_owned();
        text.append(" ");
        let ghost head = text@;
        append_amount(&mut text, amount(unsigned(energy)), self.divisor, self.decimals);
        text.append(" ");
        text.append(self.symbol);
        assert(text@ =~= head + self.text(magnitude(energy as int)));
        text
    }
}

/// The capacity as it is shown.
pub open spec fn capacity_text(charge: int) -> Seq<char> {
    let size = magnitude(charge) as nat;
    let number = if micro_hours(size).reaches(1_000_000) {
        amount_text(size, 1_000_000, 4) + " Ah"@
    } else {
        amount_text(size, 1_000, 3) + " mAh"@
    };
    if charge < 0 {
        "-"@ + number
    } else {
        number
    }
}

/// The capacity as it is shown.
pub fn format_capacity(charge: i128) -> (text: String)
    ensures
        text@ == capacity_text(charge as int),
{
    let size: u128 = unsigned(charge);
    let mut text = if charge < 0 {
        "-".to_owned()
    } else {
        String::new()
    };
    let double = amount(size);
    if at_least(double, 1_000_000) {
        append_amount(&mut text, double, 1_000_000, 4);
        text.append(" Ah");
    } else {
        append_amount(&mut text, double, 1_000, 3);
        text.append(" mAh");
    }
    assert(text@ =~= capacity_text(charge as int));
    text
}

/// A duration as hours, minutes, seconds and tenths.
pub open spec fn duration_text(millis: nat) -> Seq<char> {
    let hours = millis / 3_600_000;
    (if hours < 100 { padded(hours, 10, 2) } else { decimal(hours) }) + ":"@ + padded(
        (millis / 60_000) % 60,
        10,
        2,
    ) + ":"@ + padded((millis / 1_000) % 60, 10, 2) + "."@ + decimal((millis % 1_000) / 100)
}

/// A duration in milliseconds as hours, minutes, seconds and tenths.
pub fn format_recording_duration(millis: u128) -> (text: String)
    ensures
        text@ == duration_text(millis as nat),
{
    let hours: u128 = millis / 3_600_000;
    let mut text = String::new();
    if hours < 100 {
        append_padded(&mut text, hours, 10, 2);
    } else {
        append_decimal(&mut text, hours);
    }
    text.append(":");
    append_padded(&mut text, (millis / 60_000) % 60, 10, 2);
    text.append(":");
    append_padded(&mut text, (millis / 1_000) % 60, 10, 2);
    text.append(".");
    append_decimal(&mut text, (millis % 1_000) / 100);
    assert(text@ =~= duration_text(millis as nat));
    text
}

/// A time on the plot in microseconds, as hours, minutes, seconds and tenths.
pub fn format_plot_time(time_us: u64) -> (text: String)
    ensures
        text@ == duration_text(time_us as nat / 1_000),
{
    format_recording_duration((time_us / 1_000) as u128)
}

/// A completeness as a double, between 0 and 1: one less the share of the time
/// that was not measured.
pub open spec fn measured_share(completeness: Completeness) -> Double {
    let missing = nearest(
        excess(completeness.elapsed_us, completeness.measured_us) as nat,
        1,
    ).quotient(nearest(completeness.elapsed_us as nat, 1));
    if missing.numerator >= missing.denominator {
        Double::whole(0)
    } else {
        nearest((missing.denominator - missing.numerator) as nat, missing.denominator)
    }
}

/// A completeness in per cent with `decimals` decimals.
pub open spec fn percent_text(completeness: Completeness, decimals: nat) -> Seq<char> {
    measured_share(completeness).product(Double::whole(100)).text(decimals) + "%"@
}

/// The double of a count.
fn counted(count: u64) -> (double: Binary64)
    ensures
        double@ == nearest(count as nat, 1),
        double.numerator == 0 || double.numerator >= SIGNIFICAND_START,
        double.numerator <= 0x2_0000_0000_0000_0000,
        0 < double.denominator <= SIGNIFICAND_LIMIT,
        count > 0 ==> double.numerator > 0,
{
    proof {
        lemma_nearest_bounds(count as nat, 1);
        lemma_rounded_size(count as int, 1, nearest(count as nat, 1));
    }
    nearest_quotient(count as u128, 1)
}

/// A completeness as a double, between 0 and 1.
fn share_measured(completeness: Completeness) -> (share: Binary64)
    requires
        completeness.elapsed_us > 0,
    ensures
        share@ == measured_share(completeness),
        share.numerator == 0 || share.numerator >= SIGNIFICAND_START,
        share.numerator <= SIGNIFICAND_LIMIT,
        0 < share.denominator <= SIGNIFICAND_LIMIT * 0x40_0000_0000_0000,
{
    let lost: u64 = if completeness.elapsed_us > completeness.measured_us {
        completeness.elapsed_us - completeness.measured_us
    } else {
        0
    };
    let part = counted(lost);
    let all = counted(completeness.elapsed_us);
    let ghost n = part.numerator * all.denominator;
    let ghost d = part.denominator * all.numerator;
    proof {
        assert(0 <= n <= 0x2_0000_0000_0000_0000 * SIGNIFICAND_LIMIT && (n > 0 ==> n
            >= SIGNIFICAND_START)) by (nonlinear_arith)
            requires
                n == part.numerator * all.denominator,
                part.numerator == 0 || part.numerator >= SIGNIFICAND_START,
                0 <= part.numerator <= 0x2_0000_0000_0000_0000,
                1 <= all.denominator <= SIGNIFICAND_LIMIT,
        ;
        assert(0 < d <= 0x2_0000_0000_0000_0000 * SIGNIFICAND_LIMIT) by (nonlinear_arith)
            requires
                d == part.denominator * all.numerator,
                0 < all.numerator <= 0x2_0000_0000_0000_0000,
                1 <= part.denominator <= SIGNIFICAND_LIMIT,
        ;
        lemma_nearest_bounds(n as nat, d as nat);
        lemma_rounded_size(n, d, nearest(n as nat, d as nat));
    }
    let missing = part.over(all);
    let ghost e = missing.denominator as int;
    proof {
        if n > 0 && e > 1 {
            assert(e < 0x2_0000_0000_0000_0000 * SIGNIFICAND_LIMIT * 2) by (nonlinear_arith)
                requires
                    e * n < d * SIGNIFICAND_LIMIT,
                    n >= SIGNIFICAND_START,
                    d <= 0x2_0000_0000_0000_0000 * SIGNIFICAND_LIMIT,
                    SIGNIFICAND_LIMIT == 2 * SIGNIFICAND_START,
                    SIGNIFICAND_START > 0,
            ;
        }
    }
    if missing.numerator >= missing.denominator {
        return Binary64::whole(0);
    }
    let left: u128 = missing.denominator - missing.numerator;
    proof {
        lemma_nearest_bounds(left as nat, e as nat);
        assert(missing.numerator <= SIGNIFICAND_LIMIT);
        assert(e <= 0x40_0000_0000_0000 * left);
        assert(e <= left * MAX_INVERSE) by (nonlinear_arith)
            requires
                e <= 0x40_0000_0000_0000 * left,
                left >= 1,
        ;
    }
    let share = nearest_quotient(left, missing.denominator);
    proof {
        let scale = share.denominator as int;
        if scale > 1 {
            assert(scale <= SIGNIFICAND_LIMIT * 0x40_0000_0000_0000) by (nonlinear_arith)
                requires
                    scale * left < e * SIGNIFICAND_LIMIT,
                    e <= 0x40_0000_0000_0000 * left,
                    left >= 1,
            ;
        }
    }
    share
}

/// Appends a completeness in per cent with `decimals` decimals.
pub fn append_percent(text: &mut String, completeness: Completeness, decimals: u8)
    requires
        completeness.elapsed_us > 0,
        decimals <= 5,
    ensures
        final(text)@ == old(text)@ + percent_text(completeness, decimals as nat),
{
    let share = share_measured(completeness);
    let ghost n = share.numerator * 100;
    let ghost d = share.denominator as int;
    proof {
        lemma_nearest_bounds(n as nat, d as nat);
        lemma_rounded_size(n, d, nearest(n as nat, d as nat));
    }
    let percent = share.times(Binary64::whole(100));
    proof {
        let scale = percent.denominator as int;
        if n > 0 && scale > 1 {
            assert(scale <= MAX_DENOMINATOR) by (nonlinear_arith)
                requires
                    scale * n < d * SIGNIFICAND_LIMIT,
                    n >= SIGNIFICAND_START,
                    d <= SIGNIFICAND_LIMIT * 0x40_0000_0000_0000,
            ;
        }
    }
    percent.append_to(text, decimals);
    text.append("%");
    assert(text@ =~= old(text)@ + percent_text(completeness, decimals as nat));
}

/// The unit fits the largest value: millionths below a hundred millionths,
/// thousandths below a hundred thousandths, and whole units from there on and
/// where there is nothing to show. Values are shown in that unit.
pub proof fn law_the_unit_fits_the_largest_value(maximum: nat, unit: MeasurementUnit)
    ensures
        0 < maximum < 100_000_000_000 ==> shown_multiplier(maximum) == 1_000_000 && shown_symbol(
            maximum,
            unit,
        ) == unit.micro(),
        100_000_000_000 <= maximum < 100_000_000_000_000 ==> shown_multiplier(maximum) == 1_000
            && shown_symbol(maximum, unit) == unit.milli(),
        maximum == 0 || maximum >= 100_000_000_000_000 ==> shown_multiplier(maximum) == 1
            && shown_symbol(maximum, unit) == unit.plain(),
{
}

/// There are as many decimals as it takes to show the largest value in five
/// hundred steps, five at most, and no more than that.
pub proof fn law_decimals_show_five_hundred_steps(maximum: nat)
    ensures
        ({
            let steps = maximum * shown_multiplier(maximum);
            let decimals = shown_decimals(maximum);
            let one = 1_000_000_000_000_000nat;
            &&& decimals <= 5
            &&& decimals == 0 ==> steps >= 500 * one
            &&& decimals == 1 ==> 50 * one <= steps < 500 * one
            &&& decimals == 2 ==> 5 * one <= steps < 50 * one
            &&& decimals == 3 ==> one <= 2 * steps && steps < 5 * one
            &&& decimals == 4 ==> one <= 20 * steps && 2 * steps < one
            &&& decimals == 5 ==> 20 * steps < one
        }),
{
}

/// A duration reads as hours, minutes, seconds and tenths that add up to it; the
/// rest of a tenth is not shown.
pub proof fn law_a_duration_reads_as_it_adds_up(
    hours: nat,
    minutes: nat,
    seconds: nat,
    tenths: nat,
    rest: nat,
)
    requires
        minutes < 60,
        seconds < 60,
        tenths < 10,
        rest < 100,
    ensures
        duration_text(
            hours * 3_600_000 + minutes * 60_000 + seconds * 1_000 + tenths * 100 + rest,
        ) == (if hours < 100 {
            padded(hours, 10, 2)
        } else {
            decimal(hours)
        }) + ":"@ + padded(minutes, 10, 2) + ":"@ + padded(seconds, 10, 2) + "."@ + decimal(tenths),
{
    let millis = hours * 3_600_000 + minutes * 60_000 + seconds * 1_000 + tenths * 100 + rest;
    assert(millis / 3_600_000 == hours);
    assert(millis / 60_000 == hours * 60 + minutes);
    assert((hours * 60 + minutes) % 60 == minutes);
    assert(millis / 1_000 == (hours * 60 + minutes) * 60 + seconds);
    assert(((hours * 60 + minutes) * 60 + seconds) % 60 == seconds);
    assert(millis % 1_000 == tenths * 100 + rest);
    assert((tenths * 100 + rest) / 100 == tenths);
}

/// A share of an axis is proportional: it is nothing at zero and everything at
/// the top, and in between it divides the axis as the value does.
pub proof fn law_a_share_divides_the_axis(scale: AxisScale, value: int)
    requires
        scale.well_formed(),
    ensures
        value <= 0 ==> scale.share(value) == 0,
        value >= scale.maximum ==> scale.share(value) == 1_000_000_000,
        0 <= value <= scale.maximum ==> {
            &&& scale.share(value) * scale.maximum <= value * 1_000_000_000
            &&& value * 1_000_000_000 < scale.share(value) * scale.maximum + scale.maximum
        },
{
    let scaled = value * FINE;
    let maximum = scale.maximum as int;
    vstd::arithmetic::div_mod::lemma_fundamental_div_mod(scaled, maximum);
    vstd::arithmetic::div_mod::lemma_mod_bound(scaled, maximum);
    let share = scaled / maximum;
    assert(maximum * share == share * maximum) by (nonlinear_arith);
    if value == scale.maximum {
        assert(1_000_000_000 * maximum == value * 1_000_000_000);
    }
    if value == 0 {
        assert(0 * maximum == 0);
    }
}

/// A step of an axis: one, two or five, times a power of ten.
pub open spec fn is_step(value: nat, power: nat) -> bool {
    let decade = vstd::arithmetic::power::pow(10, power);
    value == decade || value == 2 * decade || value == 5 * decade
}

/// The nice number from a decade on is a step.
proof fn lemma_nice_is_a_step(value: nat, decade: nat, power: nat) -> (at: nat)
    requires
        decade == vstd::arithmetic::power::pow(10, power),
        decade > 0,
    ensures
        is_step(nice_from(value, decade), at),
        at >= power,
    decreases 10 * value - decade,
{
    if value > 5 * decade {
        vstd::arithmetic::power::lemma_pow_adds(10, 1, power);
        vstd::arithmetic::power::lemma_pow1(10);
        assert(1 + power == power + 1);
        lemma_nice_is_a_step(value, 10 * decade, power + 1)
    } else {
        power
    }
}

/// No step from a decade on that holds the value is below the nice number.
proof fn lemma_nice_is_smallest(value: nat, decade: nat, power: nat, other: nat, at: nat)
    requires
        decade == vstd::arithmetic::power::pow(10, power),
        decade > 0,
        at >= power,
        is_step(other, at),
        other >= value,
    ensures
        nice_from(value, decade) <= other,
    decreases 10 * value - decade,
{
    vstd::arithmetic::power::lemma_pow_increases(10, power, at);
    if at > power {
        vstd::arithmetic::power::lemma_pow_increases(10, power + 1, at);
        vstd::arithmetic::power::lemma_pow_adds(10, 1, power);
        vstd::arithmetic::power::lemma_pow1(10);
        assert(1 + power == power + 1);
        assert(vstd::arithmetic::power::pow(10, power + 1) == 10 * decade);
    }
    if value > 5 * decade {
        assert(at > power);
        lemma_nice_is_smallest(value, 10 * decade, power + 1, other, at);
    }
}

/// The top of an axis is the first of the numbers one, two, five, ten, twenty,
/// fifty and so on that holds the largest value and six hundredths more.
pub proof fn law_an_axis_ends_at_the_first_step_that_holds(value: nat, other: nat, power: nat)
    requires
        value > 0,
    ensures
        exists|at: nat| is_step(axis_ceiling(value), at),
        is_step(other, power) && other * 100 >= value * 106 ==> axis_ceiling(value) <= other,
        axis_ceiling(value) * 100 >= value * 106,
{
    let needed = with_headroom(value);
    vstd::arithmetic::power::lemma_pow0(10);
    let at = lemma_nice_is_a_step(needed, 1, 0);
    assert(is_step(axis_ceiling(value), at));
    if is_step(other, power) && other * 100 >= value * 106 {
        assert(other >= needed);
        lemma_nice_is_smallest(needed, 1, 0, other, power);
    }
    law_axis_holds_its_values(value);
}

/// A value below zero reads as its size behind a minus sign, and none other has
/// one.
pub proof fn law_only_values_below_zero_have_a_sign(
    value: nat,
    multiplier: nat,
    decimals: nat,
)
    requires
        value > 0,
    ensures
        shown_value(-value, multiplier, decimals) == "-"@ + shown_value(
            value as int,
            multiplier,
            decimals,
        ),
        capacity_text(-value) == "-"@ + capacity_text(value as int),
        cumulative_energy_text(-value) == cumulative_energy_text(0),
{
}

} // verus!
