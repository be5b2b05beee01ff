//! Non-negative double-precision numbers, carried exactly as integer
//! fractions: quotients and products of them rounded to the nearest double, and
//! their rendering with a fixed number of decimals.
use vstd::prelude::*;
use vstd::string::*;

use crate::text::{append_decimal, append_padded};

verus! {

/// One past the largest significand of a double: 2 to the power of 53.
pub const SIGNIFICAND_LIMIT: u64 = 0x20_0000_0000_0000;

/// The smallest significand of a double: 2 to the power of 52.
pub const SIGNIFICAND_START: u64 = 0x10_0000_0000_0000;

/// The largest denominator that is divided by: 2 to the power of 126.
pub const MAX_DENOMINATOR: u128 = 0x4000_0000_0000_0000_0000_0000_0000_0000;

/// The largest numerator that is divided: three halves of 2 to the power of
/// 127.
pub const MAX_NUMERATOR: u128 = 0xC000_0000_0000_0000_0000_0000_0000_0000;

/// The smallest quotient that is rounded is the inverse of this: 2 to the power
/// of 72.
pub const MAX_INVERSE: u128 = 0x100_0000_0000_0000_0000;

/// The double `numerator / denominator`.
pub ghost struct Double {
    pub numerator: nat,
    /// A power of two.
    pub denominator: nat,
}

/// The double `numerator / denominator`.
#[derive(Debug, Clone, Copy, PartialEq, Eq, Structural)]
pub struct Binary64 {
    pub numerator: u128,
    /// A power of two.
    pub denominator: u128,
}

impl View for Binary64 {
    type V = Double;

    open spec fn view(&self) -> Double {
        Double { numerator: self.numerator as nat, denominator: self.denominator as nat }
    }
}

/// `numerator / denominator` rounded to an integer; a tie goes to the even one.
pub open spec fn round_half_even(numerator: nat, denominator: nat) -> nat {
    let quotient = numerator / denominator;
    let remainder = numerator % denominator;
    if 2 * remainder < denominator {
        quotient
    } else if 2 * remainder > denominator {
        quotient + 1
    } else {
        quotient + quotient % 2
    }
}

/// The distance between neighbouring doubles around the integer `value`, and 1
/// where every integer is one: the smallest power of two that leaves fewer
/// than 54 bits.
pub open spec fn rounding_unit(value: nat) -> nat
    decreases value,
{
    if value < SIGNIFICAND_LIMIT {
        1
    } else {
        2 * rounding_unit(value / 2)
    }
}

/// `10` to the power of `decimals`.
pub open spec fn power_of_ten(decimals: nat) -> nat
    decreases decimals,
{
    if decimals == 0 {
        1
    } else {
        10 * power_of_ten((decimals - 1) as nat)
    }
}

/// An integer number of units in the last of `decimals` places, written out.
pub open spec fn places_text(units: nat, decimals: nat) -> Seq<char> {
    let scale = power_of_ten(decimals);
    if decimals == 0 {
        crate::text::decimal(units)
    } else {
        crate::text::decimal(units / scale) + "."@ + crate::text::padded(units, 10, decimals)
    }
}

/// `numerator / denominator` with `decimals` decimals, correctly rounded, a tie
/// to the even last digit.
pub open spec fn fixed_text(numerator: nat, denominator: nat, decimals: nat) -> Seq<char> {
    places_text(round_half_even(numerator * power_of_ten(decimals), denominator), decimals)
}

/// The smallest power of two that brings `numerator / denominator` to 53 bits.
pub open spec fn scale_up(numerator: nat, denominator: nat) -> nat
    decreases denominator * 0x20_0000_0000_0000 - numerator,
{
    if numerator == 0 || denominator * 0x10_0000_0000_0000 <= numerator {
        1
    } else {
        2 * scale_up(2 * numerator, denominator)
    }
}

/// The double nearest to `numerator / denominator`, a tie to the even
/// significand.
pub open spec fn nearest(numerator: nat, denominator: nat) -> Double {
    if numerator >= denominator * SIGNIFICAND_LIMIT {
        let unit = rounding_unit(numerator / denominator);
        Double {
            numerator: round_half_even(numerator, denominator * unit) * unit,
            denominator: 1,
        }
    } else {
        let scale = scale_up(numerator, denominator);
        Double {
            numerator: round_half_even(numerator * scale, denominator),
            denominator: scale,
        }
    }
}

impl Double {
    /// The integer `value`, which a double may hold.
    pub open spec fn whole(value: nat) -> Double {
        Double { numerator: value, denominator: 1 }
    }

    /// The double nearest to the product of `self` and `other`.
    pub open spec fn product(self, other: Double) -> Double {
        nearest(self.numerator * other.numerator, self.denominator * other.denominator)
    }

    /// The double nearest to the quotient of `self` and `other`.
    pub open spec fn quotient(self, other: Double) -> Double {
        nearest(self.numerator * other.denominator, self.denominator * other.numerator)
    }

    /// Whether the value is `bound` or more.
    pub open spec fn reaches(self, bound: nat) -> bool {
        self.numerator >= bound * self.denominator
    }

    /// The value without its fraction.
    pub open spec fn floor(self) -> nat {
        self.numerator / self.denominator
    }

    /// The value with `decimals` decimals.
    pub open spec fn text(self, decimals: nat) -> Seq<char> {
        fixed_text(self.numerator, self.denominator, decimals)
    }
}

impl Binary64 {
    /// The integer `value`, which a double may hold.
    pub fn whole(value: u128) -> (result: Binary64)
        ensures
            result@ == Double::whole(value as nat),
    {
        Binary64 { numerator: value, denominator: 1 }
    }

    /// The double nearest to the product of `self` and `other`.
    pub fn times(self, other: Binary64) -> (result: Binary64)
        requires
            self.numerator * other.numerator <= MAX_NUMERATOR,
            0 < self.denominator * other.denominator <= MAX_DENOMINATOR,
            self.numerator * other.numerator > 0 ==> self.denominator * other.denominator
                <= self.numerator * other.numerator * MAX_INVERSE,
        ensures
            result@ == self@.product(other@),
    {
        nearest_quotient(
            self.numerator * other.numerator,
            self.denominator * other.denominator,
        )
    }

    /// The double nearest to the quotient of `self` and `other`.
    pub fn over(self, other: Binary64) -> (result: Binary64)
        requires
            self.numerator * other.denominator <= MAX_NUMERATOR,
            0 < self.denominator * other.numerator <= MAX_DENOMINATOR,
            self.numerator * other.denominator > 0 ==> self.denominator * other.numerator
                <= self.numerator * other.denominator * MAX_INVERSE,
        ensures
            result@ == self@.quotient(other@),
    {
        nearest_quotient(
            self.numerator * other.denominator,
            self.denominator * other.numerator,
        )
    }

    /// Appends the value with `decimals` decimals, at most five.
    pub fn append_to(self, text: &mut String, decimals: u8)
        requires
            self.numerator * 100_000 <= MAX_NUMERATOR,
            0 < self.denominator <= MAX_DENOMINATOR,
            decimals <= 5,
        ensures
            final(text)@ == old(text)@ + self@.text(decimals as nat),
    {
        let scale: u128 = ten_to(decimals);
        assert(0 <= self.numerator * scale <= self.numerator * 100_000) by (nonlinear_arith)
            requires
                0 <= self.numerator,
                1 <= scale <= 100_000,
        ;
        let units: u128 = round_fraction(self.numerator * scale, self.denominator);
        append_places(text, units, decimals);
    }
}

/// `10` to the power of `decimals`, at most five.
pub fn ten_to(decimals: u8) -> (scale: u128)
    requires
        decimals <= 5,
    ensures
        scale == power_of_ten(decimals as nat),
        1 <= scale <= 100_000,
{
    proof {
        reveal_with_fuel(power_of_ten, 6);
    }
    match decimals {
        0 => 1,
        1 => 10,
        2 => 100,
        3 => 1_000,
        4 => 10_000,
        _ => 100_000,
    }
}

/// Appends `units` of the last of `decimals` places, at most five.
pub fn append_places(text: &mut String, units: u128, decimals: u8)
    requires
        decimals <= 5,
    ensures
        final(text)@ == old(text)@ + places_text(units as nat, decimals as nat),
{
    let scale: u128 = ten_to(decimals);
    if decimals == 0 {
        append_decimal(text, units);
    } else {
        append_decimal(text, units / scale);
        text.append(".");
        append_padded(text, units, 10, decimals as usize);
        assert(text@ =~= old(text)@ + places_text(units as nat, decimals as nat));
    }
}

/// The double nearest to `numerator / denominator`.
pub fn nearest_quotient(numerator: u128, denominator: u128) -> (quotient: Binary64)
    requires
        0 < denominator <= MAX_DENOMINATOR,
        numerator <= MAX_NUMERATOR,
        numerator > 0 ==> denominator <= numerator * MAX_INVERSE,
    ensures
        quotient@ == nearest(numerator as nat, denominator as nat),
{
    let whole: u128 = numerator / denominator;
    let rest: u128 = numerator % denominator;
    let ghost n = numerator as int;
    let ghost d = denominator as int;
    proof {
        vstd::arithmetic::div_mod::lemma_fundamental_div_mod(n, d);
        vstd::arithmetic::div_mod::lemma_mod_bound(n, d);
        assert(whole >= SIGNIFICAND_LIMIT <==> n >= d * SIGNIFICAND_LIMIT) by (nonlinear_arith)
            requires
                n == d * whole + rest,
                0 <= rest < d,
        ;
    }
    if whole >= SIGNIFICAND_LIMIT as u128 {
        return round_large(numerator, denominator, whole);
    }
    if numerator == 0 {
        assert(round_half_even(0, denominator as nat) == 0) by (nonlinear_arith)
            requires
                denominator > 0,
        ;
        return Binary64 { numerator: 0, denominator: 1 };
    }
    let mut significand: u128 = whole;
    let mut remainder: u128 = rest;
    let mut scale: u128 = 1;
    while significand < SIGNIFICAND_START as u128
        invariant
            0 < numerator,
            0 < denominator <= MAX_DENOMINATOR,
            denominator <= numerator * MAX_INVERSE,
            n == numerator,
            d == denominator,
            n * scale == significand * d + remainder,
            remainder < denominator,
            significand < SIGNIFICAND_LIMIT,
            0 < scale <= 0x2000_0000_0000_0000_0000_0000_0000_0000,
            scale_up(n as nat, d as nat) == scale * scale_up((n * scale) as nat, d as nat),
        decreases 0x4000_0000_0000_0000_0000_0000_0000_0000 - scale,
    {
        let ghost before = scale as int;
        let ghost old_significand = significand as int;
        let ghost old_remainder = remainder as int;
        proof {
            lemma_scale_bound(n, d, before, old_significand, old_remainder);
        }
        scale = scale * 2;
        remainder = remainder * 2;
        significand = significand * 2;
        if remainder >= denominator {
            remainder = remainder - denominator;
            significand = significand + 1;
        }
        proof {
            assert(n * scale == significand * d + remainder) by (nonlinear_arith)
                requires
                    scale == before * 2,
                    n * before == old_significand * d + old_remainder,
                    significand * d + remainder == 2 * (old_significand * d) + 2 * old_remainder
                        || (significand == 2 * old_significand && remainder == 2 * old_remainder)
                        || (significand == 2 * old_significand + 1 && remainder == 2
                        * old_remainder - d),
            ;
            assert(n * scale == 2 * (n * before)) by (nonlinear_arith)
                requires
                    scale == before * 2,
            ;
            let rest = scale_up((n * scale) as nat, d as nat) as int;
            assert(scale * rest == before * (2 * rest)) by (nonlinear_arith)
                requires
                    scale == before * 2,
            ;
            assert(0 < n * before) by (nonlinear_arith)
                requires
                    n > 0,
                    before > 0,
            ;
        }
    }
    proof {
        let scaled = n * scale;
        assert(d * SIGNIFICAND_START <= scaled) by (nonlinear_arith)
            requires
                scaled == significand * d + remainder,
                remainder >= 0,
                d > 0,
                significand >= SIGNIFICAND_START,
        ;
        assert(scale * scale_up(scaled as nat, d as nat) == scale) by (nonlinear_arith)
            requires
                scale_up(scaled as nat, d as nat) == 1,
        ;
        assert(significand * d == d * significand) by (nonlinear_arith);
        vstd::arithmetic::div_mod::lemma_fundamental_div_mod_converse(
            scaled,
            d,
            significand as int,
            remainder as int,
        );
    }
    let rounded: u128 = if 2 * remainder < denominator {
        significand
    } else if 2 * remainder > denominator {
        significand + 1
    } else {
        significand + significand % 2
    };
    Binary64 { numerator: rounded, denominator: scale }
}

/// Appends the double nearest to `numerator / denominator` with `decimals`
/// decimals, at most five.
pub fn append_quotient(text: &mut String, numerator: u64, denominator: u64, decimals: u8)
    requires
        denominator > 0,
        decimals <= 5,
    ensures
        final(text)@ == old(text)@ + nearest(numerator as nat, denominator as nat).text(
            decimals as nat,
        ),
{
    let quotient = nearest_quotient(numerator as u128, denominator as u128);
    proof {
        let n = numerator as int;
        let d = denominator as int;
        lemma_nearest_bounds(n as nat, d as nat);
        lemma_rounded_size(n, d, quotient@);
        assert(2 * n <= 0x2_0000_0000_0000_0000);
        assert(d * SIGNIFICAND_LIMIT <= 0x1_0000_0000_0000_0000 * SIGNIFICAND_LIMIT);
    }
    quotient.append_to(text, decimals);
}

/// The numbers that make up a double, for a quotient that is given.
pub proof fn lemma_rounded_size(n: int, d: int, double: Double)
    requires
        0 <= n,
        0 < d,
        double == nearest(n as nat, d as nat),
    ensures
        double.numerator <= SIGNIFICAND_LIMIT || double.numerator <= 2 * n,
        0 < double.denominator <= d * SIGNIFICAND_LIMIT,
{
    lemma_nearest_bounds(n as nat, d as nat);
    let scale = double.denominator as int;
    let rounded = double.numerator as int;
    if n >= d * SIGNIFICAND_LIMIT {
        assert(rounded <= 2 * n) by (nonlinear_arith)
            requires
                rounded * d <= 2 * (n * 1),
                d >= 1,
                rounded >= 0,
        ;
    }
    if n > 0 && scale > 1 {
        assert(scale <= d * SIGNIFICAND_LIMIT) by (nonlinear_arith)
            requires
                scale * n < d * SIGNIFICAND_LIMIT,
                n >= 1,
                scale > 0,
        ;
    } else {
        assert(d * SIGNIFICAND_LIMIT >= 1);
    }
}

/// A quotient that still has too few bits has a small scale.
proof fn lemma_scale_bound(n: int, d: int, scale: int, significand: int, remainder: int)
    requires
        0 < n,
        0 < d <= n * MAX_INVERSE,
        0 < scale,
        n * scale == significand * d + remainder,
        0 <= remainder < d,
        0 <= significand < SIGNIFICAND_START,
    ensures
        scale < 0x1000_0000_0000_0000_0000_0000_0000_0000,
        n * scale < d * SIGNIFICAND_START,
{
    assert(n * scale < d * SIGNIFICAND_START) by (nonlinear_arith)
        requires
            n * scale == significand * d + remainder,
            0 <= remainder < d,
            0 <= significand,
            significand + 1 <= SIGNIFICAND_START,
    ;
    assert(scale < MAX_INVERSE * SIGNIFICAND_START) by (nonlinear_arith)
        requires
            n * scale < d * SIGNIFICAND_START,
            d <= n * MAX_INVERSE,
            0 < n,
            SIGNIFICAND_START > 0,
    ;
}

/// The double nearest to a quotient that has more than 53 bits before the
/// point.
fn round_large(numerator: u128, denominator: u128, whole: u128) -> (quotient: Binary64)
    requires
        0 < denominator <= MAX_DENOMINATOR,
        numerator <= MAX_NUMERATOR,
        whole == numerator / denominator,
        whole >= SIGNIFICAND_LIMIT,
        numerator >= denominator * SIGNIFICAND_LIMIT,
    ensures
        quotient@ == nearest(numerator as nat, denominator as nat),
{
    let unit: u128 = exact_unit(whole);
    proof {
        let n = numerator as int;
        let d = denominator as int;
        lemma_unit_bound(whole as nat);
        assert(d * whole <= n) by (nonlinear_arith)
            requires
                whole == n / d,
                d > 0,
        ;
        assert(0 < d * unit && d * unit * SIGNIFICAND_START <= n) by (nonlinear_arith)
            requires
                d * whole <= n,
                0 < d,
                0 < unit,
                unit * SIGNIFICAND_START <= whole,
        ;
        lemma_rounded_bounds(n as nat, (d * unit) as nat);
        let rounded = round_half_even(n as nat, (d * unit) as nat) as int;
        assert(0 <= rounded * unit <= n + unit) by (nonlinear_arith)
            requires
                0 <= rounded,
                rounded * (d * unit) <= n + d * unit,
                d >= 1,
                unit > 0,
                n >= 0,
        ;
        assert(unit <= n) by (nonlinear_arith)
            requires
                unit * SIGNIFICAND_START <= whole,
                d * whole <= n,
                d >= 1,
                unit > 0,
                SIGNIFICAND_START >= 1,
        ;
        assert(unit * SIGNIFICAND_START <= MAX_NUMERATOR) by (nonlinear_arith)
            requires
                unit * SIGNIFICAND_START <= whole,
                d * whole <= n,
                d >= 1,
                n <= MAX_NUMERATOR,
        ;
    }
    let rounded: u128 = round_fraction(numerator, denominator * unit);
    Binary64 { numerator: rounded * unit, denominator: 1 }
}

/// `numerator / denominator` rounded to an integer; a tie goes to the even one.
pub fn round_fraction(numerator: u128, denominator: u128) -> (rounded: u128)
    requires
        0 < denominator <= MAX_DENOMINATOR,
        numerator <= MAX_NUMERATOR,
    ensures
        rounded == round_half_even(numerator as nat, denominator as nat),
{
    let quotient: u128 = numerator / denominator;
    let remainder: u128 = numerator % denominator;
    assert(quotient <= numerator) by (nonlinear_arith)
        requires
            denominator > 0,
            quotient == numerator / denominator,
    ;
    if 2 * remainder < denominator {
        quotient
    } else if 2 * remainder > denominator {
        quotient + 1
    } else {
        quotient + quotient % 2
    }
}

/// The distance between neighbouring doubles around `value`.
fn exact_unit(value: u128) -> (unit: u128)
    ensures
        unit == rounding_unit(value as nat),
        0 < unit,
{
    let mut unit: u128 = 1;
    let mut rest: u128 = value;
    while rest >= SIGNIFICAND_LIMIT as u128
        invariant
            0 < unit,
            unit * rest <= value,
            unit * rounding_unit(rest as nat) == rounding_unit(value as nat),
        decreases rest,
    {
        let ghost before = rest;
        let ghost unit_before = unit;
        assert(unit * SIGNIFICAND_LIMIT <= value) by (nonlinear_arith)
            requires
                rest >= SIGNIFICAND_LIMIT,
                unit * rest <= value,
                unit > 0,
        ;
        rest = rest / 2;
        unit = unit * 2;
        assert(unit * rest <= value) by (nonlinear_arith)
            requires
                unit == unit_before * 2,
                rest == before / 2,
                unit_before * before <= value,
        ;
        assert(unit * rounding_unit(rest as nat) == unit_before * (2 * rounding_unit(rest as nat)))
            by (nonlinear_arith)
            requires
                unit == unit_before * 2,
        ;
    }
    assert(unit * rounding_unit(rest as nat) == unit) by (nonlinear_arith)
        requires
            rounding_unit(rest as nat) == 1,
    ;
    unit
}

/// A rounding unit above 1 leaves at least 53 bits.
pub proof fn lemma_unit_bound(value: nat)
    ensures
        rounding_unit(value) > 0,
        rounding_unit(value) == 1 || rounding_unit(value) * SIGNIFICAND_START <= value,
    decreases value,
{
    if value >= SIGNIFICAND_LIMIT {
        lemma_unit_bound(value / 2);
    }
}

/// Rounding moves a fraction by less than one.
pub proof fn lemma_rounded_bounds(n: nat, d: nat)
    requires
        d > 0,
    ensures
        round_half_even(n, d) * d <= n + d,
        n <= round_half_even(n, d) * d + d,
{
    vstd::arithmetic::div_mod::lemma_fundamental_div_mod(n as int, d as int);
    vstd::arithmetic::div_mod::lemma_mod_bound(n as int, d as int);
    let q = (n / d) as int;
    let r = round_half_even(n, d) as int;
    assert(r * d <= n + d && n <= r * d + d) by (nonlinear_arith)
        requires
            n == d * q + n as int % d as int,
            0 <= n as int % d as int,
            (n as int % d as int) < d,
            q <= r <= q + 1,
            d > 0,
    ;
}

/// The scale brings a quotient to 53 bits.
proof fn lemma_scale_up(n: nat, d: nat)
    requires
        0 < n,
        0 < d,
        n < d * SIGNIFICAND_LIMIT,
    ensures
        scale_up(n, d) >= 1,
        d * SIGNIFICAND_START <= n * scale_up(n, d) < d * SIGNIFICAND_LIMIT,
    decreases d * SIGNIFICAND_LIMIT - n,
{
    if n < d * SIGNIFICAND_START {
        lemma_scale_up(2 * n, d);
        let half = scale_up(2 * n, d) as int;
        assert(n * (2 * half) == (2 * n) * half) by (nonlinear_arith);
    } else {
        assert(n * 1 == n);
    }
}

/// What holds of the double nearest to a quotient: it has 53 bits, lies within a
/// factor of two of the quotient, and is 0 only for 0.
pub proof fn lemma_nearest_bounds(n: nat, d: nat)
    requires
        0 < d,
    ensures
        nearest(n, d).denominator > 0,
        n == 0 ==> nearest(n, d) == (Double { numerator: 0, denominator: 1 }),
        n > 0 ==> nearest(n, d).numerator >= SIGNIFICAND_START,
        n < d * SIGNIFICAND_LIMIT ==> nearest(n, d).numerator <= SIGNIFICAND_LIMIT,
        nearest(n, d).denominator == 1 || nearest(n, d).denominator * n < d * SIGNIFICAND_LIMIT,
        nearest(n, d).numerator * d <= 2 * (n * nearest(n, d).denominator),
        n * nearest(n, d).denominator <= 2 * (nearest(n, d).numerator * d),
{
    let double = nearest(n, d);
    if n >= d * SIGNIFICAND_LIMIT {
        let whole = n / d;
        let unit = rounding_unit(whole);
        lemma_unit_bound(whole);
        vstd::arithmetic::div_mod::lemma_fundamental_div_mod(n as int, d as int);
        vstd::arithmetic::div_mod::lemma_mod_bound(n as int, d as int);
        assert(whole >= SIGNIFICAND_LIMIT) by (nonlinear_arith)
            requires
                n >= d * SIGNIFICAND_LIMIT,
                n < d * whole + d,
                d > 0,
        ;
        assert(d * unit * SIGNIFICAND_START <= n && d * unit > 0) by (nonlinear_arith)
            requires
                d * whole <= n,
                unit * SIGNIFICAND_START <= whole,
                d > 0,
                unit > 0,
        ;
        let step = d * unit;
        lemma_rounded_bounds(n, step);
        let rounded = round_half_even(n, step);
        assert((rounded * unit) * d == rounded * step) by (nonlinear_arith)
            requires
                step == d * unit,
        ;
        assert(rounded + 1 >= SIGNIFICAND_START) by (nonlinear_arith)
            requires
                step * SIGNIFICAND_START <= n,
                n <= rounded * step + step,
                step > 0,
        ;
        assert(step <= n) by (nonlinear_arith)
            requires
                step * SIGNIFICAND_START <= n,
                step > 0,
                SIGNIFICAND_START >= 1,
        ;
        assert(unit >= 2);
        assert(rounded * unit >= SIGNIFICAND_START) by (nonlinear_arith)
            requires
                unit >= 2,
                rounded + 1 >= SIGNIFICAND_START,
                SIGNIFICAND_START >= 2,
        ;
        assert(n * 1 == n);
        assert(double.numerator * d <= 2 * (n * double.denominator));
        assert(step <= rounded * step) by (nonlinear_arith)
            requires
                rounded + 1 >= SIGNIFICAND_START,
                SIGNIFICAND_START >= 2,
                step > 0,
        ;
    } else if n == 0 {
        assert(0 * scale_up(0, d) == 0);
        assert(round_half_even(0, d) == 0) by (nonlinear_arith)
            requires
                d > 0,
        ;
        assert(double == (Double { numerator: 0, denominator: 1 }));
        assert(0 * d == 0);
    } else {
        lemma_scale_up(n, d);
        let scale = scale_up(n, d);
        let scaled = n * scale;
        lemma_rounded_bounds(scaled, d);
        vstd::arithmetic::div_mod::lemma_fundamental_div_mod(scaled as int, d as int);
        vstd::arithmetic::div_mod::lemma_mod_bound(scaled as int, d as int);
        let q = scaled / d;
        assert(SIGNIFICAND_START <= q < SIGNIFICAND_LIMIT) by (nonlinear_arith)
            requires
                d * SIGNIFICAND_START <= scaled < d * SIGNIFICAND_LIMIT,
                scaled == d * q + scaled as int % d as int,
                0 <= scaled as int % d as int,
                (scaled as int % d as int) < d,
                d > 0,
        ;
        assert(scale * n == n * scale) by (nonlinear_arith);
        assert(d <= scaled);
        assert(double.numerator * d <= 2 * scaled);
        assert(d <= double.numerator * d) by (nonlinear_arith)
            requires
                double.numerator >= 1,
                d > 0,
        ;
    }
}

/// A common factor does not change a rounded fraction.
proof fn lemma_round_common(n: nat, d: nat, factor: nat)
    requires
        0 < d,
        0 < factor,
    ensures
        round_half_even(n * factor, d * factor) == round_half_even(n, d),
{
    let q = n as int / d as int;
    let r = n as int % d as int;
    let k = factor as int;
    vstd::arithmetic::div_mod::lemma_fundamental_div_mod(n as int, d as int);
    vstd::arithmetic::div_mod::lemma_mod_bound(n as int, d as int);
    assert(n * k == (d * k) * q + r * k) by (nonlinear_arith)
        requires
            n == d * q + r,
    ;
    assert(0 <= r * k < d * k) by (nonlinear_arith)
        requires
            0 <= r < d,
            k > 0,
    ;
    assert((d * k) * q == q * (d * k)) by (nonlinear_arith);
    vstd::arithmetic::div_mod::lemma_fundamental_div_mod_converse(n * k, d * k, q, r * k);
    assert((2 * (r * k) < d * k) == (2 * r < d)) by (nonlinear_arith)
        requires
            k > 0,
    ;
    assert((2 * (r * k) > d * k) == (2 * r > d)) by (nonlinear_arith)
        requires
            k > 0,
    ;
}

/// A common factor does not change a scale.
proof fn lemma_scale_common(n: nat, d: nat, factor: nat)
    requires
        0 < d,
        0 < factor,
    ensures
        scale_up(n * factor, d * factor) == scale_up(n, d),
    decreases d * SIGNIFICAND_LIMIT - n,
{
    let k = factor as int;
    assert((n * k == 0) == (n == 0)) by (nonlinear_arith)
        requires
            k > 0,
    ;
    assert((d * k * 0x10_0000_0000_0000 <= n * k) == (d * 0x10_0000_0000_0000 <= n))
        by (nonlinear_arith)
        requires
            k > 0,
    ;
    if n > 0 && n < d * 0x10_0000_0000_0000 {
        lemma_scale_common(2 * n, d, factor);
        assert((2 * n) * k == 2 * (n * k)) by (nonlinear_arith);
    }
}

/// A common factor does not change a quotient.
pub proof fn lemma_nearest_common(n: nat, d: nat, factor: nat)
    requires
        0 < d,
        0 < factor,
    ensures
        nearest(n * factor, d * factor) == nearest(n, d),
{
    let k = factor as int;
    assert((n * k >= d * k * SIGNIFICAND_LIMIT) == (n >= d * SIGNIFICAND_LIMIT))
        by (nonlinear_arith)
        requires
            k > 0,
    ;
    assert(d * k > 0) by (nonlinear_arith)
        requires
            d > 0,
            k > 0,
    ;
    if n >= d * SIGNIFICAND_LIMIT {
        assert(k * n == n * k && k * d == d * k) by (nonlinear_arith);
        vstd::arithmetic::div_mod::lemma_div_multiples_vanish_quotient(k, n as int, d as int);
        let unit = rounding_unit(n / d);
        lemma_unit_bound(n / d);
        assert((d * k) * unit == (d * unit) * k && d * unit > 0) by (nonlinear_arith)
            requires
                d > 0,
                unit > 0,
        ;
        lemma_round_common(n, d * unit, factor);
    } else {
        lemma_scale_common(n, d, factor);
        let scale = scale_up(n, d);
        assert((n * k) * scale == (n * scale) * k) by (nonlinear_arith);
        lemma_round_common(n * scale, d, factor);
    }
}

/// Rounding goes to the nearest whole number, and halfway between two of them to
/// the even one.
pub proof fn law_rounding_goes_to_the_nearest(numerator: nat, denominator: nat)
    requires
        denominator > 0,
    ensures
        ({
            let rounded = round_half_even(numerator, denominator);
            let off = numerator - rounded * denominator;
            &&& -(denominator as int) <= 2 * off <= denominator
            &&& 2 * off == denominator || 2 * off == -(denominator as int) ==> rounded % 2 == 0
        }),
{
    let quotient = numerator / denominator;
    let rest = numerator % denominator;
    vstd::arithmetic::div_mod::lemma_fundamental_div_mod(numerator as int, denominator as int);
    vstd::arithmetic::div_mod::lemma_mod_bound(numerator as int, denominator as int);
    assert(quotient * denominator == denominator * quotient) by (nonlinear_arith);
    assert((quotient + 1) * denominator == quotient * denominator + denominator)
        by (nonlinear_arith);
}

/// A double stands within half of its last place of the number that it is made
/// from; its significand has fifty-three bits, so that it is off by no more than
/// one part in two to the fifty-third.
pub proof fn law_a_double_is_off_by_half_of_its_last_place(n: nat, d: nat)
    requires
        d > 0,
        0 < n < d * SIGNIFICAND_LIMIT,
    ensures
        ({
            let double = nearest(n, d);
            let off = n * double.denominator - double.numerator * d;
            &&& double.denominator >= 1
            &&& -(d as int) <= 2 * off <= d
            &&& double.numerator >= 0x10_0000_0000_0000
        }),
{
    let scale = scale_up(n, d);
    lemma_scale_up(n, d);
    law_rounding_goes_to_the_nearest(n * scale, d);
    let rounded = round_half_even(n * scale, d);
    assert(rounded >= 0x10_0000_0000_0000) by (nonlinear_arith)
        requires
            d * 0x10_0000_0000_0000 <= n * scale,
            2 * (n * scale - rounded * d) <= d,
            d > 0,
    ;
}

/// A number with decimals reads as its whole part, a point, and its decimals.
pub proof fn law_decimals_stand_behind_the_point(units: nat, decimals: nat)
    requires
        decimals > 0,
    ensures
        places_text(units, decimals) == crate::text::decimal(units / power_of_ten(decimals))
            + "."@ + crate::text::padded(units, 10, decimals),
        places_text(units, 0) == crate::text::decimal(units),
        power_of_ten(decimals) == 10 * power_of_ten((decimals - 1) as nat),
        power_of_ten(0) == 1,
{
}

} // verus!
