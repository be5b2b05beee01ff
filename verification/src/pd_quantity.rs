//! Voltages, currents and powers of USB Power Delivery objects: a raw count and
//! the step that one count stands for.
use vstd::prelude::*;
use vstd::string::*;

use crate::binary64::{
    append_places, lemma_nearest_bounds, places_text, Binary64, Double, SIGNIFICAND_LIMIT,
};
use crate::text::append_decimal;

verus! {

/// What one raw count stands for, in thousandths of a volt, ampere or watt.
#[derive(Debug, Clone, Copy, PartialEq, Eq, Structural)]
pub enum PdStep {
    Milli10,
    Milli20,
    Milli25,
    Milli50,
    Milli100,
    Milli250,
    Milli1000,
}

impl PdStep {
    /// The step in thousandths.
    pub open spec fn thousandths(self) -> nat {
        match self {
            PdStep::Milli10 => 10,
            PdStep::Milli20 => 20,
            PdStep::Milli25 => 25,
            PdStep::Milli50 => 50,
            PdStep::Milli100 => 100,
            PdStep::Milli250 => 250,
            PdStep::Milli1000 => 1000,
        }
    }

    /// The double nearest to the step.
    pub open spec fn nearest(self) -> Double {
        match self {
            PdStep::Milli10 => Double {
                numerator: 5764607523034235,
                denominator: 0x800_0000_0000_0000,
            },
            PdStep::Milli20 => Double {
                numerator: 5764607523034235,
                denominator: 0x400_0000_0000_0000,
            },
            PdStep::Milli25 => Double {
                numerator: 7205759403792794,
                denominator: 0x400_0000_0000_0000,
            },
            PdStep::Milli50 => Double {
                numerator: 7205759403792794,
                denominator: 0x200_0000_0000_0000,
            },
            PdStep::Milli100 => Double {
                numerator: 7205759403792794,
                denominator: 0x100_0000_0000_0000,
            },
            PdStep::Milli250 => Double { numerator: 1, denominator: 4 },
            PdStep::Milli1000 => Double { numerator: 1, denominator: 1 },
        }
    }

    /// The step in thousandths.
    pub fn milli(self) -> (milli: u32)
        ensures
            milli == self.thousandths(),
    {
        match self {
            PdStep::Milli10 => 10,
            PdStep::Milli20 => 20,
            PdStep::Milli25 => 25,
            PdStep::Milli50 => 50,
            PdStep::Milli100 => 100,
            PdStep::Milli250 => 250,
            PdStep::Milli1000 => 1000,
        }
    }

    /// The double nearest to the step.
    pub fn factor(self) -> (factor: Binary64)
        ensures
            factor@ == self.nearest(),
            0 < factor.denominator <= 0x800_0000_0000_0000,
            0 < factor.numerator < SIGNIFICAND_LIMIT,
            factor.numerator <= factor.denominator <= factor.numerator * 128,
    {
        match self {
            PdStep::Milli10 => Binary64 {
                numerator: 5764607523034235,
                denominator: 0x800_0000_0000_0000,
            },
            PdStep::Milli20 => Binary64 {
                numerator: 5764607523034235,
                denominator: 0x400_0000_0000_0000,
            },
            PdStep::Milli25 => Binary64 {
                numerator: 7205759403792794,
                denominator: 0x400_0000_0000_0000,
            },
            PdStep::Milli50 => Binary64 {
                numerator: 7205759403792794,
                denominator: 0x200_0000_0000_0000,
            },
            PdStep::Milli100 => Binary64 {
                numerator: 7205759403792794,
                denominator: 0x100_0000_0000_0000,
            },
            PdStep::Milli250 => Binary64 { numerator: 1, denominator: 4 },
            PdStep::Milli1000 => Binary64 { numerator: 1, denominator: 1 },
        }
    }
}

/// Each step's double is the nearest one: its distance from the step is at
/// most half the distance between neighbouring doubles.
pub proof fn law_factors_are_nearest_doubles(step: PdStep)
    ensures
        -500 <= step.nearest().numerator * 1000 - step.thousandths() * step.nearest().denominator
            <= 500,
{
}

/// `count` steps.
#[derive(Debug, Clone, Copy, PartialEq, Eq, Structural)]
pub struct PdQuantity {
    pub count: u16,
    pub step: PdStep,
}

impl PdQuantity {
    /// The exact value in thousandths.
    pub open spec fn thousandths(self) -> nat {
        self.count as nat * self.step.thousandths()
    }

    /// The value as a double: the count times the nearest double of the step.
    pub open spec fn double(self) -> Double {
        Double::whole(self.count as nat).product(self.step.nearest())
    }

    /// The value with `decimals` decimals.
    pub open spec fn fixed(self, decimals: nat) -> Seq<char> {
        self.double().text(decimals)
    }

    /// The value with as many decimals as it needs, at most two.
    pub open spec fn shortest(self) -> Seq<char> {
        if self.thousandths() % 1000 == 0 {
            crate::text::decimal(self.thousandths() / 1000)
        } else if self.thousandths() % 100 == 0 {
            places_text(self.thousandths() / 100, 1)
        } else {
            self.fixed(2)
        }
    }

    /// `count` steps of `step`.
    pub fn new(count: u16, step: PdStep) -> (quantity: PdQuantity)
        ensures
            quantity == (PdQuantity { count, step }),
    {
        PdQuantity { count, step }
    }

    /// The exact value in thousandths.
    pub fn milli(self) -> (milli: u32)
        ensures
            milli == self.thousandths(),
    {
        let step: u32 = self.step.milli();
        assert(self.count * step <= 65535 * 1000) by (nonlinear_arith)
            requires
                self.count <= 65535,
                step <= 1000,
        ;
        self.count as u32 * step
    }

    /// The value as a double.
    fn value(self) -> (value: Binary64)
        ensures
            value@ == self.double(),
            value.numerator <= SIGNIFICAND_LIMIT,
            value.numerator > 0 ==> value.numerator >= 0x10_0000_0000_0000,
            0 < value.denominator <= 0x1000_0000_0000_0000,
    {
        let factor = self.step.factor();
        let count = Binary64::whole(self.count as u128);
        let ghost n = count.numerator * factor.numerator;
        let ghost d = factor.denominator as int;
        proof {
            assert(0 <= n <= 65535 * SIGNIFICAND_LIMIT && (self.count > 0 ==> n
                >= factor.numerator)) by (nonlinear_arith)
                requires
                    n == count.numerator * factor.numerator,
                    0 <= count.numerator <= 65535,
                    count.numerator == self.count,
                    0 <= factor.numerator < SIGNIFICAND_LIMIT,
            ;
            assert(n <= 65535 * d && (self.count == 0 ==> n == 0)) by (nonlinear_arith)
                requires
                    n == count.numerator * factor.numerator,
                    count.numerator == self.count,
                    0 <= count.numerator <= 65535,
                    0 <= factor.numerator <= d,
            ;
            lemma_nearest_bounds(n as nat, d as nat);
            assert(count.denominator * factor.denominator == d);
        }
        let value = count.times(factor);
        proof {
            let scale = value.denominator as int;
            if n > 0 && scale > 1 {
                assert(scale < 128 * SIGNIFICAND_LIMIT) by (nonlinear_arith)
                    requires
                        scale * n < d * SIGNIFICAND_LIMIT,
                        d <= n * 128,
                        n > 0,
                ;
            }
        }
        value
    }

    /// Appends the value with `decimals` decimals, at most five.
    pub fn append_fixed(self, text: &mut String, decimals: u8)
        requires
            decimals <= 5,
        ensures
            final(text)@ == old(text)@ + self.fixed(decimals as nat),
    {
        self.value().append_to(text, decimals);
    }

    /// Appends the value with as many decimals as it needs, at most two.
    pub fn append_shortest(self, text: &mut String)
        ensures
            final(text)@ == old(text)@ + self.shortest(),
    {
        let milli: u32 = self.milli();
        if milli % 1000 == 0 {
            append_decimal(text, (milli / 1000) as u128);
        } else if milli % 100 == 0 {
            append_places(text, (milli / 100) as u128, 1);
        } else {
            self.append_fixed(text, 2);
        }
    }
}

/// The power of a voltage and a current in whole watts.
pub open spec fn whole_watts(voltage: PdQuantity, current: PdQuantity) -> Seq<char> {
    voltage.double().product(current.double()).text(0)
}

/// Appends the power of a voltage and a current in whole watts.
pub fn append_whole_watts(text: &mut String, voltage: PdQuantity, current: PdQuantity)
    ensures
        final(text)@ == old(text)@ + whole_watts(voltage, current),
{
    let volts = voltage.value();
    let amperes = current.value();
    let ghost n = volts.numerator * amperes.numerator;
    let ghost d = volts.denominator * amperes.denominator;
    proof {
        assert(0 <= n <= SIGNIFICAND_LIMIT * SIGNIFICAND_LIMIT) by (nonlinear_arith)
            requires
                n == volts.numerator * amperes.numerator,
                0 <= volts.numerator <= SIGNIFICAND_LIMIT,
                0 <= amperes.numerator <= SIGNIFICAND_LIMIT,
        ;
        assert(n > 0 ==> n >= 0x10_0000_0000_0000 * 0x10_0000_0000_0000) by (nonlinear_arith)
            requires
                n == volts.numerator * amperes.numerator,
                volts.numerator == 0 || volts.numerator >= 0x10_0000_0000_0000,
                amperes.numerator == 0 || amperes.numerator >= 0x10_0000_0000_0000,
        ;
        assert(0 < d <= 0x1000_0000_0000_0000 * 0x1000_0000_0000_0000) by (nonlinear_arith)
            requires
                d == volts.denominator * amperes.denominator,
                0 < volts.denominator <= 0x1000_0000_0000_0000,
                0 < amperes.denominator <= 0x1000_0000_0000_0000,
        ;
        lemma_nearest_bounds(n as nat, d as nat);
    }
    let watts = volts.times(amperes);
    proof {
        let scale = watts.denominator as int;
        let rounded = watts.numerator as int;
        if n > 0 && scale > 1 {
            assert(scale < 0x1000_0000_0000_0000 * 0x1000_0000_0000_0000) by (nonlinear_arith)
                requires
                    scale * n < d * SIGNIFICAND_LIMIT,
                    d <= 0x1000_0000_0000_0000 * 0x1000_0000_0000_0000,
                    n >= 0x10_0000_0000_0000 * 0x10_0000_0000_0000,
            ;
        }
        if n >= d * SIGNIFICAND_LIMIT {
            assert(rounded <= 2 * n) by (nonlinear_arith)
                requires
                    rounded * d <= 2 * (n * 1),
                    d >= 1,
                    rounded >= 0,
            ;
        }
    }
    watts.append_to(text, 0);
}

} // verus!
