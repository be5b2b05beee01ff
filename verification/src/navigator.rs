//! A bounded overview of a whole live session.
//!
//! The detailed samples stay optimized for the current viewport, while the
//! overview keeps the navigator useful for hours-long runs. It retains the
//! average and the extremes of every time bucket, so that short transients
//! stay visible after hours of progressive compaction, and it is never used
//! for recording or export. Averages keep their fractions, to a billionth of a
//! millionth of the unit.
use vstd::prelude::*;

use crate::binary64::{
    lemma_nearest_bounds, lemma_rounded_size, nearest, nearest_quotient, scale_up, Binary64, Double,
    MAX_INVERSE, SIGNIFICAND_LIMIT, SIGNIFICAND_START,
};
use crate::chart::{in_order, is_nearest, larger, nearest_time_index, reports, smaller};
use crate::measurement::{magnitude, MeasurementSample};
use crate::recording::{amount_sum, in_amount};

verus! {

/// How many points an overview holds.
pub const OVERVIEW_POINTS: usize = 120_000;

/// The width of a bucket at first, in microseconds.
pub const FIRST_BUCKET_US: i64 = 100_000;

/// How many parts a millionth of a unit has where fractions are kept.
pub const FINE: i128 = 1_000_000_000;

/// The size of a reading.
pub open spec fn size_of(value: i64) -> i64 {
    smaller(magnitude(value as int), i64::MAX as int) as i64
}

/// The size of a reading.
pub fn reading_size(value: i64) -> (size: i64)
    ensures
        size == size_of(value),
        size >= 0,
{
    if value == i64::MIN {
        i64::MAX
    } else if value < 0 {
        -value
    } else {
        value
    }
}

/// Voltage, current and power, in millionths of their units.
#[derive(Debug, Clone, Copy, PartialEq, Eq, Structural)]
pub struct ChannelValues {
    pub voltage: i64,
    pub current: i64,
    pub power: i64,
}

/// Voltage, current and power with their fractions, in billionths of a
/// millionth of their units.
#[derive(Debug, Clone, Copy, PartialEq, Eq, Structural)]
pub struct FineValues {
    pub voltage: i128,
    pub current: i128,
    pub power: i128,
}

/// What a card shows of `sample`: the voltage, and the size of the current and
/// of the power.
pub open spec fn channels_of(sample: MeasurementSample) -> ChannelValues {
    ChannelValues {
        voltage: sample.vbus_uv,
        current: size_of(sample.ibus_ua),
        power: size_of(sample.power_uw),
    }
}

/// The average of `count` values with `sum`, rounded down.
pub open spec fn average(sum: i128, count: u32) -> i128 {
    (sum as int / count as int) as i128
}

/// The average of `count` values with `sum`, rounded down.
fn average_of(sum: i128, count: u32) -> (result: i128)
    requires
        count > 0,
    ensures
        result == average(sum, count),
{
    let divisor: i128 = count as i128;
    if sum >= 0 {
        sum / divisor
    } else {
        let rest: i128 = -(sum + 1);
        let whole: i128 = rest / divisor;
        proof {
            vstd::arithmetic::div_mod::lemma_fundamental_div_mod(rest as int, divisor as int);
            assert(sum as int == (-whole - 1) * divisor + (divisor - rest % divisor - 1))
                by (nonlinear_arith)
                requires
                    rest as int == -(sum + 1),
                    rest as int == divisor * whole + rest as int % divisor as int,
            ;
            vstd::arithmetic::div_mod::lemma_fundamental_div_mod_converse(
                sum as int,
                divisor as int,
                -whole - 1,
                divisor - rest % divisor - 1,
            );
            assert(whole <= rest) by (nonlinear_arith)
                requires
                    0 <= rest,
                    1 <= divisor,
                    whole as int == rest as int / divisor as int,
            ;
        }
        -whole - 1
    }
}

impl ChannelValues {
    /// The value of one channel: voltage, current, power.
    pub open spec fn channel(self, channel: int) -> i64 {
        if channel == 0 {
            self.voltage
        } else if channel == 1 {
            self.current
        } else {
            self.power
        }
    }

    /// The smaller value of every channel.
    pub open spec fn lower(self, other: ChannelValues) -> ChannelValues {
        ChannelValues {
            voltage: smaller(self.voltage as int, other.voltage as int) as i64,
            current: smaller(self.current as int, other.current as int) as i64,
            power: smaller(self.power as int, other.power as int) as i64,
        }
    }

    /// The larger value of every channel.
    pub open spec fn higher(self, other: ChannelValues) -> ChannelValues {
        ChannelValues {
            voltage: larger(self.voltage as int, other.voltage as int) as i64,
            current: larger(self.current as int, other.current as int) as i64,
            power: larger(self.power as int, other.power as int) as i64,
        }
    }

    /// The values in the unit that keeps fractions.
    pub open spec fn fined(self) -> FineValues {
        FineValues {
            voltage: (self.voltage * FINE) as i128,
            current: (self.current * FINE) as i128,
            power: (self.power * FINE) as i128,
        }
    }

    /// What a card shows of `sample`.
    pub fn of(sample: &MeasurementSample) -> (values: ChannelValues)
        ensures
            values == channels_of(*sample),
    {
        ChannelValues {
            voltage: sample.vbus_uv,
            current: reading_size(sample.ibus_ua),
            power: reading_size(sample.power_uw),
        }
    }

    /// The smaller value of every channel.
    pub fn min(self, other: ChannelValues) -> (result: ChannelValues)
        ensures
            result == self.lower(other),
    {
        ChannelValues {
            voltage: if self.voltage <= other.voltage {
                self.voltage
            } else {
                other.voltage
            },
            current: if self.current <= other.current {
                self.current
            } else {
                other.current
            },
            power: if self.power <= other.power {
                self.power
            } else {
                other.power
            },
        }
    }

    /// The larger value of every channel.
    pub fn max(self, other: ChannelValues) -> (result: ChannelValues)
        ensures
            result == self.higher(other),
    {
        ChannelValues {
            voltage: if self.voltage >= other.voltage {
                self.voltage
            } else {
                other.voltage
            },
            current: if self.current >= other.current {
                self.current
            } else {
                other.current
            },
            power: if self.power >= other.power {
                self.power
            } else {
                other.power
            },
        }
    }

    /// The values in the unit that keeps fractions.
    pub fn fine(self) -> (values: FineValues)
        ensures
            values == self.fined(),
    {
        FineValues {
            voltage: self.voltage as i128 * FINE,
            current: self.current as i128 * FINE,
            power: self.power as i128 * FINE,
        }
    }
}

impl FineValues {
    /// The value of one channel: voltage, current, power.
    pub open spec fn channel(self, channel: int) -> i128 {
        if channel == 0 {
            self.voltage
        } else if channel == 1 {
            self.current
        } else {
            self.power
        }
    }

    /// The sums with `values` added.
    pub open spec fn plus(self, values: FineValues) -> FineValues {
        FineValues {
            voltage: in_amount(self.voltage + values.voltage),
            current: in_amount(self.current + values.current),
            power: in_amount(self.power + values.power),
        }
    }

    /// The averages of `count` values.
    pub open spec fn averaged(self, count: u32) -> FineValues {
        FineValues {
            voltage: average(self.voltage, count),
            current: average(self.current, count),
            power: average(self.power, count),
        }
    }

    /// The sums with `values` added.
    pub fn with(self, values: FineValues) -> (sums: FineValues)
        ensures
            sums == self.plus(values),
    {
        FineValues {
            voltage: amount_sum(self.voltage, values.voltage),
            current: amount_sum(self.current, values.current),
            power: amount_sum(self.power, values.power),
        }
    }

    /// The averages of `count` values.
    pub fn averages(self, count: u32) -> (values: FineValues)
        requires
            count > 0,
        ensures
            values == self.averaged(count),
    {
        FineValues {
            voltage: average_of(self.voltage, count),
            current: average_of(self.current, count),
            power: average_of(self.power, count),
        }
    }
}

/// What is known of one time bucket.
#[derive(Debug, Clone, Copy, PartialEq, Eq, Structural)]
pub struct NavigatorOverviewPoint {
    /// The time of the newest sample.
    pub time_us: i64,
    /// The averages.
    pub values: FineValues,
    pub minimums: ChannelValues,
    pub maximums: ChannelValues,
}

/// What is shown under the cursor.
#[derive(Debug, Clone, Copy, PartialEq, Eq, Structural)]
pub struct CursorReadout {
    pub time_us: i64,
    pub values: FineValues,
    /// Whether the values are averages of the overview.
    pub approximate: bool,
}

/// A bounded, progressively compacted overview of a live session.
#[derive(Debug)]
pub struct NavigatorHistory {
    pub points: Vec<NavigatorOverviewPoint>,
    pub bucket_width_us: i64,
    pub active_bucket: Option<i64>,
    pub sums: FineValues,
    pub minimums: ChannelValues,
    pub maximums: ChannelValues,
    pub count: u32,
    pub max_points: usize,
}

/// The contents of an overview.
#[verifier::ext_equal]
pub ghost struct Overview {
    pub points: Seq<NavigatorOverviewPoint>,
    pub width: int,
    pub active: Option<int>,
    pub sums: FineValues,
    pub minimums: ChannelValues,
    pub maximums: ChannelValues,
    pub count: u32,
    pub limit: int,
}

/// The point that stands for two neighbours.
pub open spec fn merged(
    first: NavigatorOverviewPoint,
    second: NavigatorOverviewPoint,
) -> NavigatorOverviewPoint {
    NavigatorOverviewPoint {
        time_us: second.time_us,
        values: first.values.plus(second.values).averaged(2),
        minimums: first.minimums.lower(second.minimums),
        maximums: first.maximums.higher(second.maximums),
    }
}

/// The points with every two neighbours merged.
pub open spec fn merged_pairs(points: Seq<NavigatorOverviewPoint>) -> Seq<NavigatorOverviewPoint> {
    Seq::new(
        ((points.len() + 1) / 2) as nat,
        |i: int|
            if 2 * i + 1 < points.len() {
                merged(points[2 * i], points[2 * i + 1])
            } else {
                points[2 * i]
            },
    )
}

/// A time in microseconds as a double of seconds.
pub open spec fn in_seconds(time: nat) -> Double {
    nearest(time, 1).quotient(Double::whole(1_000_000))
}

/// The bucket of `width` microseconds that `time` falls into. Times are divided
/// as doubles of seconds, so that a time may stand just before the border that
/// it names.
#[verifier::opaque]
pub open spec fn bucket_at(time: int, width: int) -> int {
    in_seconds(larger(time, 0) as nat).quotient(in_seconds(width as nat)).floor() as int
}

/// A time in microseconds as a double of seconds.
fn seconds_of(time_us: i64) -> (seconds: Binary64)
    requires
        time_us >= 0,
    ensures
        seconds@ == in_seconds(time_us as nat),
        time_us == 0 ==> seconds.numerator == 0,
        time_us > 0 ==> seconds.numerator >= SIGNIFICAND_START,
        seconds.numerator <= SIGNIFICAND_LIMIT,
        0 < seconds.denominator <= SIGNIFICAND_LIMIT * 1_000_000,
        time_us > 0 ==> seconds.denominator <= 2_000_000 * seconds.numerator,
        time_us >= FIRST_BUCKET_US ==> seconds.denominator <= 40 * seconds.numerator,
        seconds.numerator <= 0x4000_0000_0000 * seconds.denominator,
{
    let ghost t = time_us as int;
    proof {
        lemma_nearest_bounds(t as nat, 1);
        lemma_rounded_size(t, 1, nearest(t as nat, 1));
    }
    let count = nearest_quotient(time_us as u128, 1);
    let ghost n = count.numerator as int;
    let ghost e = count.denominator as int;
    let ghost d = e * 1_000_000;
    proof {
        assert(e <= n || t == 0) by {
            if 0 < t < SIGNIFICAND_LIMIT {
                let scaled = t * scale_up(t as nat, 1);
                assert(scaled / 1 == scaled && scaled % 1 == 0);
                assert(e <= n) by (nonlinear_arith)
                    requires
                        n == t * e,
                        t >= 1,
                        e >= 0,
                ;
            }
        }
        assert(n <= 0x1_0000_0000_0000_0000 * e) by (nonlinear_arith)
            requires
                n * 1 <= 2 * (t * e),
                0 <= t <= 0x8000_0000_0000_0000,
                e > 0,
        ;
        lemma_nearest_bounds(n as nat, d as nat);
    }
    let seconds = count.over(Binary64::whole(1_000_000));
    proof {
        let num = seconds.numerator as int;
        let den = seconds.denominator as int;
        if n > 0 && den > 1 {
            assert(den <= SIGNIFICAND_LIMIT * 1_000_000) by (nonlinear_arith)
                requires
                    den * n < d * SIGNIFICAND_LIMIT,
                    d <= 1_000_000 * n,
                    n > 0,
            ;
        }
        if t > 0 {
            assert(den <= 2_000_000 * num) by (nonlinear_arith)
                requires
                    n * den <= 2 * (num * d),
                    d <= 1_000_000 * n,
                    n > 0,
                    num >= 0,
            ;
        }
        if t >= FIRST_BUCKET_US {
            assert(100_000 * e <= 2 * n) by (nonlinear_arith)
                requires
                    t * e <= 2 * (n * 1),
                    t >= 100_000,
                    e > 0,
            ;
            assert(den <= 40 * num) by (nonlinear_arith)
                requires
                    n * den <= 2 * (num * d),
                    d <= 20 * n,
                    n > 0,
                    num >= 0,
            ;
        }
        assert(num <= 0x4000_0000_0000 * den) by (nonlinear_arith)
            requires
                num * d <= 2 * (n * den),
                n * 1_000_000 <= 0x1_0000_0000_0000_0000 * d,
                d > 0,
                den > 0,
        ;
    }
    seconds
}

/// Twice the width, as far as it can be doubled.
pub open spec fn doubled(width: int) -> int {
    if width <= i64::MAX / 2 {
        2 * width
    } else {
        width
    }
}

impl Overview {
    /// An overview of nothing.
    pub open spec fn empty(limit: int) -> Overview {
        Overview {
            points: Seq::empty(),
            width: FIRST_BUCKET_US as int,
            active: None,
            sums: FineValues { voltage: 0, current: 0, power: 0 },
            minimums: ChannelValues { voltage: i64::MAX, current: i64::MAX, power: i64::MAX },
            maximums: ChannelValues { voltage: i64::MIN, current: i64::MIN, power: i64::MIN },
            count: 0,
            limit,
        }
    }

    /// What holds of every overview.
    pub open spec fn well_formed(self) -> bool {
        &&& 4 <= self.limit
        &&& self.points.len() <= self.limit
        &&& FIRST_BUCKET_US <= self.width <= i64::MAX
        &&& self.active is Some <==> self.points.len() > 0
        &&& self.points.len() > 0 ==> self.points.last().minimums == self.minimums
        &&& self.points.len() > 0 ==> self.points.last().maximums == self.maximums
    }

    /// The bucket that `time` falls into.
    pub open spec fn bucket(self, time: int) -> int {
        bucket_at(time, self.width)
    }

    /// Whether a sample at `time` starts the overview anew, because it falls
    /// before the bucket that is being filled.
    pub open spec fn restarts(self, time: int) -> bool {
        match self.active {
            Some(active) => self.bucket(time) < active,
            None => false,
        }
    }

    /// The overview with its last bucket extended by `values`.
    pub open spec fn extended(self, time: i64, values: ChannelValues) -> Overview {
        let sums = self.sums.plus(values.fined());
        let minimums = self.minimums.lower(values);
        let maximums = self.maximums.higher(values);
        let count = smaller(self.count + 1, u32::MAX as int) as u32;
        Overview {
            points: self.points.update(
                self.points.len() - 1,
                NavigatorOverviewPoint {
                    time_us: time,
                    values: sums.averaged(count),
                    minimums,
                    maximums,
                },
            ),
            sums,
            minimums,
            maximums,
            count,
            ..self
        }
    }

    /// The overview with a bucket of its own for `values`.
    pub open spec fn appended(self, bucket: int, time: i64, values: ChannelValues) -> Overview {
        Overview {
            points: self.points.push(
                NavigatorOverviewPoint {
                    time_us: time,
                    values: values.fined(),
                    minimums: values,
                    maximums: values,
                },
            ),
            active: Some(bucket),
            sums: values.fined(),
            minimums: values,
            maximums: values,
            count: 1,
            ..self
        }
    }

    /// The overview with every two neighbours merged and buckets twice as wide.
    pub open spec fn compacted(self) -> Overview {
        let points = merged_pairs(self.points);
        let width = doubled(self.width);
        let last = points.last();
        Overview {
            points,
            width,
            active: Some(bucket_at(last.time_us as int, width)),
            sums: last.values,
            minimums: last.minimums,
            maximums: last.maximums,
            count: 1,
            limit: self.limit,
        }
    }

    /// The overview after a sample.
    pub open spec fn pushed(self, time: i64, values: ChannelValues) -> Overview {
        let bucket = self.bucket(time as int);
        let base = if self.restarts(time as int) {
            Overview::empty(self.limit)
        } else {
            self
        };
        if base.active == Some(bucket) {
            base.extended(time, values)
        } else {
            let next = base.appended(bucket, time, values);
            if next.points.len() > next.limit {
                next.compacted()
            } else {
                next
            }
        }
    }

    /// The times of the points.
    pub open spec fn times(self) -> Seq<i64> {
        Seq::new(self.points.len(), |i: int| self.points[i].time_us)
    }

    /// Whether `readout` is what the overview shows at `target_us`.
    pub open spec fn shown_at(self, target_us: i64, readout: CursorReadout) -> bool {
        exists|i: int| #[trigger] shows_at(self, i, target_us, readout)
    }

    /// The overview after all of `samples`.
    pub open spec fn pushed_all(self, samples: Seq<MeasurementSample>) -> Overview
        decreases samples.len(),
    {
        if samples.len() == 0 {
            self
        } else {
            self.pushed_all(samples.drop_last()).pushed(
                crate::chart::charted(samples.last().elapsed_us),
                channels_of(samples.last()),
            )
        }
    }
}

impl View for NavigatorHistory {
    type V = Overview;

    open spec fn view(&self) -> Overview {
        Overview {
            points: self.points@,
            width: self.bucket_width_us as int,
            active: match self.active_bucket {
                Some(bucket) => Some(bucket as int),
                None => None,
            },
            sums: self.sums,
            minimums: self.minimums,
            maximums: self.maximums,
            count: self.count,
            limit: self.max_points as int,
        }
    }
}

impl Default for NavigatorHistory {
    fn default() -> (history: NavigatorHistory)
        ensures
            history@ == Overview::empty(OVERVIEW_POINTS as int),
            history@.well_formed(),
    {
        NavigatorHistory::with_limit(OVERVIEW_POINTS)
    }
}

impl NavigatorHistory {
    /// An empty overview of at most `max_points` points, or of four where that
    /// is fewer.
    pub fn with_limit(max_points: usize) -> (history: NavigatorHistory)
        ensures
            history@ == Overview::empty(larger(max_points as int, 4)),
            history@.well_formed(),
    {
        NavigatorHistory {
            points: Vec::new(),
            bucket_width_us: FIRST_BUCKET_US,
            active_bucket: None,
            sums: FineValues { voltage: 0, current: 0, power: 0 },
            minimums: ChannelValues { voltage: i64::MAX, current: i64::MAX, power: i64::MAX },
            maximums: ChannelValues { voltage: i64::MIN, current: i64::MIN, power: i64::MIN },
            count: 0,
            max_points: if max_points < 4 {
                4
            } else {
                max_points
            },
        }
    }

    /// Forgets every point.
    pub fn clear(&mut self)
        requires
            old(self)@.well_formed(),
        ensures
            final(self)@ == Overview::empty(old(self)@.limit),
            final(self)@.well_formed(),
    {
        *self = NavigatorHistory::with_limit(self.max_points);
    }

    /// Adds a sample.
    pub fn push(&mut self, sample: &MeasurementSample)
        requires
            old(self)@.well_formed(),
        ensures
            final(self)@ == old(self)@.pushed(
                crate::chart::charted(sample.elapsed_us),
                channels_of(*sample),
            ),
            final(self)@.well_formed(),
    {
        self.push_values(crate::chart::chart_time(sample.elapsed_us), ChannelValues::of(sample));
    }

    /// Adds the values at a time.
    pub fn push_values(&mut self, time_us: i64, values: ChannelValues)
        requires
            old(self)@.well_formed(),
        ensures
            final(self)@ == old(self)@.pushed(time_us, values),
            final(self)@.well_formed(),
    {
        let bucket: i64 = self.bucket_of(time_us);
        match self.active_bucket {
            Some(active) => {
                if bucket < active {
                    self.clear();
                }
            },
            None => {},
        }
        let same: bool = match self.active_bucket {
            Some(active) => active == bucket,
            None => false,
        };
        if same {
            self.sums = self.sums.with(values.fine());
            self.minimums = self.minimums.min(values);
            self.maximums = self.maximums.max(values);
            self.count = self.count.saturating_add(1);
            let point = NavigatorOverviewPoint {
                time_us,
                values: self.sums.averages(self.count),
                minimums: self.minimums,
                maximums: self.maximums,
            };
            let last: usize = self.points.len() - 1;
            self.points.set(last, point);
            assert(self@ =~= old(self)@.pushed(time_us, values));
            return;
        }
        self.active_bucket = Some(bucket);
        self.sums = values.fine();
        self.minimums = values;
        self.maximums = values;
        self.count = 1;
        self.points.push(
            NavigatorOverviewPoint {
                time_us,
                values: values.fine(),
                minimums: values,
                maximums: values,
            },
        );
        if self.points.len() > self.max_points {
            self.compact();
        }
        assert(self@ =~= old(self)@.pushed(time_us, values));
    }

    /// The bucket that `time_us` falls into.
    fn bucket_of(&self, time_us: i64) -> (bucket: i64)
        requires
            self@.width >= FIRST_BUCKET_US,
        ensures
            bucket == self@.bucket(time_us as int),
            bucket >= 0,
    {
        let time = seconds_of(
            if time_us < 0 {
                0
            } else {
                time_us
            },
        );
        let width = seconds_of(self.bucket_width_us);
        let ghost n = time.numerator * width.denominator;
        let ghost d = time.denominator * width.numerator;
        proof {
            assert(0 <= n <= SIGNIFICAND_LIMIT * (SIGNIFICAND_LIMIT * 1_000_000))
                by (nonlinear_arith)
                requires
                    n == time.numerator * width.denominator,
                    0 <= time.numerator <= SIGNIFICAND_LIMIT,
                    0 <= width.denominator <= SIGNIFICAND_LIMIT * 1_000_000,
            ;
            assert(0 < d <= SIGNIFICAND_LIMIT * 1_000_000 * SIGNIFICAND_LIMIT)
                by (nonlinear_arith)
                requires
                    d == time.denominator * width.numerator,
                    0 < time.denominator <= SIGNIFICAND_LIMIT * 1_000_000,
                    0 < width.numerator <= SIGNIFICAND_LIMIT,
            ;
            if n > 0 {
                assert(time.numerator > 0) by (nonlinear_arith)
                    requires
                        n > 0,
                        n == time.numerator * width.denominator,
                        time.numerator >= 0,
                ;
                assert(d <= n * (2_000_000 * 0x4000_0000_0000)) by (nonlinear_arith)
                    requires
                        n == time.numerator * width.denominator,
                        d == time.denominator * width.numerator,
                        0 < time.denominator <= 2_000_000 * time.numerator,
                        0 < width.numerator <= 0x4000_0000_0000 * width.denominator,
                ;
                assert(d <= n * MAX_INVERSE) by (nonlinear_arith)
                    requires
                        n > 0,
                        d <= n * (2_000_000 * 0x4000_0000_0000),
                        MAX_INVERSE == 0x100_0000_0000_0000_0000,
                ;
            }
            assert(n <= d * (40 * 0x4000_0000_0000)) by (nonlinear_arith)
                requires
                    n == time.numerator * width.denominator,
                    d == time.denominator * width.numerator,
                    0 <= time.numerator <= 0x4000_0000_0000 * time.denominator,
                    0 <= width.denominator <= 40 * width.numerator,
            ;
            lemma_nearest_bounds(n as nat, d as nat);
        }
        let quotient = time.over(width);
        proof {
            let num = quotient.numerator as int;
            let den = quotient.denominator as int;
            assert(num <= den * (80 * 0x4000_0000_0000)) by (nonlinear_arith)
                requires
                    num * d <= 2 * (n * den),
                    n <= d * (40 * 0x4000_0000_0000),
                    d > 0,
                    den > 0,
            ;
            assert(num / den <= 80 * 0x4000_0000_0000) by (nonlinear_arith)
                requires
                    num <= den * (80 * 0x4000_0000_0000),
                    den > 0,
                    num >= 0,
            ;
        }
        proof {
            reveal(bucket_at);
        }
        (quotient.numerator / quotient.denominator) as i64
    }

    /// Merges every two neighbours.
    fn compact(&mut self)
        requires
            4 <= old(self)@.limit,
            old(self)@.points.len() == old(self)@.limit + 1,
            FIRST_BUCKET_US <= old(self)@.width,
        ensures
            final(self)@ == old(self)@.compacted(),
            final(self)@.well_formed(),
    {
        let mut compacted: Vec<NavigatorOverviewPoint> = Vec::new();
        let mut index: usize = 0;
        let count: usize = self.points.len();
        while index < count
            invariant
                self@ == old(self)@,
                count == self.points@.len(),
                index <= count,
                index == count || index % 2 == 0,
                compacted@.len() == (index + 1) / 2,
                compacted@ =~= merged_pairs(self.points@).take(compacted@.len() as int),
            decreases count - index,
        {
            let first = self.points[index];
            let ghost before = compacted@;
            if count - index >= 2 {
                let second = self.points[index + 1];
                compacted.push(
                    NavigatorOverviewPoint {
                        time_us: second.time_us,
                        values: first.values.with(second.values).averages(2),
                        minimums: first.minimums.min(second.minimums),
                        maximums: first.maximums.max(second.maximums),
                    },
                );
                index += 2;
            } else {
                compacted.push(first);
                index += 1;
            }
            assert(compacted@ =~= merged_pairs(self.points@).take(compacted@.len() as int));
        }
        assert(compacted@ =~= merged_pairs(self.points@));
        self.points = compacted;
        if self.bucket_width_us <= i64::MAX / 2 {
            self.bucket_width_us = 2 * self.bucket_width_us;
        }
        let last = self.points[self.points.len() - 1];
        self.active_bucket = Some(self.bucket_of(last.time_us));
        self.sums = last.values;
        self.minimums = last.minimums;
        self.maximums = last.maximums;
        self.count = 1;
    }

    /// What the overview shows at `target_us`.
    pub fn readout_at(&self, target_us: i64) -> (readout: Option<CursorReadout>)
        ensures
            readout is None <==> self@.points.len() == 0,
            readout matches Some(shown) ==> self@.shown_at(target_us, shown),
    {
        let points = &self.points;
        let time_at = |index: usize| -> (time_us: i64)
            requires
                index < points.len(),
            ensures
                time_us == points@[index as int].time_us,
            { points[index].time_us };
        let nearest = nearest_time_index(self.points.len(), target_us, time_at);
        proof {
            assert(reports(time_at, self@.times()));
        }
        if nearest.is_none() {
            return None;
        }
        let index: usize = nearest.unwrap();
        let point = self.points[index];
        let shown = CursorReadout {
            time_us: point.time_us,
            values: point.values,
            approximate: true,
        };
        assert(shows_at(self@, index as int, target_us, shown));
        assert(self@.shown_at(target_us, shown));
        Some(shown)
    }
}

/// Whether `readout` shows point `index` of the overview, which is the nearest
/// one to `target_us` where the times are in order.
pub open spec fn shows_at(
    overview: Overview,
    index: int,
    target_us: i64,
    readout: CursorReadout,
) -> bool {
    &&& 0 <= index < overview.points.len()
    &&& readout == (CursorReadout {
        time_us: overview.points[index].time_us,
        values: overview.points[index].values,
        approximate: true,
    })
    &&& in_order(overview.times()) ==> is_nearest(
        overview.times(),
        larger(target_us as int, 0),
        index,
    )
}

/// Whether `value` is the highest value that the points show of a channel.
pub open spec fn is_peak(points: Seq<NavigatorOverviewPoint>, channel: int, value: int) -> bool {
    &&& forall|i: int|
        0 <= i < points.len() ==> #[trigger] points[i].maximums.channel(channel) <= value
    &&& exists|i: int|
        0 <= i < points.len() && #[trigger] points[i].maximums.channel(channel) == value
}

/// Whether `value` is the lowest value that the points show of a channel.
pub open spec fn is_trough(points: Seq<NavigatorOverviewPoint>, channel: int, value: int) -> bool {
    &&& forall|i: int|
        0 <= i < points.len() ==> value <= #[trigger] points[i].minimums.channel(channel)
    &&& exists|i: int|
        0 <= i < points.len() && #[trigger] points[i].minimums.channel(channel) == value
}

/// Merging neighbours keeps the extremes.
proof fn lemma_merging_keeps_extremes(
    points: Seq<NavigatorOverviewPoint>,
    channel: int,
    low: int,
    high: int,
)
    requires
        is_peak(points, channel, high),
        is_trough(points, channel, low),
    ensures
        is_peak(merged_pairs(points), channel, high),
        is_trough(merged_pairs(points), channel, low),
{
    let pairs = merged_pairs(points);
    let i = choose|i: int|
        0 <= i < points.len() && #[trigger] points[i].maximums.channel(channel) == high;
    assert forall|k: int| 0 <= k < pairs.len() implies #[trigger] pairs[k].maximums.channel(channel)
        <= high by {
        assert(points[2 * k].maximums.channel(channel) <= high);
        if 2 * k + 1 < points.len() {
            assert(points[2 * k + 1].maximums.channel(channel) <= high);
        }
    }
    assert forall|k: int| 0 <= k < pairs.len() implies low
        <= #[trigger] pairs[k].minimums.channel(channel) by {
        assert(low <= points[2 * k].minimums.channel(channel));
        if 2 * k + 1 < points.len() {
            assert(low <= points[2 * k + 1].minimums.channel(channel));
        }
    }
    assert(pairs[i / 2].maximums.channel(channel) == high) by {
        assert(i == 2 * (i / 2) || i == 2 * (i / 2) + 1);
        assert(points[2 * (i / 2)].maximums.channel(channel) <= high);
        if 2 * (i / 2) + 1 < points.len() {
            assert(points[2 * (i / 2) + 1].maximums.channel(channel) <= high);
        }
    }
    let j = choose|j: int|
        0 <= j < points.len() && #[trigger] points[j].minimums.channel(channel) == low;
    assert(pairs[j / 2].minimums.channel(channel) == low) by {
        assert(j == 2 * (j / 2) || j == 2 * (j / 2) + 1);
        assert(low <= points[2 * (j / 2)].minimums.channel(channel));
        if 2 * (j / 2) + 1 < points.len() {
            assert(low <= points[2 * (j / 2) + 1].minimums.channel(channel));
        }
    }
}

/// Short spikes stay visible: after a sample the highest and the lowest value
/// that the overview shows of a channel are those of everything shown before
/// and of the sample, however often the overview was compacted. The overview
/// begins anew only when time falls back before its current bucket.
pub proof fn law_overview_keeps_extremes(
    overview: Overview,
    time: i64,
    values: ChannelValues,
    channel: int,
    low: int,
    high: int,
)
    requires
        overview.well_formed(),
        0 <= channel < 3,
        !overview.restarts(time as int),
        overview.points.len() > 0 ==> is_peak(overview.points, channel, high) && is_trough(
            overview.points,
            channel,
            low,
        ),
    ensures
        overview.points.len() == 0 ==> {
            &&& is_peak(overview.pushed(time, values).points, channel, values.channel(channel) as int)
            &&& is_trough(
                overview.pushed(time, values).points,
                channel,
                values.channel(channel) as int,
            )
        },
        overview.points.len() > 0 ==> {
            &&& is_peak(
                overview.pushed(time, values).points,
                channel,
                larger(high, values.channel(channel) as int),
            )
            &&& is_trough(
                overview.pushed(time, values).points,
                channel,
                smaller(low, values.channel(channel) as int),
            )
        },
{
    let bucket = overview.bucket(time as int);
    let value = values.channel(channel) as int;
    let next_high = if overview.points.len() == 0 {
        value
    } else {
        larger(high, value)
    };
    let next_low = if overview.points.len() == 0 {
        value
    } else {
        smaller(low, value)
    };
    if overview.active == Some(bucket) {
        let next = overview.extended(time, values);
        let last = overview.points.len() - 1;
        let i = choose|i: int|
            0 <= i < overview.points.len()
                && #[trigger] overview.points[i].maximums.channel(channel) == high;
        let j = choose|j: int|
            0 <= j < overview.points.len()
                && #[trigger] overview.points[j].minimums.channel(channel) == low;
        assert(overview.points[last].maximums.channel(channel) <= high);
        assert(low <= overview.points[last].minimums.channel(channel));
        assert(next.points[last].maximums.channel(channel) == larger(
            overview.points[last].maximums.channel(channel) as int,
            value,
        ));
        assert(next.points[last].minimums.channel(channel) == smaller(
            overview.points[last].minimums.channel(channel) as int,
            value,
        ));
        if high > value {
            assert(next.points[i].maximums.channel(channel) == high);
        }
        if low < value {
            assert(next.points[j].minimums.channel(channel) == low);
        }
    } else {
        let next = overview.appended(bucket, time, values);
        let last = overview.points.len() as int;
        assert(next.points[last].maximums.channel(channel) == value);
        assert(next.points[last].minimums.channel(channel) == value);
        if overview.points.len() > 0 {
            let i = choose|i: int|
                0 <= i < overview.points.len()
                    && #[trigger] overview.points[i].maximums.channel(channel) == high;
            let j = choose|j: int|
                0 <= j < overview.points.len()
                    && #[trigger] overview.points[j].minimums.channel(channel) == low;
            assert(next.points[i].maximums.channel(channel) == high);
            assert(next.points[j].minimums.channel(channel) == low);
        }
        assert(is_peak(next.points, channel, next_high));
        assert(is_trough(next.points, channel, next_low));
        lemma_merging_keeps_extremes(next.points, channel, next_low, next_high);
    }
}

/// The overview never holds more points than its limit, and it always ends at
/// the newest sample.
pub proof fn law_overview_is_bounded_and_current(
    overview: Overview,
    time: i64,
    values: ChannelValues,
)
    requires
        overview.well_formed(),
    ensures
        overview.pushed(time, values).well_formed(),
        0 < overview.pushed(time, values).points.len() <= overview.limit,
        overview.pushed(time, values).points.last().time_us == time,
{
    let bucket = overview.bucket(time as int);
    let base = if overview.restarts(time as int) {
        Overview::empty(overview.limit)
    } else {
        overview
    };
    let next = base.appended(bucket, time, values);
    if next.points.len() > next.limit {
        let pairs = merged_pairs(next.points);
        let last = pairs.len() - 1;
        assert(2 * last == next.points.len() - 1 || 2 * last + 1 == next.points.len() - 1);
    }
}

/// While time goes forward the overview stays in the order of time.
pub proof fn law_overview_stays_in_order(overview: Overview, time: i64, values: ChannelValues)
    requires
        overview.well_formed(),
        in_order(overview.times()),
        overview.points.len() > 0 ==> overview.points.last().time_us <= time,
    ensures
        in_order(overview.pushed(time, values).times()),
{
    let bucket = overview.bucket(time as int);
    let times = overview.times();
    let base = if overview.restarts(time as int) {
        Overview::empty(overview.limit)
    } else {
        overview
    };
    assert(in_order(base.times()));
    assert(forall|i: int|
        0 <= i < base.points.len() ==> #[trigger] base.points[i].time_us <= time) by {
        assert(forall|i: int| 0 <= i < times.len() ==> #[trigger] times[i] <= times.last());
        assert forall|i: int| 0 <= i < base.points.len() implies #[trigger] base.points[i].time_us
            <= time by {
            assert(base.points[i].time_us == times[i]);
        }
    }
    let base_times = base.times();
    if base.active == Some(bucket) {
        let after = base.extended(time, values).times();
        assert forall|i: int, j: int| 0 <= i <= j < after.len() implies after[i] <= after[j] by {
            assert(base_times[i] <= base_times[j]);
            assert(base.points[i].time_us <= time);
        }
    } else {
        let next = base.appended(bucket, time, values);
        let after = next.times();
        assert forall|i: int, j: int| 0 <= i <= j < after.len() implies after[i] <= after[j] by {
            if j < base_times.len() {
                assert(base_times[i] <= base_times[j]);
            } else if i < base_times.len() {
                assert(base.points[i].time_us <= time);
            }
        }
        if next.points.len() > next.limit {
            let pairs = next.compacted();
            let merged_times = pairs.times();
            assert forall|i: int, j: int| 0 <= i <= j < merged_times.len() implies merged_times[i]
                <= merged_times[j] by {
                let a = if 2 * i + 1 < after.len() {
                    2 * i + 1
                } else {
                    2 * i
                };
                let b = if 2 * j + 1 < after.len() {
                    2 * j + 1
                } else {
                    2 * j
                };
                assert(merged_times[i] == after[a]);
                assert(merged_times[j] == after[b]);
                assert(after[a] <= after[b]);
            }
        }
    }
}

/// Whether the average of a channel lies between its extremes.
pub open spec fn is_amid(point: NavigatorOverviewPoint, channel: int) -> bool {
    point.minimums.channel(channel) * FINE <= point.values.channel(channel)
        <= point.maximums.channel(channel) * FINE
}

impl Overview {
    /// Whether every average of a channel lies between the extremes of its
    /// bucket, and so does that of the bucket that is being filled.
    pub open spec fn averages_amid(self, channel: int) -> bool {
        &&& forall|i: int| 0 <= i < self.points.len() ==> is_amid(#[trigger] self.points[i], channel)
        &&& self.points.len() > 0 ==> {
            &&& self.count > 0
            &&& self.count * (self.minimums.channel(channel) * FINE) <= self.sums.channel(channel)
            &&& self.sums.channel(channel) <= self.count * (self.maximums.channel(channel) * FINE)
        }
    }
}

/// An average lies where all its values lie.
proof fn lemma_average_amid(sum: int, count: int, low: int, high: int)
    requires
        count > 0,
        count * low <= sum <= count * high,
    ensures
        low <= sum / count <= high,
{
    vstd::arithmetic::div_mod::lemma_fundamental_div_mod(sum, count);
    vstd::arithmetic::div_mod::lemma_mod_bound(sum, count);
    let quotient = sum / count;
    assert(low <= quotient) by (nonlinear_arith)
        requires
            count > 0,
            count * low <= sum,
            sum < count * quotient + count,
    ;
    assert(quotient <= high) by (nonlinear_arith)
        requires
            count > 0,
            sum <= count * high,
            count * quotient <= sum,
    ;
}

/// Merging neighbours keeps averages between extremes.
proof fn lemma_merged_amid(
    first: NavigatorOverviewPoint,
    second: NavigatorOverviewPoint,
    channel: int,
)
    requires
        0 <= channel < 3,
        is_amid(first, channel),
        is_amid(second, channel),
    ensures
        is_amid(merged(first, second), channel),
{
    let point = merged(first, second);
    lemma_average_amid(
        first.values.channel(channel) + second.values.channel(channel),
        2,
        point.minimums.channel(channel) * FINE,
        point.maximums.channel(channel) * FINE,
    );
}

/// What is drawn of a bucket is in order: its average lies between its lowest
/// and its highest value, however often the overview was compacted. It holds
/// for as long as the samples of a bucket can be counted.
#[verifier::spinoff_prover]
pub proof fn law_averages_lie_between_extremes(
    overview: Overview,
    time: i64,
    values: ChannelValues,
    channel: int,
)
    requires
        overview.well_formed(),
        0 <= channel < 3,
        overview.averages_amid(channel),
        overview.count < u32::MAX,
    ensures
        overview.pushed(time, values).averages_amid(channel),
{
    let bucket = overview.bucket(time as int);
    let base = if overview.restarts(time as int) {
        Overview::empty(overview.limit)
    } else {
        overview
    };
    let value = values.channel(channel) * FINE;
    assert(base.well_formed() && base.averages_amid(channel));
    if base.active == Some(bucket) {
        let next = base.extended(time, values);
        let count = base.count as int;
        let low = base.minimums.channel(channel) * FINE;
        let high = base.maximums.channel(channel) * FINE;
        let lower = next.minimums.channel(channel) * FINE;
        let higher = next.maximums.channel(channel) * FINE;
        let sum = base.sums.channel(channel) as int;
        assert(-0x1_0000_0000 * (0x8000_0000_0000_0000 * FINE) <= sum <= 0x1_0000_0000 * (
        0x8000_0000_0000_0000 * FINE)) by (nonlinear_arith)
            requires
                count * low <= sum <= count * high,
                0 <= count <= 0x1_0000_0000,
                -0x8000_0000_0000_0000 * FINE <= low,
                high <= 0x8000_0000_0000_0000 * FINE,
                FINE == 1_000_000_000,
        ;
        assert(next.sums.channel(channel) == sum + value);
        assert((count + 1) * lower <= sum + value) by (nonlinear_arith)
            requires
                count * low <= sum,
                lower <= low,
                lower <= value,
                count >= 0,
        ;
        assert(sum + value <= (count + 1) * higher) by (nonlinear_arith)
            requires
                sum <= count * high,
                high <= higher,
                value <= higher,
                count >= 0,
        ;
        lemma_average_amid(sum + value, count + 1, lower, higher);
        let last = base.points.len() - 1;
        assert forall|i: int| 0 <= i < next.points.len() implies is_amid(
            #[trigger] next.points[i],
            channel,
        ) by {
            if i != last {
                assert(next.points[i] == base.points[i]);
            }
        }
        assert(next.averages_amid(channel));
        assert(overview.pushed(time, values) == next);
    } else {
        let next = base.appended(bucket, time, values);
        assert forall|i: int| 0 <= i < next.points.len() implies is_amid(
            #[trigger] next.points[i],
            channel,
        ) by {
            if i < base.points.len() {
                assert(next.points[i] == base.points[i]);
            }
        }
        assert(next.averages_amid(channel));
        if next.points.len() > next.limit {
            let pairs = merged_pairs(next.points);
            assert forall|k: int| 0 <= k < pairs.len() implies is_amid(
                #[trigger] pairs[k],
                channel,
            ) by {
                assert(is_amid(next.points[2 * k], channel));
                if 2 * k + 1 < next.points.len() {
                    assert(is_amid(next.points[2 * k + 1], channel));
                    lemma_merged_amid(next.points[2 * k], next.points[2 * k + 1], channel);
                }
            }
            assert(is_amid(pairs[pairs.len() - 1], channel));
            assert(next.compacted().averages_amid(channel));
        }
    }
}

/// What a sample counts for in a channel: its voltage, and the size of its
/// current and of its power.
pub open spec fn counted_of(sample: MeasurementSample, channel: int) -> int {
    if channel == 0 {
        sample.vbus_uv as int
    } else if channel == 1 {
        if sample.ibus_ua < 0 {
            -sample.ibus_ua
        } else {
            sample.ibus_ua as int
        }
    } else {
        if sample.power_uw < 0 {
            -sample.power_uw
        } else {
            sample.power_uw as int
        }
    }
}

/// What the samples come to in a channel.
pub open spec fn total_of(samples: Seq<MeasurementSample>, channel: int) -> int
    decreases samples.len(),
{
    if samples.len() == 0 {
        0
    } else {
        total_of(samples.drop_last(), channel) + counted_of(samples.last(), channel)
    }
}

/// Whether every sample falls into the bucket of the first, and its readings
/// have a size.
pub open spec fn share_a_bucket(overview: Overview, samples: Seq<MeasurementSample>) -> bool {
    forall|i: int|
        0 <= i < samples.len() ==> {
            &&& overview.bucket(crate::chart::charted(#[trigger] samples[i].elapsed_us) as int)
                == overview.bucket(crate::chart::charted(samples[0].elapsed_us) as int)
            &&& samples[i].ibus_ua > i64::MIN
            &&& samples[i].power_uw > i64::MIN
        }
}

/// What shares a bucket did so before its last sample came.
proof fn lemma_shared_before(overview: Overview, samples: Seq<MeasurementSample>)
    requires
        samples.len() > 1,
        share_a_bucket(overview, samples),
    ensures
        share_a_bucket(overview, samples.drop_last()),
{
    let earlier = samples.drop_last();
    assert(earlier[0] == samples[0]);
    assert forall|i: int| 0 <= i < earlier.len() implies {
        &&& overview.bucket(crate::chart::charted(#[trigger] earlier[i].elapsed_us) as int)
            == overview.bucket(crate::chart::charted(earlier[0].elapsed_us) as int)
        &&& earlier[i].ibus_ua > i64::MIN
        &&& earlier[i].power_uw > i64::MIN
    } by {
        assert(earlier[i].elapsed_us == samples[i].elapsed_us);
    }
}

/// What one bucket has gathered.
proof fn lemma_bucket_gathers(overview: Overview, samples: Seq<MeasurementSample>, channel: int)
    requires
        overview.well_formed(),
        overview.points.len() < overview.limit,
        0 <= channel < 3,
        0 < samples.len() < u32::MAX,
        share_a_bucket(overview, samples),
        overview.active matches Some(active) ==> active < overview.bucket(
            crate::chart::charted(samples[0].elapsed_us) as int,
        ),
    ensures
        ({
            let after = overview.pushed_all(samples);
            &&& after.points.len() == overview.points.len() + 1
            &&& after.points.drop_last() == overview.points
            &&& after.width == overview.width
            &&& after.limit == overview.limit
            &&& after.active == Some(
                overview.bucket(crate::chart::charted(samples[0].elapsed_us) as int),
            )
            &&& after.count == samples.len()
            &&& after.sums.channel(channel) == FINE * total_of(samples, channel)
            &&& after.points.last().values.channel(channel) == (FINE * total_of(samples, channel))
                / (samples.len() as int)
            &&& -0x8000_0000_0000_0000 * samples.len() <= total_of(samples, channel)
            &&& total_of(samples, channel) <= 0x8000_0000_0000_0000 * samples.len()
        }),
    decreases samples.len(),
{
    let earlier = samples.drop_last();
    let last = samples.last();
    let time = crate::chart::charted(last.elapsed_us);
    let values = channels_of(last);
    let bucket = overview.bucket(crate::chart::charted(samples[0].elapsed_us) as int);
    assert(samples[samples.len() - 1] == last);
    assert(values.channel(channel) == counted_of(last, channel));
    let before = overview.pushed_all(earlier);
    if earlier.len() == 0 {
        assert(before == overview);
        assert(total_of(earlier, channel) == 0);
        assert(overview.bucket(time as int) == bucket);
        let after = overview.appended(bucket, time, values);
        assert(overview.pushed(time, values) == after);
        assert(after.points.drop_last() =~= overview.points);
        assert(values.fined().channel(channel) == FINE * counted_of(last, channel));
        let sum = FINE * counted_of(last, channel);
        assert(sum / 1 == sum);
    } else {
        lemma_shared_before(overview, samples);
        lemma_bucket_gathers(overview, earlier, channel);
        assert(before.bucket(time as int) == bucket);
        let after = before.extended(time, values);
        assert(before.pushed(time, values) == after);
        assert(after.points.drop_last() =~= before.points.drop_last());
        let sum = FINE * total_of(earlier, channel);
        assert(values.fined().channel(channel) == FINE * counted_of(last, channel));
        assert(sum + FINE * counted_of(last, channel) == FINE * total_of(samples, channel))
            by (nonlinear_arith)
            requires
                sum == FINE * total_of(earlier, channel),
                total_of(samples, channel) == total_of(earlier, channel) + counted_of(
                    last,
                    channel,
                ),
        ;
        assert(-0x8000_0000_0000_0000_0000_0000_0000_0000 <= FINE * total_of(samples, channel)
            <= 0x7fff_ffff_ffff_ffff_ffff_ffff_ffff_ffff);
        assert(after.sums.channel(channel) == FINE * total_of(samples, channel));
        assert(after.count == samples.len());
        lemma_average_amid(
            FINE * total_of(samples, channel),
            samples.len() as int,
            -0x8000_0000_0000_0000 * FINE,
            0x8000_0000_0000_0000 * FINE,
        );
        assert(after.points.last().values.channel(channel) == (FINE * total_of(samples, channel))
            / (samples.len() as int));
    }
}

/// The point of a bucket is the mean of everything that fell into it: its
/// average, times the number of samples, is their sum, but for what rounding
/// down to a billionth of a millionth takes away. It stands at the newest
/// sample, and the points before it stay as they were.
pub proof fn law_a_bucket_shows_the_mean_of_its_samples(
    overview: Overview,
    samples: Seq<MeasurementSample>,
    channel: int,
)
    requires
        overview.well_formed(),
        overview.points.len() < overview.limit,
        0 <= channel < 3,
        0 < samples.len() < u32::MAX,
        share_a_bucket(overview, samples),
        overview.active matches Some(active) ==> active < overview.bucket(
            crate::chart::charted(samples[0].elapsed_us) as int,
        ),
    ensures
        ({
            let after = overview.pushed_all(samples).points;
            let mean = after.last().values.channel(channel);
            &&& after.len() == overview.points.len() + 1
            &&& after.drop_last() == overview.points
            &&& after.last().time_us == crate::chart::charted(samples.last().elapsed_us)
            &&& samples.len() * mean <= 1_000_000_000 * total_of(samples, channel)
            &&& 1_000_000_000 * total_of(samples, channel) < samples.len() * mean + samples.len()
        }),
{
    lemma_bucket_gathers(overview, samples, channel);
    let sum = 1_000_000_000 * total_of(samples, channel);
    let count = samples.len() as int;
    vstd::arithmetic::div_mod::lemma_fundamental_div_mod(sum, count);
    vstd::arithmetic::div_mod::lemma_mod_bound(sum, count);
    let earlier = samples.drop_last();
    assert(samples[samples.len() - 1] == samples.last());
    let before = overview.pushed_all(earlier);
    if earlier.len() > 0 {
        lemma_shared_before(overview, samples);
        lemma_bucket_gathers(overview, earlier, channel);
    }
}

/// When there are too many points, every two neighbours become one: it stands
/// at the later of the two, halfway between their averages, and spans both.
/// What is left is half as many points, in buckets twice as wide.
pub proof fn law_a_full_overview_is_halved(
    overview: Overview,
    time: i64,
    values: ChannelValues,
    index: int,
    channel: int,
)
    requires
        overview.well_formed(),
        overview.points.len() == overview.limit,
        overview.active matches Some(active) ==> active < overview.bucket(time as int),
        0 <= index,
        2 * index + 1 < overview.points.len(),
        0 <= channel < 3,
        -0x4000_0000_0000_0000_0000_0000_0000_0000
            < overview.points[2 * index].values.channel(channel)
            < 0x3fff_ffff_ffff_ffff_ffff_ffff_ffff_ffff,
        -0x4000_0000_0000_0000_0000_0000_0000_0000
            < overview.points[2 * index + 1].values.channel(channel)
            < 0x3fff_ffff_ffff_ffff_ffff_ffff_ffff_ffff,
        overview.width < 0x4000_0000_0000_0000,
    ensures
        ({
            let after = overview.pushed(time, values);
            let first = overview.points[2 * index];
            let second = overview.points[2 * index + 1];
            let pair = after.points[index];
            &&& after.width == 2 * overview.width
            &&& 2 * after.points.len() == overview.limit + 1 || 2 * after.points.len()
                == overview.limit + 2
            &&& pair.time_us == second.time_us
            &&& 2 * pair.values.channel(channel) == first.values.channel(channel)
                + second.values.channel(channel) || 2 * pair.values.channel(channel) + 1
                == first.values.channel(channel) + second.values.channel(channel)
            &&& pair.minimums.channel(channel) <= first.minimums.channel(channel)
            &&& pair.minimums.channel(channel) <= second.minimums.channel(channel)
            &&& pair.minimums.channel(channel) == first.minimums.channel(channel)
                || pair.minimums.channel(channel) == second.minimums.channel(channel)
            &&& pair.maximums.channel(channel) >= first.maximums.channel(channel)
            &&& pair.maximums.channel(channel) >= second.maximums.channel(channel)
            &&& pair.maximums.channel(channel) == first.maximums.channel(channel)
                || pair.maximums.channel(channel) == second.maximums.channel(channel)
        }),
{
    let bucket = overview.bucket(time as int);
    let next = overview.appended(bucket, time, values);
    assert(overview.pushed(time, values) == next.compacted());
    assert(next.points[2 * index] == overview.points[2 * index]);
    assert(next.points[2 * index + 1] == overview.points[2 * index + 1]);
}

/// A sample that falls before the bucket that is being filled begins the
/// overview anew: it is then the only one that is shown.
pub proof fn law_time_that_falls_back_begins_anew(
    overview: Overview,
    time: i64,
    values: ChannelValues,
)
    requires
        overview.well_formed(),
        overview.active matches Some(active) && overview.bucket(time as int) < active,
    ensures
        ({
            let after = overview.pushed(time, values);
            &&& after.points.len() == 1
            &&& after.points[0].time_us == time
            &&& after.points[0].minimums == values
            &&& after.points[0].maximums == values
            &&& after.points[0].values.voltage == values.voltage * 1_000_000_000
            &&& after.points[0].values.current == values.current * 1_000_000_000
            &&& after.points[0].values.power == values.power * 1_000_000_000
            &&& after.limit == overview.limit
            &&& after.width == 100_000
        }),
{
}

} // verus!
