//! Instants of the UTC time line and how they read in Beijing.
use vstd::prelude::*;
use vstd::string::*;

use crate::text::{append_decimal, append_padded, decimal, padded};

verus! {

/// The first second that a calendar date can be given for.
pub const MIN_SECONDS: i64 = -8_334_601_228_800;

/// The last second that a calendar date can be given for.
pub const MAX_SECONDS: i64 = 8_210_266_876_799;

/// An instant: seconds since 1970-01-01 00:00:00 UTC and the nanoseconds after.
#[derive(Debug, Clone, Copy, PartialEq, Eq, Structural)]
pub struct UtcInstant {
    pub seconds: i64,
    pub nanos: u32,
}

impl UtcInstant {
    /// The instant has a calendar date and less than a second of nanoseconds.
    pub open spec fn valid(self) -> bool {
        &&& MIN_SECONDS <= self.seconds <= MAX_SECONDS
        &&& self.nanos < 1_000_000_000
    }

    /// Nanoseconds since 1970.
    pub open spec fn nanoseconds(self) -> int {
        self.seconds * 1_000_000_000 + self.nanos
    }

    /// Whole milliseconds from `start`; zero where `start` is later.
    pub open spec fn millis_since(self, start: UtcInstant) -> u64 {
        if self.nanoseconds() < start.nanoseconds() {
            0
        } else {
            ((self.nanoseconds() - start.nanoseconds()) / 1_000_000) as u64
        }
    }

    /// Whole milliseconds from `start`; zero where `start` is later.
    pub fn duration_ms_since(self, start: UtcInstant) -> (millis: u64)
        requires
            self.valid(),
            start.valid(),
        ensures
            millis == self.millis_since(start),
    {
        let end_ns: i128 = self.seconds as i128 * 1_000_000_000 + self.nanos as i128;
        let start_ns: i128 = start.seconds as i128 * 1_000_000_000 + start.nanos as i128;
        if end_ns < start_ns {
            0
        } else {
            ((end_ns - start_ns) / 1_000_000) as u64
        }
    }

    /// Whether the instant lies after `other`.
    pub fn is_after(self, other: UtcInstant) -> (after: bool)
        requires
            self.nanos < 1_000_000_000,
            other.nanos < 1_000_000_000,
        ensures
            after == (self.nanoseconds() > other.nanoseconds()),
    {
        self.seconds > other.seconds || (self.seconds == other.seconds && self.nanos > other.nanos)
    }
}

/// How chrono writes the instant `seconds` and `nanos` in the time zone
/// Asia/Shanghai under the pattern `pattern`.
pub uninterp spec fn shanghai_text(seconds: i64, nanos: u32, pattern: Seq<char>) -> Seq<char>;

/// How chrono writes the instant `seconds` and `nanos` in UTC under the pattern
/// `pattern`.
pub uninterp spec fn utc_text(seconds: i64, nanos: u32, pattern: Seq<char>) -> Seq<char>;

/// Calls `chrono::DateTime::format` on the instant, moved to chrono-tz's
/// `Asia::Shanghai` with `DateTime::with_timezone`. The text is a function of
/// the instant and the pattern: the zone's rules are compiled in. An instant
/// without a calendar date, or a pattern that chrono cannot read, would panic;
/// the two patterns of this library are read.
#[verifier::external_body]
fn format_in_shanghai(seconds: i64, nanos: u32, pattern: &str) -> (text: String)
    requires
        MIN_SECONDS <= seconds <= MAX_SECONDS,
        nanos < 1_000_000_000,
        pattern@ == "%Y-%m-%d %H:%M:%S%.3f BJT"@ || pattern@ == "%Y%m%d-%H%M%S"@,
    ensures
        text@ == shanghai_text(seconds, nanos, pattern@),
{
    chrono::DateTime::from_timestamp(seconds, nanos)
        .unwrap()
        .with_timezone(&chrono_tz::Asia::Shanghai)
        .format(pattern)
        .to_string()
}

/// Calls `chrono::DateTime::format` on the instant in UTC. The text is a
/// function of the instant and the pattern. An instant without a calendar date,
/// or a pattern that chrono cannot read, would panic; the pattern of this
/// library is read.
#[verifier::external_body]
fn format_in_utc(seconds: i64, nanos: u32, pattern: &str) -> (text: String)
    requires
        MIN_SECONDS <= seconds <= MAX_SECONDS,
        nanos < 1_000_000_000,
        pattern@ == "%Y%m%dT%H%M%S"@,
    ensures
        text@ == utc_text(seconds, nanos, pattern@),
{
    chrono::DateTime::from_timestamp(seconds, nanos).unwrap().format(pattern).to_string()
}

/// The instant in Beijing, to the millisecond.
pub open spec fn beijing_text(instant: UtcInstant) -> Seq<char> {
    shanghai_text(instant.seconds, instant.nanos, "%Y-%m-%d %H:%M:%S%.3f BJT"@)
}

/// The instant in Beijing, to the second and without separators.
pub open spec fn compact_beijing_text(instant: UtcInstant) -> Seq<char> {
    shanghai_text(instant.seconds, instant.nanos, "%Y%m%d-%H%M%S"@)
}

/// The identifier of a session that process `process_id` started at `instant`.
pub open spec fn session_id_text(instant: UtcInstant, process_id: u32) -> Seq<char> {
    utc_text(instant.seconds, instant.nanos, "%Y%m%dT%H%M%S"@) + "-"@ + padded(
        instant.nanos as nat,
        10,
        9,
    ) + "-"@ + decimal(process_id as nat)
}

/// The instant in Beijing, to the millisecond.
pub fn format_beijing(instant: UtcInstant) -> (text: String)
    requires
        instant.valid(),
    ensures
        text@ == beijing_text(instant),
{
    format_in_shanghai(instant.seconds, instant.nanos, "%Y-%m-%d %H:%M:%S%.3f BJT")
}

/// The instant in Beijing, to the second and without separators.
pub fn format_beijing_compact(instant: UtcInstant) -> (text: String)
    requires
        instant.valid(),
    ensures
        text@ == compact_beijing_text(instant),
{
    format_in_shanghai(instant.seconds, instant.nanos, "%Y%m%d-%H%M%S")
}

/// The identifier of a session that process `process_id` started at `instant`.
pub fn create_session_id(instant: UtcInstant, process_id: u32) -> (id: String)
    requires
        instant.valid(),
    ensures
        id@ == session_id_text(instant, process_id),
{
    let date = format_in_utc(instant.seconds, instant.nanos, "%Y%m%dT%H%M%S");
    session_id_from(date, instant.nanos, process_id)
}

/// The identifier that a written date, nanoseconds and a process make.
pub fn session_id_from(date: String, nanos: u32, process_id: u32) -> (id: String)
    ensures
        id@ == date@ + "-"@ + padded(nanos as nat, 10, 9) + "-"@ + decimal(process_id as nat),
{
    let mut id = date;
    id.append("-");
    append_padded(&mut id, nanos as u128, 10, 9);
    id.append("-");
    append_decimal(&mut id, process_id as u128);
    id
}

/// A duration is never negative, whatever the order of the two instants.
pub proof fn law_durations_are_never_negative(end: UtcInstant, start: UtcInstant)
    requires
        end.valid(),
        start.valid(),
        end.nanoseconds() <= start.nanoseconds(),
    ensures
        end.millis_since(start) == 0,
{
}

/// A duration is the time between two instants in whole milliseconds: what is
/// left over is less than one.
pub proof fn law_a_duration_is_the_time_between(end: UtcInstant, start: UtcInstant)
    requires
        end.valid(),
        start.valid(),
        start.seconds < end.seconds || (start.seconds == end.seconds && start.nanos <= end.nanos),
    ensures
        ({
            let passed = (end.seconds - start.seconds) * 1_000_000_000 + (end.nanos - start.nanos);
            let millis = end.millis_since(start);
            &&& millis * 1_000_000 <= passed
            &&& passed < (millis + 1) * 1_000_000
        }),
{
}

/// Durations that follow one another add up, but for a millisecond of rounding.
pub proof fn law_durations_add_up(first: UtcInstant, second: UtcInstant, third: UtcInstant)
    requires
        first.valid(),
        second.valid(),
        third.valid(),
        first.nanoseconds() <= second.nanoseconds() <= third.nanoseconds(),
    ensures
        ({
            let whole = third.millis_since(first);
            let parts = second.millis_since(first) + third.millis_since(second);
            parts <= whole <= parts + 1
        }),
{
}

} // verus!
