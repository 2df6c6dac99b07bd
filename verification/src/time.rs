//! Identifiers, instants and calendar dates.
use vstd::prelude::*;

verus! {

/// The 128 bits of a UUID, the first byte being the most significant.
pub type Uuid = u128;

/// Nanoseconds since the Unix epoch.
pub type Instant = i128;

/// Nanoseconds in a microsecond.
pub const MICROSECOND: i128 = 1_000;

/// Nanoseconds in a second.
pub const SECOND: i128 = 1_000_000_000;

/// Nanoseconds in a minute.
pub const MINUTE: i128 = 60_000_000_000;

/// Nanoseconds in an hour.
pub const HOUR: i128 = 3_600_000_000_000;

/// Instants and durations stay within this distance from zero: it is beyond
/// every calendar date that the service can represent.
pub const TIME_LIMIT: i128 = 1_000_000_000_000_000_000_000_000;

/// Whether `value` is near enough to zero to be added to without overflow.
pub open spec fn in_time_range(value: i128) -> bool {
    -TIME_LIMIT <= value <= TIME_LIMIT
}

/// The tenant and the member of it that a request acts for.
#[derive(Clone, Copy, Debug, PartialEq, Eq, Structural)]
pub struct DatabaseScope {
    pub workspace_id: Uuid,
    pub user_id: Uuid,
}

/// The quotient of `value` by `divisor`, rounded towards negative infinity.
pub fn floor_div(value: i128, divisor: i128) -> (result: i128)
    requires
        divisor > 0,
    ensures
        result == value as int / divisor as int,
{
    if value >= 0 {
        value / divisor
    } else {
        let positive: i128 = -(value + 1);
        let quotient: i128 = positive / divisor;
        proof {
            vstd::arithmetic::div_mod::lemma_fundamental_div_mod(positive as int, divisor as int);
            let q = quotient as int;
            let r = positive as int % divisor as int;
            let d = divisor as int;
            assert(positive == d * q + r);
            assert(value as int == d * (-q - 1) + (d - 1 - r)) by (nonlinear_arith)
                requires
                    positive == d * q + r,
                    positive == -(value + 1),
            ;
            vstd::arithmetic::div_mod::lemma_fundamental_div_mod_converse(
                value as int,
                d,
                -q - 1,
                d - 1 - r,
            );
            assert(q <= positive) by (nonlinear_arith)
                requires
                    positive == d * q + r,
                    r >= 0,
                    d >= 1,
                    q >= 0,
            ;
        }
        -quotient - 1
    }
}

/// Whole microseconds since the Unix epoch.
pub fn timestamp_micros(value: Instant) -> (result: i128)
    ensures
        result == value as int / 1_000,
{
    floor_div(value, MICROSECOND)
}

/// The instant without its part below a microsecond, as the database keeps it.
pub open spec fn stored_instant(value: Instant) -> int {
    value as int / 1_000 * 1_000
}

/// The instant without its part below a microsecond.
pub fn truncate_to_micros(value: Instant) -> (result: Instant)
    requires
        in_time_range(value),
    ensures
        result == stored_instant(value),
{
    timestamp_micros(value) * MICROSECOND
}

/// What the database keeps of an instant, it keeps unchanged, and it loses less
/// than a microsecond of any instant.
pub proof fn stored_instant_is_stable(value: Instant, stored: Instant)
    requires
        stored == stored_instant(value),
    ensures
        stored_instant(stored) == stored,
        0 <= value - stored < 1_000,
{
}

/// A date of the proleptic Gregorian calendar.
#[derive(Clone, Copy, Debug, PartialEq, Eq, Structural)]
pub struct CalendarDate {
    pub year: i32,
    pub month: u8,
    pub day: u8,
}

/// Whether `year` has a 29th of February.
pub open spec fn leap_year(year: int) -> bool {
    year % 4 == 0 && (year % 100 != 0 || year % 400 == 0)
}

/// The number of days of a month.
pub open spec fn days_in_month(year: int, month: int) -> int {
    if month == 2 {
        if leap_year(year) {
            29
        } else {
            28
        }
    } else if month == 4 || month == 6 || month == 9 || month == 11 {
        30
    } else {
        31
    }
}

impl CalendarDate {
    /// Whether the calendar has this date.
    pub open spec fn on_calendar(self) -> bool {
        &&& 1 <= self.month <= 12
        &&& 1 <= self.day <= days_in_month(self.year as int, self.month as int)
    }

    /// Whether `self` is before `other`.
    pub open spec fn before(self, other: CalendarDate) -> bool {
        ||| self.year < other.year
        ||| self.year == other.year && self.month < other.month
        ||| self.year == other.year && self.month == other.month && self.day < other.day
    }

    /// The date, if the calendar has it.
    pub fn new(year: i32, month: u8, day: u8) -> (result: Option<CalendarDate>)
        ensures
            result == (if (CalendarDate { year, month, day }).on_calendar() {
                Some(CalendarDate { year, month, day })
            } else {
                None
            }),
    {
        if month < 1 || month > 12 || day < 1 {
            return None;
        }
        let y4: i128 = floor_div(year as i128, 4);
        let y100: i128 = floor_div(year as i128, 100);
        let y400: i128 = floor_div(year as i128, 400);
        let leap: bool = y4 * 4 == year as i128 && (y100 * 100 != year as i128 || y400 * 400
            == year as i128);
        let last: u8 = if month == 2 {
            if leap {
                29
            } else {
                28
            }
        } else if month == 4 || month == 6 || month == 9 || month == 11 {
            30
        } else {
            31
        };
        if day <= last {
            Some(CalendarDate { year, month, day })
        } else {
            None
        }
    }

    /// Whether `self` is before `other`.
    pub fn is_before(&self, other: &CalendarDate) -> (result: bool)
        ensures
            result == self.before(*other),
    {
        self.year < other.year || (self.year == other.year && self.month < other.month) || (
        self.year == other.year && self.month == other.month && self.day < other.day)
    }
}

/// Dates are ordered: of two dates one is before the other, or they are the same,
/// and no date is before itself.
pub proof fn dates_are_ordered(a: CalendarDate, b: CalendarDate, c: CalendarDate)
    ensures
        a.before(b) || b.before(a) || a == b,
        !(a.before(b) && b.before(a)),
        a.before(b) && b.before(c) ==> a.before(c),
{
}

} // verus!
