//! Instants of the planner, and local time.
use vstd::prelude::*;

use crate::outside::{date_in_zone, is_zone, offset_in_zone};
use crate::time::{floor_div, timestamp_micros, CalendarDate, Instant, SECOND};

verus! {

/// Why evidence of published occurrences is refused.
#[derive(Clone, Copy, Debug, PartialEq, Eq, Structural)]
pub enum PublishedHabitEvidenceError {
    /// It contradicts what was published before.
    Conflict,
    /// It is malformed.
    Invalid,
    /// The storage cannot be reached.
    Unavailable,
}

/// The first and the last microsecond that the planner can represent: the years -9999
/// to 9999.
pub const PLANNER_FIRST_MICROSECOND: i128 = -377_705_116_800_000_000;

pub const PLANNER_LAST_MICROSECOND: i128 = 253_402_300_799_999_999;

/// The first and the last microsecond of the calendar of the storage.
pub const CALENDAR_FIRST_MICROSECOND: i128 = -8_334_601_228_800_000_000;

pub const CALENDAR_LAST_MICROSECOND: i128 = 8_210_266_876_799_999_999;

/// An instant with the local time at which it is written.
#[derive(Clone, Copy, Debug, PartialEq, Eq, Structural)]
pub struct ZonedInstant {
    pub instant: Instant,
    /// The seconds by which local time is ahead of UTC.
    pub offset_seconds: i32,
}

/// The whole seconds of an instant since the Unix epoch.
pub open spec fn whole_seconds(value: Instant) -> int {
    value as int / 1_000_000_000
}

/// The nanoseconds of an instant within its second.
pub open spec fn subsecond_nanos(value: Instant) -> int {
    value as int % 1_000_000_000
}

/// Whether the planner can represent an instant, without its part below a microsecond.
pub open spec fn planner_instant(value: Instant) -> bool {
    PLANNER_FIRST_MICROSECOND <= value as int / 1_000 <= PLANNER_LAST_MICROSECOND
}

/// An instant as the planner takes it.
pub open spec fn planner_result(value: Instant) -> Result<Instant, PublishedHabitEvidenceError> {
    if planner_instant(value) {
        Ok(crate::time::stored_instant(value) as Instant)
    } else {
        Err(PublishedHabitEvidenceError::Invalid)
    }
}

/// An instant as the planner takes it: without its part below a microsecond, and within
/// the years that the planner knows.
pub fn chrono_to_offset(value: Instant) -> (result: Result<Instant, PublishedHabitEvidenceError>)
    ensures
        result == planner_result(value),
{
    let micros: i128 = timestamp_micros(value);
    if micros < PLANNER_FIRST_MICROSECOND || micros > PLANNER_LAST_MICROSECOND {
        Err(PublishedHabitEvidenceError::Invalid)
    } else {
        Ok(micros * 1_000)
    }
}

/// An instant of the planner as it is stored: without its part below a microsecond, and
/// within the calendar of the storage.
pub fn offset_to_chrono(value: Instant) -> (result: Result<Instant, PublishedHabitEvidenceError>)
    ensures
        result == (if CALENDAR_FIRST_MICROSECOND <= value as int / 1_000
            <= CALENDAR_LAST_MICROSECOND {
            Ok::<Instant, PublishedHabitEvidenceError>(
                crate::time::stored_instant(value) as Instant,
            )
        } else {
            Err(PublishedHabitEvidenceError::Invalid)
        }),
{
    let micros: i128 = timestamp_micros(value);
    if micros < CALENDAR_FIRST_MICROSECOND || micros > CALENDAR_LAST_MICROSECOND {
        Err(PublishedHabitEvidenceError::Invalid)
    } else {
        Ok(micros * 1_000)
    }
}

/// Whether an instant stays on the calendar of the storage in every time zone.
pub open spec fn zone_instant(value: Instant) -> bool {
    -8_334_601_142_400 <= whole_seconds(value) <= 8_210_266_790_399
}

/// The whole seconds and the nanoseconds of an instant.
fn split_instant(value: Instant) -> (result: (i64, u32))
    requires
        zone_instant(value),
    ensures
        result.0 == whole_seconds(value),
        result.1 == subsecond_nanos(value),
        crate::outside::on_zone_calendar(result.0, result.1),
{
    let seconds: i128 = floor_div(value, SECOND);
    let nanos: i128 = value - seconds * SECOND;
    (seconds as i64, nanos as u32)
}

/// The local date of an instant in a time zone.
pub open spec fn local_date(value: Instant, zone: Seq<char>) -> CalendarDate {
    let date = crate::outside::zone_date(
        whole_seconds(value) as i64,
        subsecond_nanos(value) as u32,
        zone,
    );
    CalendarDate { year: date.0, month: date.1 as u8, day: date.2 as u8 }
}

/// The local date of an occurrence: the one that the planner gave it, or else the one of
/// its nominal start. The time zone must be known in any case, so that the local time
/// that was shown can be explained later.
pub fn occurrence_local_date(
    explicit: Option<CalendarDate>,
    nominal_start: Instant,
    timezone_name: &str,
) -> (result: Result<CalendarDate, PublishedHabitEvidenceError>)
    requires
        explicit is None ==> zone_instant(nominal_start),
    ensures
        result == (if !crate::outside::zone_known(timezone_name@) {
            Err::<CalendarDate, PublishedHabitEvidenceError>(PublishedHabitEvidenceError::Invalid)
        } else {
            match explicit {
                Some(date) => Ok(date),
                None => Ok(local_date(nominal_start, timezone_name@)),
            }
        }),
        explicit is None && result is Ok ==> result->Ok_0.on_calendar(),
{
    if !is_zone(timezone_name) {
        return Err(PublishedHabitEvidenceError::Invalid);
    }
    match explicit {
        Some(date) => Ok(date),
        None => {
            let (seconds, nanos) = split_instant(nominal_start);
            let (year, month, day) = date_in_zone(seconds, nanos, timezone_name);
            Ok(CalendarDate { year, month: month as u8, day: day as u8 })
        },
    }
}

/// Whether the planner can write local time that is ahead of UTC by so many seconds.
pub open spec fn planner_offset(seconds: int) -> bool {
    -93_599 <= seconds <= 93_599
}

/// An instant as the planner takes it, written in the local time of a time zone.
pub open spec fn zoned_result(value: Instant, zone: Seq<char>) -> Result<
    ZonedInstant,
    PublishedHabitEvidenceError,
> {
    let offset = crate::outside::zone_offset(
        whole_seconds(value) as i64,
        subsecond_nanos(value) as u32,
        zone,
    );
    if crate::outside::zone_known(zone) && planner_instant(value) && planner_offset(offset as int) {
        Ok(
            ZonedInstant {
                instant: crate::time::stored_instant(value) as Instant,
                offset_seconds: offset,
            },
        )
    } else {
        Err(PublishedHabitEvidenceError::Invalid)
    }
}

/// An instant as the planner takes it, written in the local time of a time zone.
pub fn chrono_to_offset_in_timezone(value: Instant, timezone_name: &str) -> (result: Result<
    ZonedInstant,
    PublishedHabitEvidenceError,
>)
    ensures
        result == zoned_result(value, timezone_name@),
{
    if !is_zone(timezone_name) {
        return Err(PublishedHabitEvidenceError::Invalid);
    }
    let instant: Instant = chrono_to_offset(value)?;
    assert(zone_instant(value));
    let (seconds, nanos) = split_instant(value);
    let offset_seconds: i32 = offset_in_zone(seconds, nanos, timezone_name);
    if offset_seconds < -93_599 || offset_seconds > 93_599 {
        return Err(PublishedHabitEvidenceError::Invalid);
    }
    Ok(ZonedInstant { instant, offset_seconds })
}

/// What the planner is handed comes back unchanged: an instant that is stored, handed to
/// the planner and stored again is the same instant.
pub proof fn planner_gives_instants_back(value: Instant, handed: Instant)
    requires
        planner_result(value) == Ok::<Instant, PublishedHabitEvidenceError>(handed),
    ensures
        planner_result(handed) == Ok::<Instant, PublishedHabitEvidenceError>(handed),
        CALENDAR_FIRST_MICROSECOND <= handed as int / 1_000 <= CALENDAR_LAST_MICROSECOND,
        crate::time::stored_instant(handed) == handed,
{
}

} // verus!
