//! The offset between UTC and a named timezone on a given calendar day.
//!
//! The offset is taken at midday: it is the time between twelve o'clock in
//! the zone and twelve o'clock UTC of the same date, in whole minutes. Zones
//! east of Greenwich get a positive number.

use vstd::prelude::*;
use chrono::TimeZone;

verus! {

/// The largest offset, in minutes, that is handed out: fourteen hours.
pub const MAX_OFFSET_MINUTES: i64 = 840i64;

/// A calendar date.
#[derive(Clone, Copy, Debug, PartialEq, Eq, Structural)]
pub struct CalendarDate {
    pub year: i32,
    pub month: u32,
    pub day: u32,
}

/// What a wall-clock time on some date is in some zone.
#[derive(Clone, Copy, Debug, PartialEq, Eq, Structural)]
pub enum LocalInstant {
    /// The timezone database has no zone of that name.
    UnknownZone,
    /// That date, or that time on it, does not exist in the zone.
    NoSuchTime,
    /// The zone passes through that time twice.
    Ambiguous,
    /// The one instant, in seconds since the start of 1970 in UTC.
    Single(i64),
}

/// Why no offset could be given.
#[derive(Clone, Copy, Debug, PartialEq, Eq, Structural)]
pub enum OffsetError {
    /// The timezone database has no zone of that name.
    UnknownZone,
    /// The date does not exist, or midday is skipped in the zone on it.
    NoSuchTime,
    /// Midday comes twice in the zone on that date.
    AmbiguousTime,
    /// The two instants are more than fourteen hours apart.
    OutOfRange,
}

/// The hour of the day at which offsets are taken.
pub const MIDDAY_HOUR: u32 = 12u32;

/// The given wall-clock time of the date in the named zone, as the timezone
/// database that is compiled into `chrono_tz` gives it.
pub uninterp spec fn zone_instant(
    label: Seq<char>,
    year: int,
    month: int,
    day: int,
    hour: int,
    minute: int,
    second: int,
) -> LocalInstant;

/// `TimeZone::with_ymd_and_hms` of `chrono`, on the `chrono_tz::Tz` that the
/// label parses to, with the instant read off by `DateTime::timestamp`. The
/// result depends on the label, the date and the time alone, and is the
/// named value. Nothing more is claimed of it.
#[verifier::external_body]
fn instant_in_zone(label: &str, date: CalendarDate, hour: u32, minute: u32, second: u32) -> (r:
    LocalInstant)
    ensures
        r == zone_instant(
            label@,
            date.year as int,
            date.month as int,
            date.day as int,
            hour as int,
            minute as int,
            second as int,
        ),
{
    match label.parse::<chrono_tz::Tz>() {
        Err(_) => LocalInstant::UnknownZone,
        Ok(zone) => match zone.with_ymd_and_hms(date.year, date.month, date.day, hour, minute, second) {
            chrono::LocalResult::Single(t) => LocalInstant::Single(t.timestamp()),
            chrono::LocalResult::Ambiguous(_, _) => LocalInstant::Ambiguous,
            chrono::LocalResult::None => LocalInstant::NoSuchTime,
        },
    }
}

/// Midday of the date in the named zone.
pub open spec fn zone_midday(label: Seq<char>, date: CalendarDate) -> LocalInstant {
    zone_instant(
        label,
        date.year as int,
        date.month as int,
        date.day as int,
        MIDDAY_HOUR as int,
        0,
        0,
    )
}

/// The quotient of `a` by sixty, rounded towards zero.
pub open spec fn whole_minutes(a: int) -> int {
    if a >= 0 {
        a / 60
    } else {
        -((-a) / 60)
    }
}

/// The error that a midday which is no single instant stands for.
pub open spec fn midday_error(m: LocalInstant) -> OffsetError {
    match m {
        LocalInstant::UnknownZone => OffsetError::UnknownZone,
        LocalInstant::NoSuchTime => OffsetError::NoSuchTime,
        _ => OffsetError::AmbiguousTime,
    }
}

/// The offset that two middays give: the whole minutes from the zone's
/// midday to that of UTC, where both are single instants at most fourteen
/// hours apart. The zone's own failure is reported before that of UTC.
pub open spec fn offset_spec(local: LocalInstant, utc: LocalInstant) -> Result<i64, OffsetError> {
    match (local, utc) {
        (LocalInstant::Single(l), LocalInstant::Single(u)) => {
            let minutes = whole_minutes(u - l);
            if -(MAX_OFFSET_MINUTES as int) <= minutes <= MAX_OFFSET_MINUTES as int {
                Ok(minutes as i64)
            } else {
                Err(OffsetError::OutOfRange)
            }
        },
        (LocalInstant::Single(_), _) => Err(midday_error(utc)),
        _ => Err(midday_error(local)),
    }
}

/// The offset of the named zone on the given date.
pub open spec fn resolve_spec(label: Seq<char>, date: CalendarDate) -> Result<i64, OffsetError> {
    offset_spec(zone_midday(label, date), zone_midday("UTC"@, date))
}

/// The offset between the zone's midday and that of UTC.
pub fn offset_between(local: LocalInstant, utc: LocalInstant) -> (r: Result<i64, OffsetError>)
    ensures
        r == offset_spec(local, utc),
{
    match local {
        LocalInstant::Single(l) => match utc {
            LocalInstant::Single(u) => {
                let apart: i128 = (u as i128) - (l as i128);
                let limit: i128 = 50_460i128;
                if apart >= limit || apart <= -limit {
                    Err(OffsetError::OutOfRange)
                } else if apart >= 0 {
                    Ok((apart / 60) as i64)
                } else {
                    Ok(-(((-apart) / 60) as i64))
                }
            },
            LocalInstant::UnknownZone => Err(OffsetError::UnknownZone),
            LocalInstant::NoSuchTime => Err(OffsetError::NoSuchTime),
            LocalInstant::Ambiguous => Err(OffsetError::AmbiguousTime),
        },
        LocalInstant::UnknownZone => Err(OffsetError::UnknownZone),
        LocalInstant::NoSuchTime => Err(OffsetError::NoSuchTime),
        LocalInstant::Ambiguous => Err(OffsetError::AmbiguousTime),
    }
}

/// The signed offset, in minutes, between UTC and the named zone at midday
/// of the given date. The same label and date always give the same answer.
pub fn resolve(label: &str, date: CalendarDate) -> (r: Result<i64, OffsetError>)
    ensures
        r == resolve_spec(label@, date),
        r matches Ok(m) ==> -MAX_OFFSET_MINUTES <= m <= MAX_OFFSET_MINUTES,
{
    let local = instant_in_zone(label, date, MIDDAY_HOUR, 0, 0);
    let utc = instant_in_zone("UTC", date, MIDDAY_HOUR, 0, 0);
    offset_between(local, utc)
}

/// No offset that is handed out exceeds fourteen hours in either direction.
pub proof fn lemma_offset_bounded(local: LocalInstant, utc: LocalInstant)
    ensures
        offset_spec(local, utc) matches Ok(m) ==> -MAX_OFFSET_MINUTES <= m <= MAX_OFFSET_MINUTES,
{
}

/// Two answers to the same label and date are equal, and an offset among
/// them is at most fourteen hours in either direction.
pub proof fn lemma_resolve_stable_and_bounded(
    label: Seq<char>,
    date: CalendarDate,
    first: Result<i64, OffsetError>,
    second: Result<i64, OffsetError>,
)
    requires
        first == resolve_spec(label, date),
        second == resolve_spec(label, date),
    ensures
        first == second,
        first matches Ok(m) ==> -MAX_OFFSET_MINUTES <= m <= MAX_OFFSET_MINUTES,
{
    lemma_offset_bounded(zone_midday(label, date), zone_midday("UTC"@, date));
}

} // verus!
