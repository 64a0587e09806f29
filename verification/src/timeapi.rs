use vstd::prelude::*;
use chrono::Datelike;
use chrono::Timelike;
use crate::time::{LocalTime, TimeError};

verus! {

/// Whether the bundled zone database knows `zone` as an IANA zone name.
/// What `Tz::from_str` accepts is a function of the name alone.
pub uninterp spec fn zone_resolves(zone: Seq<char>) -> bool;

/// The wall-clock reading, in the zone named `zone`, of the instant the
/// RFC 3339 timestamp `ts` denotes; `None` when `ts` does not parse. For a
/// fixed zone database the reading is a function of the two strings alone.
pub uninterp spec fn wall_clock_in_zone(ts: Seq<char>, zone: Seq<char>) -> Option<LocalTime>;

/// Relies on chrono-tz's `Tz::from_str` (resolving the zone name), chrono's
/// `DateTime::parse_from_rfc3339` and `with_timezone` (reading the instant
/// in that zone), and chrono's calendar accessors, whose documented ranges
/// the `Ok` case states: months 1-12, days 1-31, hours 0-23, minutes and
/// seconds 0-59.
#[verifier::external_body]
pub(crate) fn utc_to_zone_wall_clock(start_time: &str, zone: &str) -> (r: Result<
    LocalTime,
    TimeError,
>)
    ensures
        (r is Err && r->Err_0 == TimeError::InvalidTimeZone) <==> !zone_resolves(zone@),
        (r is Err && r->Err_0 == TimeError::InvalidTimestamp) <==> (zone_resolves(zone@)
            && wall_clock_in_zone(start_time@, zone@) is None),
        r is Err ==> r->Err_0 != TimeError::UnsupportedDate,
        r matches Ok(t) ==> wall_clock_in_zone(start_time@, zone@) == Some(t) && 1 <= t.month <= 12
            && 1 <= t.day <= 31 && t.hour <= 23 && t.minute <= 59 && t.second <= 59,
{
    let tz: chrono_tz::Tz = match zone.parse() {
        Ok(t) => t,
        Err(_) => return Err(TimeError::InvalidTimeZone),
    };
    let dt = match chrono::DateTime::parse_from_rfc3339(start_time) {
        Ok(d) => d,
        Err(_) => return Err(TimeError::InvalidTimestamp),
    };
    let local = dt.with_timezone(&tz);
    Ok(LocalTime { year: local.year(), month: local.month() as u8, day: local.day() as u8,
        hour: local.hour() as u8, minute: local.minute() as u8, second: local.second() as u8 })
}

} // verus!
