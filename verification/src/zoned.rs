//! The boundary to the time-zone collaborator.  A zoned civil time is read
//! out of chrono into a `CivilTime` of plain values; everything the library
//! then does with those values is verified.  Each function marked
//! `external_body` is trusted and states only what chrono's own source
//! plainly shows.

use vstd::prelude::*;
use chrono::{Datelike, TimeZone, Timelike};
use chrono_tz::Tz;
use crate::engine::spec_gregorian_month_length;

verus! {

#[verifier::external_type_specification]
#[verifier::external_body]
pub struct ExTz(Tz);

/// The readout of one zoned civil time: the Gregorian calendar fields, the
/// clock fields, and the instant they denote, as milliseconds since the
/// epoch.
pub struct CivilTime {
    pub year: i32,
    pub month: u32,
    pub day: u32,
    pub hour: u32,
    pub minute: u32,
    pub second: u32,
    pub nano: u32,
    pub millis: i64,
}

/// The instants for which `civil_from_millis` promises a readout whose local
/// year is between 1 and 260000 in every zone: from one day after the start
/// of year 1 in UTC up to roughly year 255000.
pub open spec fn millis_in_window(millis: i64) -> bool {
    crate::structure::MIN_EPOCH_MILLIS <= millis <= crate::structure::MAX_EPOCH_MILLIS
}

/// Relies on `chrono_tz::Tz::Iran`: the fixed regional zone every value
/// starts in.
#[verifier::external_body]
pub(crate) fn default_time_zone() -> Tz {
    Tz::Iran
}

/// Relies on `<Tz as Clone>::clone`, which `derive(Copy, Clone)` wrote as a
/// plain copy of the value.
pub assume_specification[ <Tz as Clone>::clone ](t: &Tz) -> (r: Tz)
    ensures
        r == *t,
;

/// Relies on chrono's `TimeZone::timestamp_millis_opt`: it returns exactly
/// one zoned civil time for every instant the collaborator can represent
/// (`None` only out of that range), `timestamp_millis` reads back the
/// instant the value was built from, and the readout is a real calendar
/// date with in-range clock fields (the nanosecond can reach 1999999999 in
/// chrono's leap-second representation).  Zone offsets are strictly under
/// one day in magnitude (`FixedOffset` admits nothing larger), so within
/// the window above the local year stays between 1 and 260000.
#[verifier::external_body]
pub(crate) fn civil_from_millis(tz: &Tz, millis: i64) -> (r: Option<CivilTime>)
    ensures
        r is Some ==> r->Some_0.millis == millis,
        r is None ==> !millis_in_window(millis),
        r is Some && millis_in_window(millis) ==> ({
            let c = r->Some_0;
            &&& 1 <= c.year <= 260_000
            &&& 1 <= c.month <= 12
            &&& 1 <= c.day
            &&& c.day as int <= spec_gregorian_month_length(c.year as int, c.month as int)
            &&& c.hour <= 23
            &&& c.minute <= 59
            &&& c.second <= 59
            &&& c.nano <= 1_999_999_999
        }),
{
    let z = tz.timestamp_millis_opt(millis).single()?;
    Some(CivilTime {
        year: z.year(), month: z.month(), day: z.day(),
        hour: z.hour(), minute: z.minute(), second: z.second(),
        nano: z.nanosecond(), millis: z.timestamp_millis(),
    })
}

/// Relies on chrono's `NaiveDate::from_ymd_opt`, `NaiveTime::from_hms_nano_opt`
/// and `TimeZone::from_local_datetime`: when the requested local civil time
/// resolves to exactly one instant in the zone, the result carries exactly
/// the requested calendar, clock and nanosecond fields.
#[verifier::external_body]
pub(crate) fn civil_with_fields(
    tz: &Tz, y: i32, m: u32, d: u32, h: u32, mi: u32, s: u32, n: u32,
) -> (r: Option<CivilTime>)
    ensures
        r is Some ==> r->Some_0.year == y && r->Some_0.month == m && r->Some_0.day == d,
        r is Some ==> r->Some_0.hour == h && r->Some_0.minute == mi && r->Some_0.second == s,
        r is Some ==> r->Some_0.nano == n,
{
    let nd = chrono::NaiveDate::from_ymd_opt(y, m, d)?;
    let nt = chrono::NaiveTime::from_hms_nano_opt(h, mi, s, n)?;
    let z = tz.from_local_datetime(&nd.and_time(nt)).single()?;
    Some(CivilTime {
        year: z.year(), month: z.month(), day: z.day(),
        hour: z.hour(), minute: z.minute(), second: z.second(),
        nano: z.nanosecond(), millis: z.timestamp_millis(),
    })
}

/// Relies on `chrono::Utc::now`: the current instant in milliseconds.
#[verifier::external_body]
pub(crate) fn current_epoch_millis() -> i64 {
    chrono::Utc::now().timestamp_millis()
}

/// Relies on chrono's `%:z` formatting item: the UTC offset of the zone at
/// the given instant, rendered zero-padded with minute precision, so the
/// string is always a sign followed by `HH:MM` (offsets are under a day,
/// hence under 100 hours).
#[verifier::external_body]
pub(crate) fn zone_offset_string(tz: &Tz, millis: i64) -> (r: Option<String>)
    ensures
        r is Some ==> r->Some_0@.len() == 6
            && (r->Some_0@[0] == '+' || r->Some_0@[0] == '-'),
{
    let z = tz.timestamp_millis_opt(millis).single()?;
    Some(z.format("%:z").to_string())
}

} // verus!
