//! The dual-calendar date value and its mutation protocol.  A `PDate` keeps
//! an authoritative millisecond timestamp and a time zone; the Jalali triple,
//! the Gregorian triple and the clock fields are caches that the single
//! synchronization routine rewrites after every successful edit, so that all
//! of them always denote the same instant.

use vstd::prelude::*;
use core::cmp::Ordering;
use chrono_tz::Tz;
use crate::engine;
use crate::engine::{
    spec_gregorian_month_length, spec_gregorian_to_jalali, spec_is_gregorian_leap,
    spec_is_jalali_leap, spec_jalali_day_of_year, spec_jalali_month_length,
    spec_jalali_to_gregorian,
};
use crate::zoned;
use crate::zoned::CivilTime;

verus! {

/// Lowest instant the value accepts: one day after the start of Gregorian
/// year 1 in UTC, so that the local year in any zone is at least 1.
pub const MIN_EPOCH_MILLIS: i64 = -62_135_510_400_000;

/// Highest instant the value accepts, comfortably inside the range the
/// time-zone collaborator can represent.
pub const MAX_EPOCH_MILLIS: i64 = 8_000_000_000_000_000;

/// Highest civil year a synchronized value can carry.
pub const MAX_CIVIL_YEAR: i32 = 260_000;

/// Why a setter or adder rejected its input and left the value unchanged.
#[derive(Clone, Copy, PartialEq, Eq, Structural, Debug)]
pub enum DateError {
    /// A year below 1, or beyond the supported range.
    YearOutOfRange,
    /// A month outside 1 through 12.
    MonthOutOfRange,
    /// A day outside 1 through the named month length.
    DayOutOfRange { month_days: u32 },
    /// An hour outside 0 through 23.
    HourOutOfRange,
    /// A minute outside 0 through 59.
    MinuteOutOfRange,
    /// A second outside 0 through 59.
    SecondOutOfRange,
    /// The target instant cannot be resolved in the time zone (for example a
    /// civil time skipped by a zone transition, or an instant outside the
    /// collaborator's range).
    Unrepresentable,
}

/// Persian Date Structure
pub struct PDate {
    /// Jalali year
    pub year: i32,
    /// Jalali month
    pub month: u32,
    /// Jalali day
    pub day: u32,
    /// Gregorian year
    pub grg_year: i32,
    /// Gregorian month
    pub grg_month: u32,
    /// Gregorian day
    pub grg_day: u32,
    /// Hour in day
    pub hour: u32,
    /// Minute in hour
    pub minute: u32,
    /// Second in minute
    pub second: u32,
    /// Nanosecond
    pub nano_second: u32,
    /// Timestamp milliseconds
    pub time_millis: i64,
    /// Current timezone
    pub time_zone: Tz,
}

/// A civil readout the value can be synchronized to: a real Gregorian date
/// with in-range clock fields, denoting an instant in the supported range.
pub open spec fn civil_in_domain(c: CivilTime) -> bool {
    &&& 1 <= c.year <= MAX_CIVIL_YEAR
    &&& 1 <= c.month <= 12
    &&& 1 <= c.day
    &&& c.day as int <= spec_gregorian_month_length(c.year as int, c.month as int)
    &&& c.hour <= 23
    &&& c.minute <= 59
    &&& c.second <= 59
    &&& c.nano <= 1_999_999_999
    &&& MIN_EPOCH_MILLIS <= c.millis <= MAX_EPOCH_MILLIS
}

/// Calendar month addition: advance the month index, then clamp the day to
/// the target month's length, as the collaborator's month arithmetic does.
pub open spec fn spec_add_months_date(y: int, m: int, d: int, k: int) -> (int, int, int) {
    let t = m - 1 + k;
    let y2 = y + t / 12;
    let m2 = t % 12 + 1;
    let d2 = if d <= spec_gregorian_month_length(y2, m2) {
        d
    } else {
        spec_gregorian_month_length(y2, m2)
    };
    (y2, m2, d2)
}

/// Runtime check of `civil_in_domain`.
fn civil_ok(c: &CivilTime) -> (b: bool)
    ensures
        b == civil_in_domain(*c),
{
    1 <= c.year && c.year <= MAX_CIVIL_YEAR
        && 1 <= c.month && c.month <= 12
        && 1 <= c.day
        && c.day <= engine::gregorian_month_length(c.year, c.month as i32) as u32
        && c.hour <= 23 && c.minute <= 59 && c.second <= 59
        && c.nano <= 1_999_999_999
        && MIN_EPOCH_MILLIS <= c.millis && c.millis <= MAX_EPOCH_MILLIS
}

impl PDate {
    /// The consistency invariant of a synchronized value: the Gregorian
    /// triple is a real date of a supported year, the clock fields are in
    /// range, the instant is in range, and the Jalali triple is exactly the
    /// engine's image of the Gregorian triple.
    pub open spec fn wf(self) -> bool {
        &&& 1 <= self.grg_year <= MAX_CIVIL_YEAR
        &&& 1 <= self.grg_month <= 12
        &&& 1 <= self.grg_day
        &&& self.grg_day as int
            <= spec_gregorian_month_length(self.grg_year as int, self.grg_month as int)
        &&& self.hour <= 23
        &&& self.minute <= 59
        &&& self.second <= 59
        &&& self.nano_second <= 1_999_999_999
        &&& MIN_EPOCH_MILLIS <= self.time_millis <= MAX_EPOCH_MILLIS
        &&& (self.year as int, self.month as int, self.day as int)
            == spec_gregorian_to_jalali(
                self.grg_year as int, self.grg_month as int, self.grg_day as int)
    }

    /// A value that has not been synchronized yet: every numeric field zero.
    pub open spec fn is_unset(self) -> bool {
        &&& self.year == 0 && self.month == 0 && self.day == 0
        &&& self.grg_year == 0 && self.grg_month == 0 && self.grg_day == 0
        &&& self.hour == 0 && self.minute == 0 && self.second == 0
        &&& self.nano_second == 0 && self.time_millis == 0
    }

    /// What the synchronization routine writes: every derived field is
    /// replaced by the readout's fields, the Jalali triple by the engine's
    /// image of the readout's date, and the zone is kept.
    pub open spec fn updated_from(pre: PDate, post: PDate, c: CivilTime) -> bool {
        &&& post.grg_year == c.year
        &&& post.grg_month == c.month
        &&& post.grg_day == c.day
        &&& post.hour == c.hour
        &&& post.minute == c.minute
        &&& post.second == c.second
        &&& post.nano_second == c.nano
        &&& post.time_millis == c.millis
        &&& post.time_zone == pre.time_zone
        &&& (post.year as int, post.month as int, post.day as int)
            == spec_gregorian_to_jalali(c.year as int, c.month as int, c.day as int)
    }

    /// The synchronization routine: the only place derived fields are
    /// written.  Every setter and adder routes through it.
    pub(crate) fn update_from_date(&mut self, c: &CivilTime)
        requires
            civil_in_domain(*c),
        ensures
            Self::updated_from(*old(self), *final(self), *c),
            final(self).wf(),
    {
        let j = engine::gregorian_to_jalali(c.year, c.month as i32, c.day as i32);
        proof {
            crate::engine::lemma_gregorian_to_jalali_in_range(
                c.year as int, c.month as int, c.day as int);
        }
        self.year = j.0;
        self.month = j.1 as u32;
        self.day = j.2 as u32;
        self.grg_year = c.year;
        self.grg_month = c.month;
        self.grg_day = c.day;
        self.hour = c.hour;
        self.minute = c.minute;
        self.second = c.second;
        self.nano_second = c.nano;
        self.time_millis = c.millis;
    }

    /// Re-synchronize to the given instant; on failure the value is left
    /// unchanged.
    fn resync_at(&mut self, millis: i64) -> (r: Result<(), DateError>)
        ensures
            r is Ok ==> final(self).wf() && final(self).time_millis == millis
                && final(self).time_zone == old(self).time_zone,
            r is Err ==> *final(self) == *old(self)
                && r == Err::<(), DateError>(DateError::Unrepresentable),
            MIN_EPOCH_MILLIS <= millis <= MAX_EPOCH_MILLIS ==> r is Ok,
            !(MIN_EPOCH_MILLIS <= millis <= MAX_EPOCH_MILLIS) ==> r is Err,
    {
        match zoned::civil_from_millis(&self.time_zone, millis) {
            Some(c) => {
                if civil_ok(&c) {
                    self.update_from_date(&c);
                    Ok(())
                } else {
                    Err(DateError::Unrepresentable)
                }
            },
            None => Err(DateError::Unrepresentable),
        }
    }

    /// Resolve the given civil fields in the current zone and synchronize to
    /// the result; on failure the value is left unchanged.
    fn apply_civil(&mut self, y: i32, m: u32, d: u32, h: u32, mi: u32, s: u32, n: u32)
        -> (r: Result<(), DateError>)
        ensures
            r is Ok ==> final(self).wf()
                && final(self).grg_year == y && final(self).grg_month == m
                && final(self).grg_day == d
                && final(self).hour == h && final(self).minute == mi
                && final(self).second == s && final(self).nano_second == n
                && final(self).time_zone == old(self).time_zone
                && (final(self).year as int, final(self).month as int, final(self).day as int)
                    == spec_gregorian_to_jalali(y as int, m as int, d as int),
            r is Err ==> *final(self) == *old(self)
                && r == Err::<(), DateError>(DateError::Unrepresentable),
    {
        match zoned::civil_with_fields(&self.time_zone, y, m, d, h, mi, s, n) {
            Some(c) => {
                if civil_ok(&c) {
                    self.update_from_date(&c);
                    Ok(())
                } else {
                    Err(DateError::Unrepresentable)
                }
            },
            None => Err(DateError::Unrepresentable),
        }
    }

    /// Construct from the current instant, in the default zone.
    pub fn now() -> (r: Self)
        ensures
            r.wf() || r.is_unset(),
    {
        Self::from_time_millis(zoned::current_epoch_millis())
    }

    /// Construct from an explicit millisecond timestamp, in the default
    /// zone.  An instant the collaborator cannot resolve leaves the value
    /// unset.
    pub fn from_time_millis(millis: i64) -> (r: Self)
        ensures
            r.wf() ==> r.time_millis == millis,
            r.wf() || r.is_unset(),
            MIN_EPOCH_MILLIS <= millis <= MAX_EPOCH_MILLIS ==> r.wf() && r.time_millis == millis,
    {
        let mut pdate = PDate::default();
        let _ = pdate.resync_at(millis);
        pdate
    }

    /// Construct from an explicit Gregorian date in the default zone, with
    /// the current wall-clock time of day as the time base.
    pub fn from_gregorian_date(year: i32, month: u32, day: u32) -> (r: Self)
        ensures
            r.wf() ==> r.grg_year == year && r.grg_month == month && r.grg_day == day
                && (r.year as int, r.month as int, r.day as int)
                    == spec_gregorian_to_jalali(year as int, month as int, day as int),
            r.wf() || r.is_unset(),
    {
        let mut pdate = PDate::default();
        if let Some(c0) = zoned::civil_from_millis(&pdate.time_zone, zoned::current_epoch_millis()) {
            if civil_ok(&c0) {
                pdate.update_from_date(&c0);
                let _ = pdate.apply_civil(year, month, day, c0.hour, c0.minute, c0.second,
                    c0.nano);
                if !(pdate.grg_year == year && pdate.grg_month == month && pdate.grg_day == day) {
                    return PDate::default();
                }
                return pdate;
            }
        }
        PDate::default()
    }

    /// Construct from an explicit Jalali date: convert to Gregorian through
    /// the engine, then proceed as for a Gregorian date.
    pub fn from_jalali_date(year: i32, month: u32, day: u32) -> (r: Self)
        ensures
            r.wf() || r.is_unset(),
            r.wf() && 1 <= year <= engine::MAX_ENGINE_YEAR
                && 1 <= month <= 12 && 1 <= day <= 31 ==> ({
                let conv = spec_jalali_to_gregorian(year as int, month as int, day as int);
                (r.grg_year as int, r.grg_month as int, r.grg_day as int) == conv
            }),
            r.wf() && 1 <= year <= engine::MAX_ENGINE_YEAR && 1 <= month <= 12
                && 1 <= day && day as int <= spec_jalali_month_length(year as int, month as int)
                ==> r.year == year && r.month == month && r.day == day,
    {
        if year < 1 || year > engine::MAX_ENGINE_YEAR || month < 1 || month > 12
            || day < 1 || day > 31 {
            return PDate::default();
        }
        let conv = engine::jalali_to_gregorian(year, month as i32, day as i32);
        if conv.1 < 1 || conv.1 > 12 || conv.2 < 1 || conv.2 > 31 || conv.0 < 1 {
            return PDate::default();
        }
        let pdate = Self::from_gregorian_date(conv.0, conv.1 as u32, conv.2 as u32);
        proof {
            if day as int <= spec_jalali_month_length(year as int, month as int) {
                crate::day_count::lemma_jalali_round_trip(
                    year as int, month as int, day as int);
            }
        }
        if pdate.wf_check() {
            pdate
        } else {
            PDate::default()
        }
    }

    /// Runtime check of the consistency invariant.
    #[verifier::rlimit(100)]
    pub fn wf_check(&self) -> (b: bool)
        ensures
            b == self.wf(),
    {
        let grg_ok = 1 <= self.grg_year && self.grg_year <= MAX_CIVIL_YEAR
            && 1 <= self.grg_month && self.grg_month <= 12
            && 1 <= self.grg_day
            && self.grg_day <= engine::gregorian_month_length(self.grg_year, self.grg_month as i32) as u32
            && self.hour <= 23 && self.minute <= 59 && self.second <= 59
            && self.nano_second <= 1_999_999_999
            && MIN_EPOCH_MILLIS <= self.time_millis && self.time_millis <= MAX_EPOCH_MILLIS;
        if !grg_ok {
            return false;
        }
        let j = engine::gregorian_to_jalali(self.grg_year, self.grg_month as i32, self.grg_day as i32);
        proof {
            crate::engine::lemma_gregorian_to_jalali_in_range(
                self.grg_year as int, self.grg_month as int, self.grg_day as int);
        }
        j.0 == self.year && self.month <= 12 && j.1 == self.month as i32
            && self.day <= 31 && j.2 == self.day as i32
    }

    /// The UTC offset of the value's zone at its instant: a sign followed by
    /// `HH:MM`, or the empty string when the instant cannot be resolved.
    pub fn format_timezone(&self) -> (r: String)
        ensures
            (r@.len() == 6 && (r@[0] == '+' || r@[0] == '-')) || r@.len() == 0,
    {
        match zoned::zone_offset_string(&self.time_zone, self.time_millis) {
            Some(s) => s,
            None => String::new(),
        }
    }

    /// Set the Jalali year, keeping the Jalali month and day and the time of
    /// day.  A Jalali day count that the target year's month cannot hold is
    /// carried over into the following month, as the engine's formulas do.
    pub fn set_year(&mut self, year: i32) -> (r: Result<(), DateError>)
        ensures
            year < 1 ==> r == Err::<(), DateError>(DateError::YearOutOfRange),
            r is Err ==> *final(self) == *old(self),
            r is Ok ==> 1 <= year && final(self).wf()
                && final(self).hour == old(self).hour
                && final(self).minute == old(self).minute
                && final(self).second == old(self).second
                && final(self).nano_second == old(self).nano_second
                && final(self).time_zone == old(self).time_zone
                && ({
                    let conv = spec_jalali_to_gregorian(
                        year as int, old(self).month as int, old(self).day as int);
                    (final(self).grg_year as int, final(self).grg_month as int,
                        final(self).grg_day as int) == conv
                        && (final(self).year as int, final(self).month as int,
                            final(self).day as int)
                            == spec_gregorian_to_jalali(conv.0, conv.1, conv.2)
                }),
            r is Ok && old(self).day as int <= spec_jalali_month_length(
                year as int, old(self).month as int)
                ==> final(self).year == year
                    && final(self).month == old(self).month
                    && final(self).day == old(self).day,
    {
        if year < 1 {
            return Err(DateError::YearOutOfRange);
        }
        let r = self.apply_jalali(year, self.month, self.day);
        proof {
            if r is Ok && old(self).day as int <= spec_jalali_month_length(
                year as int, old(self).month as int) {
                crate::day_count::lemma_jalali_round_trip(
                    year as int, old(self).month as int, old(self).day as int);
            }
        }
        r
    }

    /// Set the Jalali month, keeping the Jalali year and day and the time of
    /// day.
    pub fn set_month(&mut self, month: u32) -> (r: Result<(), DateError>)
        ensures
            !(1 <= month <= 12) ==> r == Err::<(), DateError>(DateError::MonthOutOfRange),
            r is Err ==> *final(self) == *old(self),
            r is Ok ==> 1 <= month <= 12 && final(self).wf()
                && final(self).hour == old(self).hour
                && final(self).minute == old(self).minute
                && final(self).second == old(self).second
                && final(self).nano_second == old(self).nano_second
                && final(self).time_zone == old(self).time_zone
                && ({
                    let conv = spec_jalali_to_gregorian(
                        old(self).year as int, month as int, old(self).day as int);
                    (final(self).grg_year as int, final(self).grg_month as int,
                        final(self).grg_day as int) == conv
                        && (final(self).year as int, final(self).month as int,
                            final(self).day as int)
                            == spec_gregorian_to_jalali(conv.0, conv.1, conv.2)
                }),
            r is Ok && old(self).day as int <= spec_jalali_month_length(
                old(self).year as int, month as int)
                ==> final(self).year == old(self).year
                    && final(self).month == month && final(self).day == old(self).day,
    {
        if !(1 <= month && month <= 12) {
            return Err(DateError::MonthOutOfRange);
        }
        let r = self.apply_jalali(self.year, month, self.day);
        proof {
            if r is Ok && old(self).day as int <= spec_jalali_month_length(
                old(self).year as int, month as int) {
                crate::day_count::lemma_jalali_round_trip(
                    old(self).year as int, month as int, old(self).day as int);
            }
        }
        r
    }

    /// Set the Jalali day, keeping the Jalali year and month and the time of
    /// day.  The day is validated against the current Jalali month's length.
    pub fn set_day(&mut self, day: u32) -> (r: Result<(), DateError>)
        ensures
            !(1 <= day <= 31) ==> r == Err::<(), DateError>(
                DateError::DayOutOfRange { month_days: 31 }),
            1 <= day <= 31 && day as int > spec_jalali_month_length(
                old(self).year as int, old(self).month as int)
                ==> (r == Err::<(), DateError>(DateError::DayOutOfRange {
                    month_days: spec_jalali_month_length(
                        old(self).year as int, old(self).month as int) as u32 })),
            r is Err ==> *final(self) == *old(self),
            r is Ok ==> 1 <= day
                && day as int <= spec_jalali_month_length(
                    old(self).year as int, old(self).month as int)
                && final(self).wf()
                && final(self).hour == old(self).hour
                && final(self).minute == old(self).minute
                && final(self).second == old(self).second
                && final(self).nano_second == old(self).nano_second
                && final(self).time_zone == old(self).time_zone
                && ({
                    let conv = spec_jalali_to_gregorian(
                        old(self).year as int, old(self).month as int, day as int);
                    (final(self).grg_year as int, final(self).grg_month as int,
                        final(self).grg_day as int) == conv
                        && (final(self).year as int, final(self).month as int,
                            final(self).day as int)
                            == spec_gregorian_to_jalali(conv.0, conv.1, conv.2)
                })
                && final(self).year == old(self).year
                && final(self).month == old(self).month
                && final(self).day == day,
    {
        if !(1 <= day && day <= 31) {
            return Err(DateError::DayOutOfRange { month_days: 31 });
        }
        let md = self.month_days();
        if day > md {
            return Err(DateError::DayOutOfRange { month_days: md });
        }
        let r = self.apply_jalali(self.year, self.month, day);
        proof {
            if r is Ok {
                crate::day_count::lemma_jalali_round_trip(
                    old(self).year as int, old(self).month as int, day as int);
            }
        }
        r
    }

    /// Shared body of the Jalali setters: convert the target Jalali triple
    /// to Gregorian through the engine and synchronize to it.
    fn apply_jalali(&mut self, year: i32, month: u32, day: u32) -> (r: Result<(), DateError>)
        ensures
            r is Err ==> *final(self) == *old(self),
            r is Ok ==> engine::MIN_ENGINE_JALALI_YEAR <= year <= engine::MAX_ENGINE_YEAR
                && 1 <= month <= 12 && 1 <= day <= 31
                && final(self).wf()
                && final(self).hour == old(self).hour
                && final(self).minute == old(self).minute
                && final(self).second == old(self).second
                && final(self).nano_second == old(self).nano_second
                && final(self).time_zone == old(self).time_zone
                && ({
                    let conv = spec_jalali_to_gregorian(year as int, month as int, day as int);
                    (final(self).grg_year as int, final(self).grg_month as int,
                        final(self).grg_day as int) == conv
                        && (final(self).year as int, final(self).month as int,
                            final(self).day as int)
                            == spec_gregorian_to_jalali(conv.0, conv.1, conv.2)
                }),
    {
        if year < engine::MIN_ENGINE_JALALI_YEAR || year > engine::MAX_ENGINE_YEAR
            || month < 1 || month > 12 || day < 1 || day > 31 {
            return Err(DateError::Unrepresentable);
        }
        let conv = engine::jalali_to_gregorian(year, month as i32, day as i32);
        if conv.0 < 1 || conv.1 < 1 || conv.1 > 12 || conv.2 < 1 || conv.2 > 31 {
            return Err(DateError::Unrepresentable);
        }
        self.apply_civil(conv.0, conv.1 as u32, conv.2 as u32, self.hour, self.minute,
            self.second, self.nano_second)
    }

    /// Set the Gregorian year, keeping the Gregorian month and day and the
    /// time of day.
    pub fn set_grg_year(&mut self, year: i32) -> (r: Result<(), DateError>)
        ensures
            year < 1 ==> r == Err::<(), DateError>(DateError::YearOutOfRange),
            r is Err ==> *final(self) == *old(self),
            r is Ok ==> 1 <= year && final(self).wf()
                && final(self).grg_year == year
                && final(self).grg_month == old(self).grg_month
                && final(self).grg_day == old(self).grg_day
                && final(self).hour == old(self).hour
                && final(self).minute == old(self).minute
                && final(self).second == old(self).second
                && final(self).time_zone == old(self).time_zone
                && final(self).nano_second == old(self).nano_second
                && (final(self).year as int, final(self).month as int, final(self).day as int)
                    == spec_gregorian_to_jalali(year as int, old(self).grg_month as int,
                        old(self).grg_day as int),
    {
        if year < 1 {
            return Err(DateError::YearOutOfRange);
        }
        self.apply_civil(year, self.grg_month, self.grg_day, self.hour, self.minute,
            self.second, self.nano_second)
    }

    /// Set the Gregorian month, keeping the Gregorian year and day and the
    /// time of day.
    pub fn set_grg_month(&mut self, month: u32) -> (r: Result<(), DateError>)
        ensures
            !(1 <= month <= 12) ==> r == Err::<(), DateError>(DateError::MonthOutOfRange),
            r is Err ==> *final(self) == *old(self),
            r is Ok ==> 1 <= month <= 12 && final(self).wf()
                && final(self).grg_year == old(self).grg_year
                && final(self).grg_month == month
                && final(self).grg_day == old(self).grg_day
                && final(self).hour == old(self).hour
                && final(self).minute == old(self).minute
                && final(self).second == old(self).second
                && final(self).time_zone == old(self).time_zone
                && final(self).nano_second == old(self).nano_second
                && (final(self).year as int, final(self).month as int, final(self).day as int)
                    == spec_gregorian_to_jalali(old(self).grg_year as int, month as int,
                        old(self).grg_day as int),
    {
        if !(1 <= month && month <= 12) {
            return Err(DateError::MonthOutOfRange);
        }
        self.apply_civil(self.grg_year, month, self.grg_day, self.hour, self.minute,
            self.second, self.nano_second)
    }

    /// Set the Gregorian day, keeping the Gregorian year and month and the
    /// time of day.  The day is validated against the current Gregorian
    /// month's length.
    pub fn set_grg_day(&mut self, day: u32) -> (r: Result<(), DateError>)
        ensures
            !(1 <= day <= 31) ==> r == Err::<(), DateError>(
                DateError::DayOutOfRange { month_days: 31 }),
            1 <= day <= 31 && day as int > spec_gregorian_month_length(
                old(self).grg_year as int, old(self).grg_month as int)
                ==> (r == Err::<(), DateError>(DateError::DayOutOfRange {
                    month_days: spec_gregorian_month_length(
                        old(self).grg_year as int, old(self).grg_month as int) as u32 })),
            r is Err ==> *final(self) == *old(self),
            r is Ok ==> 1 <= day
                && day as int <= spec_gregorian_month_length(
                    old(self).grg_year as int, old(self).grg_month as int)
                && final(self).wf()
                && final(self).grg_year == old(self).grg_year
                && final(self).grg_month == old(self).grg_month
                && final(self).grg_day == day
                && final(self).hour == old(self).hour
                && final(self).minute == old(self).minute
                && final(self).second == old(self).second
                && final(self).time_zone == old(self).time_zone
                && final(self).nano_second == old(self).nano_second
                && (final(self).year as int, final(self).month as int, final(self).day as int)
                    == spec_gregorian_to_jalali(old(self).grg_year as int,
                        old(self).grg_month as int, day as int),
    {
        if !(1 <= day && day <= 31) {
            return Err(DateError::DayOutOfRange { month_days: 31 });
        }
        let md = self.grg_month_days();
        if day > md {
            return Err(DateError::DayOutOfRange { month_days: md });
        }
        self.apply_civil(self.grg_year, self.grg_month, day, self.hour, self.minute,
            self.second, self.nano_second)
    }

    /// Set the hour of day.
    pub fn set_hour(&mut self, hour: u32) -> (r: Result<(), DateError>)
        ensures
            hour > 23 ==> r == Err::<(), DateError>(DateError::HourOutOfRange),
            r is Err ==> *final(self) == *old(self),
            r is Ok ==> hour <= 23 && final(self).wf()
                && final(self).grg_year == old(self).grg_year
                && final(self).grg_month == old(self).grg_month
                && final(self).grg_day == old(self).grg_day
                && final(self).hour == hour
                && final(self).minute == old(self).minute
                && final(self).second == old(self).second
                && final(self).nano_second == old(self).nano_second
                && final(self).time_zone == old(self).time_zone,
    {
        if hour > 23 {
            return Err(DateError::HourOutOfRange);
        }
        self.apply_civil(self.grg_year, self.grg_month, self.grg_day, hour, self.minute,
            self.second, self.nano_second)
    }

    /// Set the minute of hour.
    pub fn set_minute(&mut self, minute: u32) -> (r: Result<(), DateError>)
        ensures
            minute > 59 ==> r == Err::<(), DateError>(DateError::MinuteOutOfRange),
            r is Err ==> *final(self) == *old(self),
            r is Ok ==> minute <= 59 && final(self).wf()
                && final(self).grg_year == old(self).grg_year
                && final(self).grg_month == old(self).grg_month
                && final(self).grg_day == old(self).grg_day
                && final(self).hour == old(self).hour
                && final(self).minute == minute
                && final(self).second == old(self).second
                && final(self).nano_second == old(self).nano_second
                && final(self).time_zone == old(self).time_zone,
    {
        if minute > 59 {
            return Err(DateError::MinuteOutOfRange);
        }
        self.apply_civil(self.grg_year, self.grg_month, self.grg_day, self.hour, minute,
            self.second, self.nano_second)
    }

    /// Set the second of minute.
    pub fn set_second(&mut self, second: u32) -> (r: Result<(), DateError>)
        ensures
            second > 59 ==> r == Err::<(), DateError>(DateError::SecondOutOfRange),
            r is Err ==> *final(self) == *old(self),
            r is Ok ==> second <= 59 && final(self).wf()
                && final(self).grg_year == old(self).grg_year
                && final(self).grg_month == old(self).grg_month
                && final(self).grg_day == old(self).grg_day
                && final(self).hour == old(self).hour
                && final(self).minute == old(self).minute
                && final(self).second == second
                && final(self).nano_second == old(self).nano_second
                && final(self).time_zone == old(self).time_zone,
    {
        if second > 59 {
            return Err(DateError::SecondOutOfRange);
        }
        self.apply_civil(self.grg_year, self.grg_month, self.grg_day, self.hour, self.minute,
            second, self.nano_second)
    }

    /// Set the Jalali year, month and day as one atomic update: all three
    /// parts are validated first (the day against the target month's
    /// length), and any failure leaves every field untouched.
    pub fn set_ymd(&mut self, year: i32, month: u32, day: u32) -> (r: Result<(), DateError>)
        ensures
            year < 1 ==> r == Err::<(), DateError>(DateError::YearOutOfRange),
            year >= 1 && !(1 <= month <= 12)
                ==> r == Err::<(), DateError>(DateError::MonthOutOfRange),
            year >= 1 && 1 <= month <= 12 && !(1 <= day <= 31)
                ==> (r == Err::<(), DateError>(DateError::DayOutOfRange { month_days: 31 })),
            year >= 1 && 1 <= month <= 12 && 1 <= day <= 31
                && day as int > spec_jalali_month_length(year as int, month as int)
                ==> (r == Err::<(), DateError>(DateError::DayOutOfRange {
                    month_days: spec_jalali_month_length(year as int, month as int) as u32 })),
            r is Err ==> *final(self) == *old(self),
            r is Ok ==> 1 <= year && 1 <= month <= 12 && 1 <= day
                && day as int <= spec_jalali_month_length(year as int, month as int)
                && final(self).wf()
                && final(self).year == year
                && final(self).month == month
                && final(self).day == day
                && final(self).hour == old(self).hour
                && final(self).minute == old(self).minute
                && final(self).second == old(self).second
                && final(self).nano_second == old(self).nano_second
                && final(self).time_zone == old(self).time_zone
                && ({
                    let conv = spec_jalali_to_gregorian(year as int, month as int, day as int);
                    (final(self).grg_year as int, final(self).grg_month as int,
                        final(self).grg_day as int) == conv
                }),
    {
        if year < 1 {
            return Err(DateError::YearOutOfRange);
        }
        if !(1 <= month && month <= 12) {
            return Err(DateError::MonthOutOfRange);
        }
        if !(1 <= day && day <= 31) {
            return Err(DateError::DayOutOfRange { month_days: 31 });
        }
        let ml = engine::jalali_month_length(year, month as i32) as u32;
        if day > ml {
            return Err(DateError::DayOutOfRange { month_days: ml });
        }
        let r = self.apply_jalali(year, month, day);
        proof {
            if r is Ok {
                crate::day_count::lemma_jalali_round_trip(
                    year as int, month as int, day as int);
            }
        }
        r
    }

    /// Set the Gregorian year, month and day as one atomic update: all
    /// three parts are validated first (the day against the target month's
    /// length), and any failure leaves every field untouched.
    pub fn set_grg_ymd(&mut self, year: i32, month: u32, day: u32) -> (r: Result<(), DateError>)
        ensures
            year < 1 ==> r == Err::<(), DateError>(DateError::YearOutOfRange),
            year >= 1 && !(1 <= month <= 12)
                ==> r == Err::<(), DateError>(DateError::MonthOutOfRange),
            year >= 1 && 1 <= month <= 12 && !(1 <= day <= 31)
                ==> (r == Err::<(), DateError>(DateError::DayOutOfRange { month_days: 31 })),
            year >= 1 && 1 <= month <= 12 && 1 <= day <= 31
                && day as int > spec_gregorian_month_length(year as int, month as int)
                ==> (r == Err::<(), DateError>(DateError::DayOutOfRange {
                    month_days: spec_gregorian_month_length(year as int, month as int) as u32 })),
            r is Err ==> *final(self) == *old(self),
            r is Ok ==> 1 <= year && 1 <= month <= 12 && 1 <= day
                && day as int <= spec_gregorian_month_length(year as int, month as int)
                && final(self).wf()
                && final(self).grg_year == year
                && final(self).grg_month == month
                && final(self).grg_day == day
                && final(self).hour == old(self).hour
                && final(self).minute == old(self).minute
                && final(self).second == old(self).second
                && final(self).nano_second == old(self).nano_second
                && final(self).time_zone == old(self).time_zone
                && (final(self).year as int, final(self).month as int, final(self).day as int)
                    == spec_gregorian_to_jalali(year as int, month as int, day as int),
    {
        if year < 1 {
            return Err(DateError::YearOutOfRange);
        }
        if !(1 <= month && month <= 12) {
            return Err(DateError::MonthOutOfRange);
        }
        if !(1 <= day && day <= 31) {
            return Err(DateError::DayOutOfRange { month_days: 31 });
        }
        let ml = engine::gregorian_month_length(year, month as i32) as u32;
        if day > ml {
            return Err(DateError::DayOutOfRange { month_days: ml });
        }
        self.apply_civil(year, month, day, self.hour, self.minute, self.second,
            self.nano_second)
    }

    /// Re-interpret an explicit millisecond timestamp in the current zone.
    pub fn set_time_millis(&mut self, millis: i64) -> (r: Result<(), DateError>)
        ensures
            r is Err ==> *final(self) == *old(self)
                && r == Err::<(), DateError>(DateError::Unrepresentable),
            r is Ok ==> final(self).wf() && final(self).time_millis == millis
                && final(self).time_zone == old(self).time_zone,
            MIN_EPOCH_MILLIS <= millis <= MAX_EPOCH_MILLIS ==> r is Ok,
            !(MIN_EPOCH_MILLIS <= millis <= MAX_EPOCH_MILLIS) ==> r is Err,
    {
        self.resync_at(millis)
    }

    /// Change the time zone and re-interpret the current instant in it.
    pub fn set_time_zone(&mut self, timezone: Tz) -> (r: Result<(), DateError>)
        ensures
            r is Err ==> *final(self) == *old(self),
            r is Ok ==> final(self).wf()
                && final(self).time_millis == old(self).time_millis
                && final(self).time_zone == timezone,
            MIN_EPOCH_MILLIS <= old(self).time_millis <= MAX_EPOCH_MILLIS ==> r is Ok,
    {
        match zoned::civil_from_millis(&timezone, self.time_millis) {
            Some(c) => {
                if civil_ok(&c) {
                    self.time_zone = timezone;
                    self.update_from_date(&c);
                    Ok(())
                } else {
                    Err(DateError::Unrepresentable)
                }
            },
            None => Err(DateError::Unrepresentable),
        }
    }

    /// Move the instant forward by an exact number of milliseconds and
    /// re-synchronize; deltas below one are no-ops by design.
    fn add_exact_millis(&mut self, delta: i64) -> (r: Result<(), DateError>)
        requires
            0 <= delta <= 0x7000_0000_0000_0000,
        ensures
            r is Err ==> *final(self) == *old(self),
            delta == 0 ==> r == Ok::<(), DateError>(()) && *final(self) == *old(self),
            r is Ok && delta > 0 ==> final(self).wf()
                && final(self).time_millis == old(self).time_millis + delta
                && final(self).time_zone == old(self).time_zone,
            delta >= 1 && MIN_EPOCH_MILLIS <= old(self).time_millis
                && old(self).time_millis + delta <= MAX_EPOCH_MILLIS ==> r is Ok,
    {
        if delta == 0 {
            return Ok(());
        }
        if self.time_millis < MIN_EPOCH_MILLIS || self.time_millis > MAX_EPOCH_MILLIS {
            return Err(DateError::Unrepresentable);
        }
        self.resync_at(self.time_millis + delta)
    }

    /// Add whole years, by calendar month arithmetic in the zone.
    pub fn add_years(&mut self, years: u32) -> (r: Result<(), DateError>)
        ensures
            r is Err ==> *final(self) == *old(self),
            years == 0 ==> r == Ok::<(), DateError>(()) && *final(self) == *old(self),
            r is Ok && years > 0 ==> final(self).wf()
                && final(self).time_zone == old(self).time_zone
                && final(self).hour == old(self).hour
                && final(self).minute == old(self).minute
                && final(self).second == old(self).second
                && final(self).nano_second == old(self).nano_second
                && (final(self).grg_year as int, final(self).grg_month as int,
                    final(self).grg_day as int)
                    == spec_add_months_date(old(self).grg_year as int,
                        old(self).grg_month as int, old(self).grg_day as int,
                        12 * years as int),
    {
        if years == 0 {
            return Ok(());
        }
        if years > 300_000 {
            return Err(DateError::Unrepresentable);
        }
        self.advance_months(years * 12)
    }

    /// Add whole calendar months in the zone; overflowing a month's length
    /// clamps to its last day, as the collaborator's month arithmetic does.
    pub fn add_months(&mut self, months: u32) -> (r: Result<(), DateError>)
        ensures
            r is Err ==> *final(self) == *old(self),
            months == 0 ==> r == Ok::<(), DateError>(()) && *final(self) == *old(self),
            r is Ok && months > 0 ==> final(self).wf()
                && final(self).time_zone == old(self).time_zone
                && final(self).hour == old(self).hour
                && final(self).minute == old(self).minute
                && final(self).second == old(self).second
                && final(self).nano_second == old(self).nano_second
                && (final(self).grg_year as int, final(self).grg_month as int,
                    final(self).grg_day as int)
                    == spec_add_months_date(old(self).grg_year as int,
                        old(self).grg_month as int, old(self).grg_day as int,
                        months as int),
    {
        if months == 0 {
            return Ok(());
        }
        self.advance_months(months)
    }

    /// Shared body of the month-based adders: compute the target calendar
    /// date by month arithmetic, then resolve it in the zone at the current
    /// time of day.
    fn advance_months(&mut self, months: u32) -> (r: Result<(), DateError>)
        requires
            months >= 1,
        ensures
            r is Err ==> *final(self) == *old(self),
            r is Ok ==> final(self).wf()
                && final(self).time_zone == old(self).time_zone
                && final(self).hour == old(self).hour
                && final(self).minute == old(self).minute
                && final(self).second == old(self).second
                && final(self).nano_second == old(self).nano_second
                && (final(self).grg_year as int, final(self).grg_month as int,
                    final(self).grg_day as int)
                    == spec_add_months_date(old(self).grg_year as int,
                        old(self).grg_month as int, old(self).grg_day as int, months as int),
    {
        if !self.wf_check() {
            return Err(DateError::Unrepresentable);
        }
        let t: u64 = (self.grg_month - 1) as u64 + months as u64;
        let y2_i: i64 = self.grg_year as i64 + (t / 12) as i64;
        if y2_i > MAX_CIVIL_YEAR as i64 {
            return Err(DateError::Unrepresentable);
        }
        let y2: i32 = y2_i as i32;
        let m2: u32 = (t % 12) as u32 + 1;
        let ml: u32 = engine::gregorian_month_length(y2, m2 as i32) as u32;
        let d2: u32 = if self.grg_day <= ml { self.grg_day } else { ml };
        proof {
            let st = old(self).grg_month - 1 + months as int;
            assert(t as int == st);
            assert(st / 12 >= 0 && st % 12 >= 0) by {
                vstd::arithmetic::div_mod::lemma_div_pos_is_pos(st, 12);
                vstd::arithmetic::div_mod::lemma_mod_division_less_than_divisor(st, 12);
            };
        }
        self.apply_civil(y2, m2, d2, self.hour, self.minute, self.second, self.nano_second)
    }

    /// Add whole weeks; a week is exactly 7 times 24 hours of absolute time,
    /// unaffected by any civil peculiarity of the zone.
    pub fn add_weeks(&mut self, weeks: i64) -> (r: Result<(), DateError>)
        ensures
            r is Err ==> *final(self) == *old(self),
            weeks < 1 ==> r == Ok::<(), DateError>(()) && *final(self) == *old(self),
            r is Ok && weeks >= 1 ==> final(self).wf()
                && final(self).time_millis == old(self).time_millis + weeks * 604_800_000
                && final(self).time_zone == old(self).time_zone,
            1 <= weeks <= 20_000_000 && MIN_EPOCH_MILLIS <= old(self).time_millis
                && old(self).time_millis + weeks * 604_800_000 <= MAX_EPOCH_MILLIS ==> r is Ok,
    {
        if weeks < 1 {
            return Ok(());
        }
        if weeks > 20_000_000 {
            return Err(DateError::Unrepresentable);
        }
        self.add_exact_millis(weeks * 604_800_000)
    }

    /// Add whole days of exactly 24 hours of absolute time.
    pub fn add_days(&mut self, days: i64) -> (r: Result<(), DateError>)
        ensures
            r is Err ==> *final(self) == *old(self),
            days < 1 ==> r == Ok::<(), DateError>(()) && *final(self) == *old(self),
            r is Ok && days >= 1 ==> final(self).wf()
                && final(self).time_millis == old(self).time_millis + days * 86_400_000
                && final(self).time_zone == old(self).time_zone,
            1 <= days <= 200_000_000 && MIN_EPOCH_MILLIS <= old(self).time_millis
                && old(self).time_millis + days * 86_400_000 <= MAX_EPOCH_MILLIS ==> r is Ok,
    {
        if days < 1 {
            return Ok(());
        }
        if days > 200_000_000 {
            return Err(DateError::Unrepresentable);
        }
        self.add_exact_millis(days * 86_400_000)
    }

    /// Add whole hours of absolute time.
    pub fn add_hours(&mut self, hours: i64) -> (r: Result<(), DateError>)
        ensures
            r is Err ==> *final(self) == *old(self),
            hours < 1 ==> r == Ok::<(), DateError>(()) && *final(self) == *old(self),
            r is Ok && hours >= 1 ==> final(self).wf()
                && final(self).time_millis == old(self).time_millis + hours * 3_600_000
                && final(self).time_zone == old(self).time_zone,
            1 <= hours <= 4_000_000_000 && MIN_EPOCH_MILLIS <= old(self).time_millis
                && old(self).time_millis + hours * 3_600_000 <= MAX_EPOCH_MILLIS ==> r is Ok,
    {
        if hours < 1 {
            return Ok(());
        }
        if hours > 4_000_000_000 {
            return Err(DateError::Unrepresentable);
        }
        self.add_exact_millis(hours * 3_600_000)
    }

    /// Add whole minutes of absolute time.
    pub fn add_minutes(&mut self, minutes: i64) -> (r: Result<(), DateError>)
        ensures
            r is Err ==> *final(self) == *old(self),
            minutes < 1 ==> r == Ok::<(), DateError>(()) && *final(self) == *old(self),
            r is Ok && minutes >= 1 ==> final(self).wf()
                && final(self).time_millis == old(self).time_millis + minutes * 60_000
                && final(self).time_zone == old(self).time_zone,
            1 <= minutes <= 200_000_000_000 && MIN_EPOCH_MILLIS <= old(self).time_millis
                && old(self).time_millis + minutes * 60_000 <= MAX_EPOCH_MILLIS ==> r is Ok,
    {
        if minutes < 1 {
            return Ok(());
        }
        if minutes > 200_000_000_000 {
            return Err(DateError::Unrepresentable);
        }
        self.add_exact_millis(minutes * 60_000)
    }

    /// Add whole seconds of absolute time.
    pub fn add_seconds(&mut self, seconds: i64) -> (r: Result<(), DateError>)
        ensures
            r is Err ==> *final(self) == *old(self),
            seconds < 1 ==> r == Ok::<(), DateError>(()) && *final(self) == *old(self),
            r is Ok && seconds >= 1 ==> final(self).wf()
                && final(self).time_millis == old(self).time_millis + seconds * 1000
                && final(self).time_zone == old(self).time_zone,
            1 <= seconds <= 10_000_000_000_000 && MIN_EPOCH_MILLIS <= old(self).time_millis
                && old(self).time_millis + seconds * 1000 <= MAX_EPOCH_MILLIS ==> r is Ok,
    {
        if seconds < 1 {
            return Ok(());
        }
        if seconds > 10_000_000_000_000 {
            return Err(DateError::Unrepresentable);
        }
        self.add_exact_millis(seconds * 1000)
    }

    /// The Jalali year.
    pub fn year(&self) -> (r: i32)
        ensures
            r == self.year,
    {
        self.year
    }

    /// The Gregorian year.
    pub fn grg_year(&self) -> (r: i32)
        ensures
            r == self.grg_year,
    {
        self.grg_year
    }

    /// The Jalali month.
    pub fn month(&self) -> (r: u32)
        ensures
            r == self.month,
    {
        self.month
    }

    /// The Gregorian month.
    pub fn grg_month(&self) -> (r: u32)
        ensures
            r == self.grg_month,
    {
        self.grg_month
    }

    /// The Jalali day.
    pub fn day(&self) -> (r: u32)
        ensures
            r == self.day,
    {
        self.day
    }

    /// The Gregorian day.
    pub fn grg_day(&self) -> (r: u32)
        ensures
            r == self.grg_day,
    {
        self.grg_day
    }

    /// The hour of day, 0 through 23.
    pub fn hour(&self) -> (r: u32)
        ensures
            r == self.hour,
    {
        self.hour
    }

    /// The hour on a 12-hour clock: hours 0 through 12 are returned as they
    /// are (hour 0 stays 0, not 12), later hours drop 12.
    pub fn hour_12(&self) -> (r: u32)
        ensures
            r == (if self.hour <= 12 { self.hour as int } else { self.hour - 12 }),
    {
        if self.hour <= 12 { self.hour } else { self.hour - 12 }
    }

    /// The minute of hour.
    pub fn minute(&self) -> (r: u32)
        ensures
            r == self.minute,
    {
        self.minute
    }

    /// The second of minute.
    pub fn second(&self) -> (r: u32)
        ensures
            r == self.second,
    {
        self.second
    }

    /// The nanosecond within the second.
    pub fn nano_second(&self) -> (r: u32)
        ensures
            r == self.nano_second,
    {
        self.nano_second
    }

    /// The authoritative timestamp in milliseconds since the epoch.
    pub fn time_millis(&self) -> (r: i64)
        ensures
            r == self.time_millis,
    {
        self.time_millis
    }

    /// The time zone.
    pub fn time_zone(&self) -> (r: Tz)
        ensures
            r == self.time_zone,
    {
        self.time_zone.clone()
    }

    /// The day of week, 0 for Saturday through 6 for Friday: the unbroken
    /// 7-day cycle makes the weekday a pure function of the stored Gregorian
    /// date, namely its absolute day index modulo 7 (the index of the epoch
    /// day, a Thursday, is congruent to 5, and Thursday is 5 on this scale).
    pub fn day_of_week(&self) -> (r: u32)
        ensures
            r <= 6,
            1 <= self.grg_year <= MAX_CIVIL_YEAR && 1 <= self.grg_month <= 12
                && 1 <= self.grg_day <= 31
                ==> r as int == crate::day_count::gregorian_day_index(
                    self.grg_year as int, self.grg_month as int, self.grg_day as int) % 7,
    {
        if !(1 <= self.grg_year && self.grg_year <= MAX_CIVIL_YEAR
            && 1 <= self.grg_month && self.grg_month <= 12
            && 1 <= self.grg_day && self.grg_day <= 31) {
            return 0;
        }
        let y: u64 = self.grg_year as u64;
        proof {
            crate::day_count::lemma_leaps_before_bounds(y as int);
        }
        let leaps: u64 = (y + 3) / 4 - (y + 99) / 100 + (y + 399) / 400;
        let leapbit: u64 = if self.grg_month > 2 && engine::is_gregorian_leap(self.grg_year) {
            1
        } else {
            0
        };
        let doy0: u64 = engine::days_before_gregorian_month(self.grg_month as i32) + leapbit
            + self.grg_day as u64 - 1;
        let gdi: u64 = 365 * y + leaps + doy0;
        proof {
            assert(gdi as int == crate::day_count::gregorian_day_index(
                self.grg_year as int, self.grg_month as int, self.grg_day as int));
        }
        (gdi % 7) as u32
    }

    /// The Persian name of the weekday, from the fixed table.
    pub fn day_name(&self) -> (r: String)
        ensures
            1 <= self.grg_year <= MAX_CIVIL_YEAR && 1 <= self.grg_month <= 12
                && 1 <= self.grg_day <= 31
                ==> r@ == crate::format::spec_day_name(crate::day_count::gregorian_day_index(
                    self.grg_year as int, self.grg_month as int, self.grg_day as int) % 7),
    {
        crate::format::day_name_of(self.day_of_week())
    }

    /// The English name of the weekday, from the fixed table.
    pub fn grg_day_name(&self) -> (r: String)
        ensures
            1 <= self.grg_year <= MAX_CIVIL_YEAR && 1 <= self.grg_month <= 12
                && 1 <= self.grg_day <= 31
                ==> r@ == crate::format::spec_grg_day_name(
                    crate::day_count::gregorian_day_index(
                        self.grg_year as int, self.grg_month as int, self.grg_day as int) % 7),
    {
        crate::format::grg_day_name_of(self.day_of_week())
    }

    /// The length of the current Jalali month.
    pub fn month_days(&self) -> (r: u32)
        ensures
            r as int == spec_jalali_month_length(self.year as int, self.month as int),
    {
        if self.month <= 6 {
            31
        } else if self.month <= 11 || self.is_leap() {
            30
        } else {
            29
        }
    }

    /// The length of the current Gregorian month.
    pub fn grg_month_days(&self) -> (r: u32)
        ensures
            r as int == spec_gregorian_month_length(self.grg_year as int, self.grg_month as int),
    {
        let m: i32 = if self.grg_month > 12 { 13 } else { self.grg_month as i32 };
        engine::gregorian_month_length(self.grg_year, m) as u32
    }

    /// The Persian name of the current Jalali month from the fixed table,
    /// or an empty string for an unsynchronized value.
    pub fn month_name(&self) -> (r: String)
        ensures
            r@ == crate::format::spec_month_name(self.month as int),
    {
        crate::format::month_name_of(self.month)
    }

    /// The English name of the current Gregorian month from the fixed
    /// table, or an empty string for an unsynchronized value.
    pub fn grg_month_name(&self) -> (r: String)
        ensures
            r@ == crate::format::spec_grg_month_name(self.grg_month as int),
    {
        crate::format::grg_month_name_of(self.grg_month)
    }

    /// Whether the current Jalali year is a leap year.
    pub fn is_leap(&self) -> (r: bool)
        ensures
            r == spec_is_jalali_leap(self.year as int),
    {
        engine::is_jalali_leap(self.year)
    }

    /// Whether the current Gregorian year is a leap year.
    pub fn is_grg_leap(&self) -> (r: bool)
        ensures
            r == spec_is_gregorian_leap(self.grg_year as int),
    {
        engine::is_gregorian_leap(self.grg_year)
    }

    /// The day within the Jalali year, counting the elapsed months by the
    /// 31/30-day split.
    pub fn day_of_year(&self) -> (r: u32)
        ensures
            1 <= self.month <= 12 && self.day <= 31 ==> r as int == spec_jalali_day_of_year(
                self.month as int, self.day as int),
    {
        if !(1 <= self.month && self.month <= 12 && self.day <= 31) {
            return self.day;
        }
        let mut acc: u32 = self.day;
        let mut i: u32 = 1;
        while i < self.month
            invariant
                1 <= i <= self.month,
                self.month <= 12,
                self.day <= 31,
                acc as int == spec_jalali_day_of_year(i as int, self.day as int),
            decreases self.month - i,
        {
            if i <= 6 {
                acc = acc + 31;
            } else {
                acc = acc + 30;
            }
            i = i + 1;
        }
        acc
    }

    /// The Persian name for the half of the day, by whether the hour is
    /// before 12.
    pub fn time_of_day(&self) -> (r: String)
        ensures
            r@ == (if self.hour < 12 { "قبل از ظهر"@ } else { "بعد از ظهر"@ }),
    {
        if self.is_mid_night() {
            "قبل از ظهر".to_owned()
        } else {
            "بعد از ظهر".to_owned()
        }
    }

    /// The short Persian name for the half of the day.
    pub fn short_time_of_day(&self) -> (r: String)
        ensures
            r@ == (if self.hour < 12 { "ق.ظ"@ } else { "ب.ظ"@ }),
    {
        if self.is_mid_night() {
            "ق.ظ".to_owned()
        } else {
            "ب.ظ".to_owned()
        }
    }

    /// Whether the hour is before noon.
    pub fn is_mid_night(&self) -> (r: bool)
        ensures
            r == (self.hour < 12),
    {
        self.hour < 12
    }
}

impl Default for PDate {
    /// The unsynchronized starting value: all numeric fields zero, in the
    /// default zone.
    fn default() -> (r: Self)
        ensures
            r.is_unset(),
    {
        PDate {
            year: 0,
            month: 0,
            day: 0,
            grg_year: 0,
            grg_month: 0,
            grg_day: 0,
            hour: 0,
            minute: 0,
            second: 0,
            nano_second: 0,
            time_millis: 0,
            time_zone: zoned::default_time_zone(),
        }
    }
}

impl PartialEq for PDate {
    /// Two values are equal exactly when their authoritative timestamps are:
    /// calendar fields are display projections, not comparison keys.
    fn eq(&self, other: &Self) -> (r: bool) {
        self.time_millis == other.time_millis
    }
}

impl vstd::std_specs::cmp::PartialEqSpecImpl for PDate {
    open spec fn obeys_eq_spec() -> bool {
        true
    }

    open spec fn eq_spec(&self, other: &PDate) -> bool {
        self.time_millis == other.time_millis
    }
}

impl PartialOrd for PDate {
    /// Values order by their authoritative timestamps alone.
    fn partial_cmp(&self, other: &PDate) -> (r: Option<Ordering>) {
        if self.time_millis < other.time_millis {
            Some(Ordering::Less)
        } else if self.time_millis == other.time_millis {
            Some(Ordering::Equal)
        } else {
            Some(Ordering::Greater)
        }
    }
}

impl vstd::std_specs::cmp::PartialOrdSpecImpl for PDate {
    open spec fn obeys_partial_cmp_spec() -> bool {
        true
    }

    open spec fn partial_cmp_spec(&self, other: &PDate) -> Option<Ordering> {
        if self.time_millis < other.time_millis {
            Some(Ordering::Less)
        } else if self.time_millis == other.time_millis {
            Some(Ordering::Equal)
        } else {
            Some(Ordering::Greater)
        }
    }
}

/// In every well-formed value the stored Gregorian triple is recovered from
/// the stored Jalali triple by the engine, just as the Jalali triple is by
/// definition the engine's image of the Gregorian one; the stored Jalali
/// triple is always a valid date.
pub proof fn lemma_synchronization_consistency(d: PDate)
    requires
        d.wf(),
    ensures
        (d.grg_year as int, d.grg_month as int, d.grg_day as int)
            == spec_jalali_to_gregorian(d.year as int, d.month as int, d.day as int),
        1 <= d.month <= 12,
        1 <= d.day as int,
        d.day as int <= spec_jalali_month_length(d.year as int, d.month as int),
{
    crate::day_count::lemma_gregorian_round_trip(
        d.grg_year as int, d.grg_month as int, d.grg_day as int);
}

/// Two values synchronized to the same civil readout agree on every derived
/// field: the synchronization routine is deterministic in its input.
pub proof fn lemma_resynchronization_idempotent(
    pa: PDate, a: PDate, pb: PDate, b: PDate, c: CivilTime,
)
    requires
        PDate::updated_from(pa, a, c),
        PDate::updated_from(pb, b, c),
    ensures
        a.year == b.year,
        a.month == b.month,
        a.day == b.day,
        a.grg_year == b.grg_year,
        a.grg_month == b.grg_month,
        a.grg_day == b.grg_day,
        a.hour == b.hour,
        a.minute == b.minute,
        a.second == b.second,
        a.nano_second == b.nano_second,
        a.time_millis == b.time_millis,
{
}

/// The comparison of two values is decided by their authoritative
/// timestamps alone, whatever their zones or calendar display fields.
pub proof fn lemma_ordering_by_timestamp(a: PDate, b: PDate)
    ensures
        vstd::std_specs::cmp::PartialOrdSpec::partial_cmp_spec(&a, &b)
            == Some(Ordering::Less) <==> a.time_millis < b.time_millis,
        vstd::std_specs::cmp::PartialOrdSpec::partial_cmp_spec(&a, &b)
            == Some(Ordering::Equal) <==> a.time_millis == b.time_millis,
        vstd::std_specs::cmp::PartialOrdSpec::partial_cmp_spec(&a, &b)
            == Some(Ordering::Greater) <==> a.time_millis > b.time_millis,
        vstd::std_specs::cmp::PartialEqSpec::eq_spec(&a, &b)
            <==> a.time_millis == b.time_millis,
{
}

/// Reader Trait for fetching data from date
pub trait Reader {
    /// Return the jalali year
    fn year(&self) -> i32;
    /// Return the gregorian year
    fn grg_year(&self) -> i32;
    /// Return the jalali month
    fn month(&self) -> u32;
    /// Return the gregorian month
    fn grg_month(&self) -> u32;
    /// Return the jalali day
    fn day(&self) -> u32;
    /// Return the gregorian day
    fn grg_day(&self) -> u32;
    /// Return hour in day
    fn hour(&self) -> u32;
    /// Return hour in day with 12 time format
    fn hour_12(&self) -> u32;
    /// Return minute in hour
    fn minute(&self) -> u32;
    /// Return second in minute
    fn second(&self) -> u32;
    /// Return nanoseconds
    fn nano_second(&self) -> u32;
    /// Return timestamp milliseconds
    fn time_millis(&self) -> i64;
    /// Return using timezone - Default is Iran/Tehran
    fn time_zone(&self) -> Tz;
    /// Return name of week day
    fn day_name(&self) -> String;
    /// Return name of week day in gregorian
    fn grg_day_name(&self) -> String;
    /// Return count of days in month
    fn month_days(&self) -> u32;
    /// Return count of days in gregorian month
    fn grg_month_days(&self) -> u32;
    /// Return name of month
    fn month_name(&self) -> String;
    /// Return name of gregorian month
    fn grg_month_name(&self) -> String;
    /// Return jalali year is leap or not
    fn is_leap(&self) -> bool;
    /// Return gregorian year is leap or not
    fn is_grg_leap(&self) -> bool;
    /// Return day in week
    fn day_of_week(&self) -> u32;
    /// Return day in year
    fn day_of_year(&self) -> u32;
    /// Return time of the day
    fn time_of_day(&self) -> String;
    /// Return time of the day in short format
    fn short_time_of_day(&self) -> String;
    /// Return current time is before of 12 or not
    fn is_mid_night(&self) -> bool;
}

impl Reader for PDate {
    fn year(&self) -> i32 { PDate::year(self) }

    fn grg_year(&self) -> i32 { PDate::grg_year(self) }

    fn month(&self) -> u32 { PDate::month(self) }

    fn grg_month(&self) -> u32 { PDate::grg_month(self) }

    fn day(&self) -> u32 { PDate::day(self) }

    fn grg_day(&self) -> u32 { PDate::grg_day(self) }

    fn hour(&self) -> u32 { PDate::hour(self) }

    fn hour_12(&self) -> u32 { PDate::hour_12(self) }

    fn minute(&self) -> u32 { PDate::minute(self) }

    fn second(&self) -> u32 { PDate::second(self) }

    fn nano_second(&self) -> u32 { PDate::nano_second(self) }

    fn time_millis(&self) -> i64 { PDate::time_millis(self) }

    fn time_zone(&self) -> Tz { PDate::time_zone(self) }

    fn day_name(&self) -> String { PDate::day_name(self) }

    fn grg_day_name(&self) -> String { PDate::grg_day_name(self) }

    fn month_days(&self) -> u32 { PDate::month_days(self) }

    fn grg_month_days(&self) -> u32 { PDate::grg_month_days(self) }

    fn month_name(&self) -> String { PDate::month_name(self) }

    fn grg_month_name(&self) -> String { PDate::grg_month_name(self) }

    fn is_leap(&self) -> bool { PDate::is_leap(self) }

    fn is_grg_leap(&self) -> bool { PDate::is_grg_leap(self) }

    fn day_of_week(&self) -> u32 { PDate::day_of_week(self) }

    fn day_of_year(&self) -> u32 { PDate::day_of_year(self) }

    fn time_of_day(&self) -> String { PDate::time_of_day(self) }

    fn short_time_of_day(&self) -> String { PDate::short_time_of_day(self) }

    fn is_mid_night(&self) -> bool { PDate::is_mid_night(self) }
}

/// Setter Trait for Set/Update/Change data from date
/// All Add* will be handled to the next date when they exceed the limitation
pub trait Setter {
    /// Set jalali year - month - day (update date to this)
    fn set_ymd(&mut self, year: i32, month: u32, day: u32) -> Result<(), DateError>;
    /// Set gregorian year - month - day (update date to this)
    fn set_grg_ymd(&mut self, year: i32, month: u32, day: u32) -> Result<(), DateError>;
    /// Set jalali year
    fn set_year(&mut self, year: i32) -> Result<(), DateError>;
    /// Set gregorian year
    fn set_grg_year(&mut self, year: i32) -> Result<(), DateError>;
    /// Set jalali month
    fn set_month(&mut self, month: u32) -> Result<(), DateError>;
    /// Set gregorian month
    fn set_grg_month(&mut self, month: u32) -> Result<(), DateError>;
    /// Set jalali day
    fn set_day(&mut self, day: u32) -> Result<(), DateError>;
    /// Set gregorian day
    fn set_grg_day(&mut self, day: u32) -> Result<(), DateError>;
    /// Set hour in day
    fn set_hour(&mut self, hour: u32) -> Result<(), DateError>;
    /// Set minutes in hour
    fn set_minute(&mut self, minute: u32) -> Result<(), DateError>;
    /// Set seconds in minute
    fn set_second(&mut self, second: u32) -> Result<(), DateError>;
    /// Set timestamp milliseconds
    fn set_time_millis(&mut self, millis: i64) -> Result<(), DateError>;
    /// Set/Change timezone
    fn set_time_zone(&mut self, timezone: Tz) -> Result<(), DateError>;
    /// Add years to date
    fn add_years(&mut self, years: u32) -> Result<(), DateError>;
    /// Add months to date
    fn add_months(&mut self, months: u32) -> Result<(), DateError>;
    /// Add weeks to date
    fn add_weeks(&mut self, weeks: i64) -> Result<(), DateError>;
    /// Add days to date
    fn add_days(&mut self, days: i64) -> Result<(), DateError>;
    /// Add hours to date
    fn add_hours(&mut self, hours: i64) -> Result<(), DateError>;
    /// Add minutes to date
    fn add_minutes(&mut self, minutes: i64) -> Result<(), DateError>;
    /// Add seconds to date
    fn add_seconds(&mut self, seconds: i64) -> Result<(), DateError>;
}

impl Setter for PDate {
    fn set_ymd(&mut self, year: i32, month: u32, day: u32) -> Result<(), DateError> {
        PDate::set_ymd(self, year, month, day)
    }

    fn set_grg_ymd(&mut self, year: i32, month: u32, day: u32) -> Result<(), DateError> {
        PDate::set_grg_ymd(self, year, month, day)
    }

    fn set_year(&mut self, year: i32) -> Result<(), DateError> {
        PDate::set_year(self, year)
    }

    fn set_grg_year(&mut self, year: i32) -> Result<(), DateError> {
        PDate::set_grg_year(self, year)
    }

    fn set_month(&mut self, month: u32) -> Result<(), DateError> {
        PDate::set_month(self, month)
    }

    fn set_grg_month(&mut self, month: u32) -> Result<(), DateError> {
        PDate::set_grg_month(self, month)
    }

    fn set_day(&mut self, day: u32) -> Result<(), DateError> {
        PDate::set_day(self, day)
    }

    fn set_grg_day(&mut self, day: u32) -> Result<(), DateError> {
        PDate::set_grg_day(self, day)
    }

    fn set_hour(&mut self, hour: u32) -> Result<(), DateError> {
        PDate::set_hour(self, hour)
    }

    fn set_minute(&mut self, minute: u32) -> Result<(), DateError> {
        PDate::set_minute(self, minute)
    }

    fn set_second(&mut self, second: u32) -> Result<(), DateError> {
        PDate::set_second(self, second)
    }

    fn set_time_millis(&mut self, millis: i64) -> Result<(), DateError> {
        PDate::set_time_millis(self, millis)
    }

    fn set_time_zone(&mut self, timezone: Tz) -> Result<(), DateError> {
        PDate::set_time_zone(self, timezone)
    }

    fn add_years(&mut self, years: u32) -> Result<(), DateError> {
        PDate::add_years(self, years)
    }

    fn add_months(&mut self, months: u32) -> Result<(), DateError> {
        PDate::add_months(self, months)
    }

    fn add_weeks(&mut self, weeks: i64) -> Result<(), DateError> {
        PDate::add_weeks(self, weeks)
    }

    fn add_days(&mut self, days: i64) -> Result<(), DateError> {
        PDate::add_days(self, days)
    }

    fn add_hours(&mut self, hours: i64) -> Result<(), DateError> {
        PDate::add_hours(self, hours)
    }

    fn add_minutes(&mut self, minutes: i64) -> Result<(), DateError> {
        PDate::add_minutes(self, minutes)
    }

    fn add_seconds(&mut self, seconds: i64) -> Result<(), DateError> {
        PDate::add_seconds(self, seconds)
    }
}

} // verus!
